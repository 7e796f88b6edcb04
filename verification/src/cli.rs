//! The command line.
//!
//! Options stand in any order, before or after the other arguments. Where one
//! is given twice the last one counts.

use crate::text;
use vstd::prelude::*;

verus! {

/// Seed of a VM for which none is given.
pub const DEFAULT_SEED: u64 = 42;

/// Forks that a benchmark makes if no number is given.
pub const DEFAULT_ITERATIONS: usize = 1000;

/// Arguments as contracts speak of them.
pub open spec fn words(args: Seq<String>) -> Seq<Seq<char>> {
    Seq::new(args.len(), |i: int| args[i]@)
}

/// The argument at `i`, if there is one.
pub open spec fn word_at(args: Seq<Seq<char>>, i: int) -> Option<Seq<char>> {
    if 0 <= i < args.len() {
        Some(args[i])
    } else {
        None
    }
}

/// The argument at `i` as text: empty if there is none.
pub open spec fn text_at(args: Seq<Seq<char>>, i: int) -> Seq<char> {
    match word_at(args, i) {
        Some(w) => w,
        None => Seq::empty(),
    }
}

/// The argument at `i` as a number no greater than `max`.
pub open spec fn number_at(args: Seq<Seq<char>>, i: int, max: nat) -> Option<nat> {
    match word_at(args, i) {
        Some(w) => text::parse_spec(w, 10, max),
        None => None,
    }
}

/// An optional string as contracts speak of it.
pub open spec fn option_view(s: Option<String>) -> Option<Seq<char>> {
    match s {
        Some(t) => Some(t@),
        None => None,
    }
}

/// Is `s` the word `word`?
fn is_word(s: &String, word: &'static str) -> (r: bool)
    ensures
        r == (s@ == word@),
{
    let w = String::from_str(word);
    *s == w
}

/// Is `s` empty?
fn is_empty(s: &String) -> (r: bool)
    ensures
        r == (s@.len() == 0),
{
    proof {
        reveal_strlit("");
        if s@.len() == 0 {
            assert(s@ =~= ""@);
        }
    }
    is_word(s, "")
}

/// A copy of `s`.
fn copy(s: &String) -> (r: String)
    ensures
        r@ == s@,
{
    String::from_str(s.as_str())
}

/// The argument at `i`, if there is one.
fn value_at(args: &[String], i: usize) -> (r: Option<String>)
    ensures
        option_view(r) == word_at(words(args@), i as int),
{
    if i < args.len() {
        Some(copy(&args[i]))
    } else {
        None
    }
}

/// The argument at `i` as text: empty if there is none.
fn value_or_empty(args: &[String], i: usize) -> (r: String)
    ensures
        r@ == text_at(words(args@), i as int),
{
    if i < args.len() {
        copy(&args[i])
    } else {
        proof {
            reveal_strlit("");
        }
        let r = String::from_str("");
        assert(r@ =~= Seq::<char>::empty());
        r
    }
}

/// The argument at `i` as a number.
fn value_number(args: &[String], i: usize, max: u64) -> (r: Option<u64>)
    ensures
        match r {
            Some(v) => number_at(words(args@), i as int, max as nat) == Some(v as nat),
            None => number_at(words(args@), i as int, max as nat) is None,
        },
{
    if i < args.len() {
        let chars = text::chars_of(args[i].as_str());
        text::parse_number(chars.as_slice(), 10, max)
    } else {
        None
    }
}

/// The index behind `i` and `k` more arguments, no greater than `n`.
fn advance(i: usize, k: usize, n: usize) -> (r: usize)
    requires
        i < n,
        1 <= k,
    ensures
        r == if i + k <= n {
            i + k
        } else {
            n as int
        },
{
    if n - i <= k {
        n
    } else {
        i + k
    }
}

/// The arguments of `run` from index `i` on: seed and guest path, or `None` if
/// a `--seed` has no number behind it.
pub open spec fn run_args(args: Seq<Seq<char>>, i: int, seed: u64, path: Seq<char>) -> Option<
    (u64, Seq<char>),
>
    decreases args.len() + 1 - i,
{
    if i < 0 || i >= args.len() {
        Some((seed, path))
    } else if args[i] == "--seed"@ {
        match number_at(args, i + 1, u64::MAX as nat) {
            Some(v) => run_args(args, i + 2, v as u64, path),
            None => None,
        }
    } else {
        run_args(args, i + 1, seed, args[i])
    }
}

/// Reads the arguments of `run`.
pub fn parse_run_args(args: &[String]) -> (r: Result<(u64, String), &'static str>)
    ensures
        match r {
            Ok((seed, path)) => run_args(
                words(args@),
                0,
                DEFAULT_SEED,
                "guest/target/aarch64-unknown-none/release/convex-guest"@,
            ) == Some((seed, path@)),
            Err(message) => run_args(
                words(args@),
                0,
                DEFAULT_SEED,
                "guest/target/aarch64-unknown-none/release/convex-guest"@,
            ) is None && message@ == "--seed requires a u64 value"@,
        },
{
    let ghost all = words(args@);
    let n: usize = args.len();
    let mut seed: u64 = DEFAULT_SEED;
    let mut guest_path = String::from_str("guest/target/aarch64-unknown-none/release/convex-guest");
    let ghost goal = run_args(all, 0, seed, guest_path@);
    let mut i: usize = 0;
    while i < n
        invariant
            i <= n,
            n == args@.len(),
            all == words(args@),
            run_args(all, i as int, seed, guest_path@) == goal,
            goal == run_args(
                words(args@),
                0,
                DEFAULT_SEED,
                "guest/target/aarch64-unknown-none/release/convex-guest"@,
            ),
        decreases n - i,
    {
        proof {
            reveal_with_fuel(run_args, 2);
        }
        if is_word(&args[i], "--seed") {
            match value_number(args, i + 1, u64::MAX) {
                Some(v) => {
                    seed = v;
                },
                None => {
                    return Err("--seed requires a u64 value");
                },
            }
            i = advance(i, 2, n);
        } else {
            guest_path = copy(&args[i]);
            i = advance(i, 1, n);
        }
    }
    Ok((seed, guest_path))
}

/// The arguments of `fork` from index `i` on: seed, code and template
/// directory. A `--seed` without a number stands for the default seed.
pub open spec fn fork_args(
    args: Seq<Seq<char>>,
    i: int,
    seed: u64,
    js: Seq<char>,
    dir: Seq<char>,
) -> (u64, Seq<char>, Seq<char>)
    decreases args.len() + 1 - i,
{
    if i < 0 || i >= args.len() {
        (seed, js, dir)
    } else if args[i] == "--seed"@ {
        let v = match number_at(args, i + 1, u64::MAX as nat) {
            Some(v) => v as u64,
            None => DEFAULT_SEED,
        };
        fork_args(args, i + 2, v, js, dir)
    } else if args[i] == "--js"@ {
        fork_args(args, i + 2, seed, text_at(args, i + 1), dir)
    } else {
        fork_args(args, i + 1, seed, js, args[i])
    }
}

/// Reads the arguments of `fork`: seed, code and template directory.
pub fn parse_fork_args(args: &[String]) -> (r: (u64, String, String))
    ensures
        (r.0, r.1@, r.2@) == fork_args(words(args@), 0, DEFAULT_SEED, Seq::empty(), Seq::empty()),
{
    proof {
        reveal_strlit("");
    }
    let ghost all = words(args@);
    let n: usize = args.len();
    let mut seed: u64 = DEFAULT_SEED;
    let mut js_code = String::from_str("");
    let mut template_dir = String::from_str("");
    assert(js_code@ =~= Seq::<char>::empty());
    let mut i: usize = 0;
    while i < n
        invariant
            i <= n,
            n == args@.len(),
            all == words(args@),
            fork_args(all, i as int, seed, js_code@, template_dir@) == fork_args(
                all,
                0,
                DEFAULT_SEED,
                Seq::empty(),
                Seq::empty(),
            ),
        decreases n - i,
    {
        proof {
            reveal_with_fuel(fork_args, 2);
        }
        if is_word(&args[i], "--seed") {
            seed =
            match value_number(args, i + 1, u64::MAX) {
                Some(v) => v,
                None => DEFAULT_SEED,
            };
            i = advance(i, 2, n);
        } else if is_word(&args[i], "--js") {
            js_code = value_or_empty(args, i + 1);
            i = advance(i, 2, n);
        } else {
            template_dir = copy(&args[i]);
            i = advance(i, 1, n);
        }
    }
    (seed, js_code, template_dir)
}

/// The arguments of `bench` from index `i` on: number of forks, code and
/// template directory. An `--iterations` without a number stands for the
/// default.
pub open spec fn bench_args(
    args: Seq<Seq<char>>,
    i: int,
    iterations: usize,
    js: Seq<char>,
    dir: Seq<char>,
) -> (usize, Seq<char>, Seq<char>)
    decreases args.len() + 1 - i,
{
    if i < 0 || i >= args.len() {
        (iterations, js, dir)
    } else if args[i] == "--iterations"@ {
        let v = match number_at(args, i + 1, usize::MAX as nat) {
            Some(v) => v as usize,
            None => DEFAULT_ITERATIONS,
        };
        bench_args(args, i + 2, v, js, dir)
    } else if args[i] == "--js"@ {
        bench_args(args, i + 2, iterations, text_at(args, i + 1), dir)
    } else {
        bench_args(args, i + 1, iterations, js, args[i])
    }
}

/// Reads the arguments of `bench`: number of forks, code and template
/// directory.
pub fn parse_bench_args(args: &[String]) -> (r: (usize, String, String))
    ensures
        (r.0, r.1@, r.2@) == bench_args(
            words(args@),
            0,
            DEFAULT_ITERATIONS,
            Seq::empty(),
            Seq::empty(),
        ),
{
    proof {
        reveal_strlit("");
    }
    let ghost all = words(args@);
    let n: usize = args.len();
    let mut iterations: usize = DEFAULT_ITERATIONS;
    let mut js_code = String::from_str("");
    let mut template_dir = String::from_str("");
    assert(js_code@ =~= Seq::<char>::empty());
    let mut i: usize = 0;
    while i < n
        invariant
            i <= n,
            n == args@.len(),
            all == words(args@),
            bench_args(all, i as int, iterations, js_code@, template_dir@) == bench_args(
                all,
                0,
                DEFAULT_ITERATIONS,
                Seq::empty(),
                Seq::empty(),
            ),
        decreases n - i,
    {
        proof {
            reveal_with_fuel(bench_args, 2);
        }
        if is_word(&args[i], "--iterations") {
            iterations =
            match value_number(args, i + 1, usize::MAX as u64) {
                Some(v) => v as usize,
                None => DEFAULT_ITERATIONS,
            };
            i = advance(i, 2, n);
        } else if is_word(&args[i], "--js") {
            js_code = value_or_empty(args, i + 1);
            i = advance(i, 2, n);
        } else {
            template_dir = copy(&args[i]);
            i = advance(i, 1, n);
        }
    }
    (iterations, js_code, template_dir)
}

/// The arguments of `boot-linux` from index `i` on: kernel, initrd and quiet.
pub open spec fn boot_linux_args(
    args: Seq<Seq<char>>,
    i: int,
    kernel: Seq<char>,
    initrd: Option<Seq<char>>,
    quiet: bool,
) -> (Seq<char>, Option<Seq<char>>, bool)
    decreases args.len() + 1 - i,
{
    if i < 0 || i >= args.len() {
        (kernel, initrd, quiet)
    } else if args[i] == "--initrd"@ {
        boot_linux_args(args, i + 2, kernel, word_at(args, i + 1), quiet)
    } else if args[i] == "--quiet"@ {
        boot_linux_args(args, i + 1, kernel, initrd, true)
    } else {
        boot_linux_args(args, i + 1, args[i], initrd, quiet)
    }
}

/// Reads the arguments of `boot-linux`: kernel, initrd and quiet.
pub fn parse_boot_linux_args(args: &[String]) -> (r: Result<
    (String, Option<String>, bool),
    &'static str,
>)
    ensures
        ({
            let (kernel, initrd, quiet) = boot_linux_args(
                words(args@),
                0,
                Seq::empty(),
                None,
                false,
            );
            match r {
                Ok((k, i, q)) => kernel.len() > 0 && k@ == kernel && option_view(i) == initrd && q
                    == quiet,
                Err(message) => kernel.len() == 0 && message@
                    == "boot-linux requires a kernel image path"@,
            }
        }),
{
    proof {
        reveal_strlit("");
    }
    let ghost all = words(args@);
    let n: usize = args.len();
    let mut kernel_path = String::from_str("");
    let mut initrd_path: Option<String> = None;
    let mut quiet = false;
    assert(kernel_path@ =~= Seq::<char>::empty());
    let mut i: usize = 0;
    while i < n
        invariant
            i <= n,
            n == args@.len(),
            all == words(args@),
            boot_linux_args(all, i as int, kernel_path@, option_view(initrd_path), quiet)
                == boot_linux_args(all, 0, Seq::empty(), None, false),
        decreases n - i,
    {
        proof {
            reveal_with_fuel(boot_linux_args, 2);
        }
        if is_word(&args[i], "--initrd") {
            initrd_path = value_at(args, i + 1);
            i = advance(i, 2, n);
        } else if is_word(&args[i], "--quiet") {
            quiet = true;
            i = advance(i, 1, n);
        } else {
            kernel_path = copy(&args[i]);
            i = advance(i, 1, n);
        }
    }
    if is_empty(&kernel_path) {
        return Err("boot-linux requires a kernel image path");
    }
    Ok((kernel_path, initrd_path, quiet))
}

/// The arguments of `snapshot-linux` from index `i` on: kernel, initrd,
/// template directory and quiet. The first argument that is no option is the
/// kernel, the last other one the directory.
pub open spec fn snapshot_linux_args(
    args: Seq<Seq<char>>,
    i: int,
    kernel: Seq<char>,
    initrd: Option<Seq<char>>,
    dir: Seq<char>,
    quiet: bool,
) -> (Seq<char>, Option<Seq<char>>, Seq<char>, bool)
    decreases args.len() + 1 - i,
{
    if i < 0 || i >= args.len() {
        (kernel, initrd, dir, quiet)
    } else if args[i] == "--initrd"@ {
        snapshot_linux_args(args, i + 2, kernel, word_at(args, i + 1), dir, quiet)
    } else if args[i] == "--quiet"@ {
        snapshot_linux_args(args, i + 1, kernel, initrd, dir, true)
    } else if kernel.len() == 0 {
        snapshot_linux_args(args, i + 1, args[i], initrd, dir, quiet)
    } else {
        snapshot_linux_args(args, i + 1, kernel, initrd, args[i], quiet)
    }
}

/// Reads the arguments of `snapshot-linux`: kernel, initrd, template directory
/// and quiet.
pub fn parse_snapshot_linux_args(args: &[String]) -> (r: Result<
    (String, Option<String>, String, bool),
    &'static str,
>)
    ensures
        ({
            let (kernel, initrd, dir, quiet) = snapshot_linux_args(
                words(args@),
                0,
                Seq::empty(),
                None,
                Seq::empty(),
                false,
            );
            match r {
                Ok((k, i, d, q)) => kernel.len() > 0 && dir.len() > 0 && k@ == kernel
                    && option_view(i) == initrd && d@ == dir && q == quiet,
                Err(message) => (kernel.len() == 0 || dir.len() == 0) && message@
                    == "snapshot-linux requires: <kernel-image> --initrd <initrd> <template-dir>"@,
            }
        }),
{
    proof {
        reveal_strlit("");
    }
    let ghost all = words(args@);
    let n: usize = args.len();
    let mut kernel_path = String::from_str("");
    let mut initrd_path: Option<String> = None;
    let mut template_dir = String::from_str("");
    let mut quiet = false;
    assert(kernel_path@ =~= Seq::<char>::empty());
    let mut i: usize = 0;
    while i < n
        invariant
            i <= n,
            n == args@.len(),
            all == words(args@),
            snapshot_linux_args(
                all,
                i as int,
                kernel_path@,
                option_view(initrd_path),
                template_dir@,
                quiet,
            ) == snapshot_linux_args(all, 0, Seq::empty(), None, Seq::empty(), false),
        decreases n - i,
    {
        proof {
            reveal_with_fuel(snapshot_linux_args, 2);
        }
        if is_word(&args[i], "--initrd") {
            initrd_path = value_at(args, i + 1);
            i = advance(i, 2, n);
        } else if is_word(&args[i], "--quiet") {
            quiet = true;
            i = advance(i, 1, n);
        } else {
            if is_empty(&kernel_path) {
                kernel_path = copy(&args[i]);
            } else {
                template_dir = copy(&args[i]);
            }
            i = advance(i, 1, n);
        }
    }
    if is_empty(&kernel_path) || is_empty(&template_dir) {
        return Err("snapshot-linux requires: <kernel-image> --initrd <initrd> <template-dir>");
    }
    Ok((kernel_path, initrd_path, template_dir, quiet))
}

/// Where the message of a fork comes from.
pub enum MessageSource {
    /// The text itself.
    Text(String),
    /// The contents of a file.
    File(String),
}

/// A message source as contracts speak of it.
pub enum SourceView {
    Text(Seq<char>),
    File(Seq<char>),
}

/// A message source as contracts speak of it.
pub open spec fn source_view(s: MessageSource) -> SourceView {
    match s {
        MessageSource::Text(t) => SourceView::Text(t@),
        MessageSource::File(p) => SourceView::File(p@),
    }
}

/// Message sources as contracts speak of them.
pub open spec fn sources_view(s: Seq<MessageSource>) -> Seq<SourceView> {
    Seq::new(s.len(), |i: int| source_view(s[i]))
}

/// The arguments of `fork-linux` from index `i` on: every message source in
/// order, and the template directory.
pub open spec fn fork_linux_args(
    args: Seq<Seq<char>>,
    i: int,
    sources: Seq<SourceView>,
    dir: Seq<char>,
) -> (Seq<SourceView>, Seq<char>)
    decreases args.len() + 1 - i,
{
    if i < 0 || i >= args.len() {
        (sources, dir)
    } else if args[i] == "--msg"@ {
        fork_linux_args(args, i + 2, sources.push(SourceView::Text(text_at(args, i + 1))), dir)
    } else if args[i] == "--js-file"@ {
        fork_linux_args(args, i + 2, sources.push(SourceView::File(text_at(args, i + 1))), dir)
    } else {
        fork_linux_args(args, i + 1, sources, args[i])
    }
}

/// Reads the arguments of `fork-linux`: every message source in order, and the
/// template directory. Each file among the sources is read, and the last
/// source gives the message; without one it is empty.
pub fn parse_fork_linux_args(args: &[String]) -> (r: Result<
    (Vec<MessageSource>, String),
    &'static str,
>)
    ensures
        ({
            let (sources, dir) = fork_linux_args(words(args@), 0, Seq::empty(), Seq::empty());
            match r {
                Ok((s, d)) => dir.len() > 0 && sources_view(s@) == sources && d@ == dir,
                Err(message) => dir.len() == 0 && message@
                    == "fork-linux requires: [--msg 'text' | --js-file path] <template-dir>"@,
            }
        }),
{
    proof {
        reveal_strlit("");
    }
    let ghost all = words(args@);
    let n: usize = args.len();
    let mut sources: Vec<MessageSource> = Vec::new();
    let mut template_dir = String::from_str("");
    assert(template_dir@ =~= Seq::<char>::empty());
    assert(sources_view(sources@) =~= Seq::<SourceView>::empty());
    let mut i: usize = 0;
    while i < n
        invariant
            i <= n,
            n == args@.len(),
            all == words(args@),
            fork_linux_args(all, i as int, sources_view(sources@), template_dir@)
                == fork_linux_args(all, 0, Seq::empty(), Seq::empty()),
        decreases n - i,
    {
        proof {
            reveal_with_fuel(fork_linux_args, 2);
        }
        let ghost before = sources_view(sources@);
        if is_word(&args[i], "--msg") {
            sources.push(MessageSource::Text(value_or_empty(args, i + 1)));
            assert(sources_view(sources@) =~= before.push(
                SourceView::Text(text_at(all, i + 1)),
            ));
            i = advance(i, 2, n);
        } else if is_word(&args[i], "--js-file") {
            sources.push(MessageSource::File(value_or_empty(args, i + 1)));
            assert(sources_view(sources@) =~= before.push(
                SourceView::File(text_at(all, i + 1)),
            ));
            i = advance(i, 2, n);
        } else {
            template_dir = copy(&args[i]);
            i = advance(i, 1, n);
        }
    }
    if is_empty(&template_dir) {
        return Err("fork-linux requires: [--msg 'text' | --js-file path] <template-dir>");
    }
    Ok((sources, template_dir))
}

/// A command.
#[derive(Clone, Copy, Debug, PartialEq, Eq, Structural)]
pub enum CommandName {
    BootLinux,
    SnapshotLinux,
    ForkLinux,
    ServeLinux,
    Run,
    Snapshot,
    Fork,
    Bench,
}

/// The command that `word` names. Those of the bare-metal guest exist only
/// where `bare_metal` holds.
pub open spec fn command_of(word: Seq<char>, bare_metal: bool) -> Option<CommandName> {
    if word == "boot-linux"@ {
        Some(CommandName::BootLinux)
    } else if word == "snapshot-linux"@ {
        Some(CommandName::SnapshotLinux)
    } else if word == "fork-linux"@ {
        Some(CommandName::ForkLinux)
    } else if word == "serve-linux"@ {
        Some(CommandName::ServeLinux)
    } else if bare_metal && word == "run"@ {
        Some(CommandName::Run)
    } else if bare_metal && word == "snapshot"@ {
        Some(CommandName::Snapshot)
    } else if bare_metal && word == "fork"@ {
        Some(CommandName::Fork)
    } else if bare_metal && word == "bench"@ {
        Some(CommandName::Bench)
    } else {
        None
    }
}

/// The command that `word` names.
pub fn parse_command(word: &String, bare_metal: bool) -> (r: Option<CommandName>)
    ensures
        r == command_of(word@, bare_metal),
{
    if is_word(word, "boot-linux") {
        Some(CommandName::BootLinux)
    } else if is_word(word, "snapshot-linux") {
        Some(CommandName::SnapshotLinux)
    } else if is_word(word, "fork-linux") {
        Some(CommandName::ForkLinux)
    } else if is_word(word, "serve-linux") {
        Some(CommandName::ServeLinux)
    } else if bare_metal && is_word(word, "run") {
        Some(CommandName::Run)
    } else if bare_metal && is_word(word, "snapshot") {
        Some(CommandName::Snapshot)
    } else if bare_metal && is_word(word, "fork") {
        Some(CommandName::Fork)
    } else if bare_metal && is_word(word, "bench") {
        Some(CommandName::Bench)
    } else {
        None
    }
}

/// Reads the arguments of `snapshot`: guest ELF and template directory.
pub fn parse_snapshot_args(args: &[String]) -> (r: Result<(String, String), &'static str>)
    ensures
        match r {
            Ok((guest, dir)) => args@.len() >= 2 && guest@ == args@[0]@ && dir@ == args@[1]@,
            Err(message) => if args@.len() == 0 {
                message@ == "missing guest ELF path"@
            } else {
                args@.len() == 1 && message@ == "missing template dir"@
            },
        },
{
    if args.len() == 0 {
        return Err("missing guest ELF path");
    }
    if args.len() == 1 {
        return Err("missing template dir");
    }
    Ok((copy(&args[0]), copy(&args[1])))
}

/// Reads the arguments of `serve-linux`: the template directory.
pub fn parse_serve_linux_args(args: &[String]) -> (r: Result<String, &'static str>)
    ensures
        match r {
            Ok(dir) => args@.len() >= 1 && dir@ == args@[0]@,
            Err(message) => args@.len() == 0 && message@ == "missing template dir"@,
        },
{
    if args.len() == 0 {
        return Err("missing template dir");
    }
    Ok(copy(&args[0]))
}

// Laws

/// A seed written in decimal behind `--seed` is the seed of the run, wherever
/// the option stands.
pub proof fn law_seed_option(seed: u64, path: Seq<char>)
    requires
        path != "--seed"@,
    ensures
        run_args(seq!["--seed"@, text::decimal(seed as nat), path], 0, DEFAULT_SEED, Seq::empty())
            == Some((seed, path)),
        run_args(seq![path, "--seed"@, text::decimal(seed as nat)], 0, DEFAULT_SEED, Seq::empty())
            == Some((seed, path)),
{
    text::law_number_round_trip(seed as nat, 10, u64::MAX as nat);
    reveal_with_fuel(run_args, 4);
}

/// What stands behind the last argument of `fork-linux` can be left out: a
/// trailing `--msg` gives an empty message.
pub proof fn law_trailing_message(args: Seq<Seq<char>>, i: int, sources: Seq<SourceView>, dir: Seq<
    char,
>)
    requires
        0 <= i,
        args.len() == i + 1,
        args[i] == "--msg"@,
    ensures
        fork_linux_args(args, i, sources, dir) == (
            sources.push(SourceView::Text(Seq::empty())),
            dir,
        ),
{
    reveal_with_fuel(fork_linux_args, 2);
}

/// Bare-metal commands are unknown where there is no bare-metal guest, and no
/// other command is affected.
pub proof fn law_bare_metal_commands(word: Seq<char>)
    ensures
        command_of(word, false) is Some ==> command_of(word, true) == command_of(word, false),
        command_of("run"@, false) is None,
        command_of("run"@, true) == Some(CommandName::Run),
{
    reveal_strlit("run");
    reveal_strlit("boot-linux");
    reveal_strlit("snapshot-linux");
    reveal_strlit("fork-linux");
    reveal_strlit("serve-linux");
    assert("run"@.len() == 3);
    assert("boot-linux"@.len() == 10);
    assert("snapshot-linux"@.len() == 14);
    assert("fork-linux"@.len() == 10);
    assert("serve-linux"@.len() == 11);
}

/// The options of `run`: without a seed it is 42, of two the last counts, and a
/// `--seed` that is followed by no number, or by nothing, is an error. The last
/// other argument is the guest.
pub proof fn law_run_options(a: u64, b: u64, path: Seq<char>, other: Seq<char>, bad: Seq<char>)
    requires
        path != "--seed"@,
        other != "--seed"@,
        text::parse_spec(bad, 10, u64::MAX as nat) is None,
    ensures
        run_args(Seq::empty(), 0, DEFAULT_SEED, path) == Some((42u64, path)),
        run_args(seq![path], 0, DEFAULT_SEED, Seq::empty()) == Some((42u64, path)),
        run_args(seq![other, path], 0, DEFAULT_SEED, Seq::empty()) == Some((42u64, path)),
        run_args(
            seq!["--seed"@, text::decimal(a as nat), "--seed"@, text::decimal(b as nat), path],
            0,
            DEFAULT_SEED,
            Seq::empty(),
        ) == Some((b, path)),
        run_args(seq![path, "--seed"@], 0, DEFAULT_SEED, Seq::empty()) is None,
        run_args(seq!["--seed"@, bad, path], 0, DEFAULT_SEED, Seq::empty()) is None,
{
    text::law_number_round_trip(a as nat, 10, u64::MAX as nat);
    text::law_number_round_trip(b as nat, 10, u64::MAX as nat);
    reveal_with_fuel(run_args, 5);
}

/// The options of `fork` stand in any order: the number behind `--seed` is the
/// seed, what is behind `--js` the code, whatever it looks like, and the other
/// argument the directory. Without options the seed is 42 and there is no code.
pub proof fn law_fork_options(seed: u64, js: Seq<char>, dir: Seq<char>)
    requires
        dir != "--seed"@,
        dir != "--js"@,
    ensures
        fork_args(seq!["--seed"@, text::decimal(seed as nat), "--js"@, js, dir], 0, 42, Seq::empty(), Seq::empty()) == (seed, js, dir),
        fork_args(seq!["--seed"@, text::decimal(seed as nat), dir, "--js"@, js], 0, 42, Seq::empty(), Seq::empty()) == (seed, js, dir),
        fork_args(seq!["--js"@, js, "--seed"@, text::decimal(seed as nat), dir], 0, 42, Seq::empty(), Seq::empty()) == (seed, js, dir),
        fork_args(seq!["--js"@, js, dir, "--seed"@, text::decimal(seed as nat)], 0, 42, Seq::empty(), Seq::empty()) == (seed, js, dir),
        fork_args(seq![dir, "--seed"@, text::decimal(seed as nat), "--js"@, js], 0, 42, Seq::empty(), Seq::empty()) == (seed, js, dir),
        fork_args(seq![dir, "--js"@, js, "--seed"@, text::decimal(seed as nat)], 0, 42, Seq::empty(), Seq::empty()) == (seed, js, dir),
        fork_args(seq![dir], 0, DEFAULT_SEED, Seq::empty(), Seq::empty()) == (
            42u64,
            Seq::<char>::empty(),
            dir,
        ),
        fork_args(seq![dir, "--seed"@], 0, 7, js, Seq::empty()) == (42u64, js, dir),
        fork_args(seq![dir, "--js"@], 0, seed, js, Seq::empty()) == (
            seed,
            Seq::<char>::empty(),
            dir,
        ),
{
    text::law_number_round_trip(seed as nat, 10, u64::MAX as nat);
    lemma_option_words();
    reveal_with_fuel(fork_args, 5);
}

/// The options of `bench` stand in any order, as those of `fork` do. Without a
/// number there are 1000 iterations.
pub proof fn law_bench_options(iterations: usize, js: Seq<char>, dir: Seq<char>)
    requires
        dir != "--iterations"@,
        dir != "--js"@,
    ensures
        bench_args(seq!["--iterations"@, text::decimal(iterations as nat), "--js"@, js, dir], 0, 1000, Seq::empty(), Seq::empty()) == (iterations, js, dir),
        bench_args(seq!["--iterations"@, text::decimal(iterations as nat), dir, "--js"@, js], 0, 1000, Seq::empty(), Seq::empty()) == (iterations, js, dir),
        bench_args(seq!["--js"@, js, "--iterations"@, text::decimal(iterations as nat), dir], 0, 1000, Seq::empty(), Seq::empty()) == (iterations, js, dir),
        bench_args(seq!["--js"@, js, dir, "--iterations"@, text::decimal(iterations as nat)], 0, 1000, Seq::empty(), Seq::empty()) == (iterations, js, dir),
        bench_args(seq![dir, "--iterations"@, text::decimal(iterations as nat), "--js"@, js], 0, 1000, Seq::empty(), Seq::empty()) == (iterations, js, dir),
        bench_args(seq![dir, "--js"@, js, "--iterations"@, text::decimal(iterations as nat)], 0, 1000, Seq::empty(), Seq::empty()) == (iterations, js, dir),
        bench_args(seq![dir], 0, DEFAULT_ITERATIONS, Seq::empty(), Seq::empty()) == (
            1000usize,
            Seq::<char>::empty(),
            dir,
        ),
        bench_args(seq![dir, "--iterations"@], 0, 7, js, Seq::empty()) == (1000usize, js, dir),
{
    text::law_number_round_trip(iterations as nat, 10, usize::MAX as nat);
    lemma_option_words();
    reveal_with_fuel(bench_args, 5);
}

/// The options of `boot-linux` stand in any order: what is behind `--initrd` is
/// the initramfs, `--quiet` is quiet, and the other argument the kernel.
pub proof fn law_boot_linux_options(kernel: Seq<char>, initrd: Seq<char>)
    requires
        kernel != "--initrd"@,
        kernel != "--quiet"@,
    ensures
        boot_linux_args(seq!["--initrd"@, initrd, "--quiet"@, kernel], 0, Seq::empty(), None, false) == (kernel, Some(initrd), true),
        boot_linux_args(seq!["--initrd"@, initrd, kernel, "--quiet"@], 0, Seq::empty(), None, false) == (kernel, Some(initrd), true),
        boot_linux_args(seq!["--quiet"@, "--initrd"@, initrd, kernel], 0, Seq::empty(), None, false) == (kernel, Some(initrd), true),
        boot_linux_args(seq!["--quiet"@, kernel, "--initrd"@, initrd], 0, Seq::empty(), None, false) == (kernel, Some(initrd), true),
        boot_linux_args(seq![kernel, "--initrd"@, initrd, "--quiet"@], 0, Seq::empty(), None, false) == (kernel, Some(initrd), true),
        boot_linux_args(seq![kernel, "--quiet"@, "--initrd"@, initrd], 0, Seq::empty(), None, false) == (kernel, Some(initrd), true),
        boot_linux_args(seq![kernel], 0, Seq::empty(), None, false) == (
            kernel,
            None::<Seq<char>>,
            false,
        ),
{
    lemma_option_words();
    reveal_with_fuel(boot_linux_args, 5);
}

/// The options of `snapshot-linux` stand anywhere: the first other argument is
/// the kernel and the next the template directory.
pub proof fn law_snapshot_linux_options(kernel: Seq<char>, initrd: Seq<char>, dir: Seq<char>)
    requires
        kernel.len() > 0,
        kernel != "--initrd"@,
        kernel != "--quiet"@,
        dir != "--initrd"@,
        dir != "--quiet"@,
    ensures
        snapshot_linux_args(seq!["--initrd"@, initrd, "--quiet"@, kernel, dir], 0, Seq::empty(), None, Seq::empty(), false) == (kernel, Some(initrd), dir, true),
        snapshot_linux_args(seq!["--initrd"@, initrd, kernel, "--quiet"@, dir], 0, Seq::empty(), None, Seq::empty(), false) == (kernel, Some(initrd), dir, true),
        snapshot_linux_args(seq!["--initrd"@, initrd, kernel, dir, "--quiet"@], 0, Seq::empty(), None, Seq::empty(), false) == (kernel, Some(initrd), dir, true),
        snapshot_linux_args(seq!["--quiet"@, "--initrd"@, initrd, kernel, dir], 0, Seq::empty(), None, Seq::empty(), false) == (kernel, Some(initrd), dir, true),
        snapshot_linux_args(seq!["--quiet"@, kernel, "--initrd"@, initrd, dir], 0, Seq::empty(), None, Seq::empty(), false) == (kernel, Some(initrd), dir, true),
        snapshot_linux_args(seq!["--quiet"@, kernel, dir, "--initrd"@, initrd], 0, Seq::empty(), None, Seq::empty(), false) == (kernel, Some(initrd), dir, true),
        snapshot_linux_args(seq![kernel, "--initrd"@, initrd, "--quiet"@, dir], 0, Seq::empty(), None, Seq::empty(), false) == (kernel, Some(initrd), dir, true),
        snapshot_linux_args(seq![kernel, "--initrd"@, initrd, dir, "--quiet"@], 0, Seq::empty(), None, Seq::empty(), false) == (kernel, Some(initrd), dir, true),
        snapshot_linux_args(seq![kernel, "--quiet"@, "--initrd"@, initrd, dir], 0, Seq::empty(), None, Seq::empty(), false) == (kernel, Some(initrd), dir, true),
        snapshot_linux_args(seq![kernel, "--quiet"@, dir, "--initrd"@, initrd], 0, Seq::empty(), None, Seq::empty(), false) == (kernel, Some(initrd), dir, true),
        snapshot_linux_args(seq![kernel, dir, "--initrd"@, initrd, "--quiet"@], 0, Seq::empty(), None, Seq::empty(), false) == (kernel, Some(initrd), dir, true),
        snapshot_linux_args(seq![kernel, dir, "--quiet"@, "--initrd"@, initrd], 0, Seq::empty(), None, Seq::empty(), false) == (kernel, Some(initrd), dir, true),
        snapshot_linux_args(seq![kernel, dir], 0, Seq::empty(), None, Seq::empty(), false) == (
            kernel,
            None::<Seq<char>>,
            dir,
            false,
        ),
{
    lemma_option_words();
    reveal_with_fuel(snapshot_linux_args, 6);
}

/// The messages of `fork-linux` are taken in order, as text or as the name of a
/// file, wherever the template directory stands between them.
pub proof fn law_fork_linux_options(a: Seq<char>, b: Seq<char>, dir: Seq<char>)
    requires
        dir != "--msg"@,
        dir != "--js-file"@,
    ensures
        ({
            let both = seq![SourceView::Text(a), SourceView::File(b)];
            let none = Seq::<SourceView>::empty();
            &&& fork_linux_args(
                seq!["--msg"@, a, "--js-file"@, b, dir],
                0,
                none,
                Seq::empty(),
            ) == (both, dir)
            &&& fork_linux_args(
                seq!["--msg"@, a, dir, "--js-file"@, b],
                0,
                none,
                Seq::empty(),
            ) == (both, dir)
            &&& fork_linux_args(
                seq![dir, "--msg"@, a, "--js-file"@, b],
                0,
                none,
                Seq::empty(),
            ) == (both, dir)
            &&& fork_linux_args(
                seq!["--js-file"@, b, "--msg"@, a, dir],
                0,
                none,
                Seq::empty(),
            ) == (seq![SourceView::File(b), SourceView::Text(a)], dir)
            &&& fork_linux_args(seq![dir], 0, none, Seq::empty()) == (none, dir)
        }),
{
    lemma_option_words();
    reveal_with_fuel(fork_linux_args, 5);
    let none = Seq::<SourceView>::empty();
    assert(none.push(SourceView::Text(a)).push(SourceView::File(b)) =~= seq![
        SourceView::Text(a),
        SourceView::File(b),
    ]);
    assert(none.push(SourceView::File(b)).push(SourceView::Text(a)) =~= seq![
        SourceView::File(b),
        SourceView::Text(a),
    ]);
}

/// The options differ.
proof fn lemma_option_words()
    ensures
        "--seed"@ != "--js"@,
        "--iterations"@ != "--js"@,
        "--initrd"@ != "--quiet"@,
        "--msg"@ != "--js-file"@,
{
    reveal_strlit("--seed");
    reveal_strlit("--js");
    reveal_strlit("--iterations");
    reveal_strlit("--initrd");
    reveal_strlit("--quiet");
    reveal_strlit("--msg");
    reveal_strlit("--js-file");
    assert("--seed"@.len() == 6);
    assert("--js"@.len() == 4);
    assert("--iterations"@.len() == 12);
    assert("--initrd"@.len() == 8);
    assert("--quiet"@.len() == 7);
    assert("--msg"@.len() == 5);
    assert("--js-file"@.len() == 9);
}

/// Every command has one name, and no other word is a command.
pub proof fn law_commands_by_name(word: Seq<char>)
    ensures
        ({
            let c = command_of(word, true);
            &&& c == Some(CommandName::BootLinux) <==> word == "boot-linux"@
            &&& c == Some(CommandName::SnapshotLinux) <==> word == "snapshot-linux"@
            &&& c == Some(CommandName::ForkLinux) <==> word == "fork-linux"@
            &&& c == Some(CommandName::ServeLinux) <==> word == "serve-linux"@
            &&& c == Some(CommandName::Run) <==> word == "run"@
            &&& c == Some(CommandName::Snapshot) <==> word == "snapshot"@
            &&& c == Some(CommandName::Fork) <==> word == "fork"@
            &&& c == Some(CommandName::Bench) <==> word == "bench"@
        }),
        command_of(word, false) is Some <==> (word == "boot-linux"@ || word == "snapshot-linux"@
            || word == "fork-linux"@ || word == "serve-linux"@),
{
    reveal_strlit("boot-linux");
    reveal_strlit("snapshot-linux");
    reveal_strlit("fork-linux");
    reveal_strlit("serve-linux");
    reveal_strlit("run");
    reveal_strlit("snapshot");
    reveal_strlit("fork");
    reveal_strlit("bench");
    assert("boot-linux"@.len() == 10 && "fork-linux"@.len() == 10);
    assert("boot-linux"@[0] != "fork-linux"@[0]);
    assert("snapshot-linux"@.len() == 14);
    assert("serve-linux"@.len() == 11);
    assert("run"@.len() == 3);
    assert("snapshot"@.len() == 8);
    assert("fork"@.len() == 4);
    assert("bench"@.len() == 5);
}

} // verus!
