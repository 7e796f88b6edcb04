//! What the JS runners of the Linux guest print.

use crate::bytes;
use crate::layout::RUNNER_MAILBOX_SIZE;
use vstd::prelude::*;

verus! {

/// Text for the runner's standard output and standard error, and its exit
/// code.
pub struct RunnerOutput {
    pub stdout: String,
    pub stderr: String,
    pub exit_code: i32,
}

/// Output of a runner as contracts speak of it.
pub struct OutputView {
    pub stdout: Seq<char>,
    pub stderr: Seq<char>,
    pub exit_code: i32,
}

impl View for RunnerOutput {
    type V = OutputView;

    open spec fn view(&self) -> OutputView {
        OutputView { stdout: self.stdout@, stderr: self.stderr@, exit_code: self.exit_code }
    }
}

/// The line that shows a value: none for `undefined`.
pub open spec fn value_line(shown: Seq<char>) -> Seq<char> {
    if shown == "undefined"@ {
        Seq::empty()
    } else {
        shown + "\n"@
    }
}

/// The line that shows a value: none for `undefined`.
fn show_value(shown: &String) -> (line: String)
    ensures
        line@ == value_line(shown@),
{
    let undefined = String::from_str("undefined");
    if *shown == undefined {
        empty()
    } else {
        String::from_str(shown.as_str()).concat("\n")
    }
}

/// No text.
fn empty() -> (s: String)
    ensures
        s@ == Seq::<char>::empty(),
{
    proof {
        reveal_strlit("");
    }
    let s = String::from_str("");
    assert(s@ =~= Seq::<char>::empty());
    s
}

/// How the Boa runner's one evaluation went.
pub enum BoaEvent {
    /// Nothing came in on standard input.
    NoInput,
    /// The value of the script, as text.
    Value(String),
    /// The error of the script, as text.
    Error(String),
}

/// What the Boa runner prints. An error goes to the host and to the debug log,
/// and is no failure of the runner.
pub open spec fn boa_view(event: BoaEvent) -> OutputView {
    match event {
        BoaEvent::NoInput => OutputView {
            stdout: "[runner-js] no JS received on stdin\n"@,
            stderr: "[runner-js] no JS received on stdin\n"@,
            exit_code: 1,
        },
        BoaEvent::Value(shown) => OutputView {
            stdout: value_line(shown@),
            stderr: Seq::empty(),
            exit_code: 0,
        },
        BoaEvent::Error(e) => OutputView {
            stdout: "[runner-js] error: "@ + e@ + "\n"@,
            stderr: "[runner-js] error: "@ + e@ + "\n"@,
            exit_code: 0,
        },
    }
}

/// What the Boa runner prints.
pub fn boa_output(event: &BoaEvent) -> (out: RunnerOutput)
    ensures
        out@ == boa_view(*event),
{
    match event {
        BoaEvent::NoInput => RunnerOutput {
            stdout: String::from_str("[runner-js] no JS received on stdin\n"),
            stderr: String::from_str("[runner-js] no JS received on stdin\n"),
            exit_code: 1,
        },
        BoaEvent::Value(shown) => RunnerOutput {
            stdout: show_value(shown),
            stderr: empty(),
            exit_code: 0,
        },
        BoaEvent::Error(e) => RunnerOutput {
            stdout: String::from_str("[runner-js] error: ").concat(e.as_str()).concat("\n"),
            stderr: String::from_str("[runner-js] error: ").concat(e.as_str()).concat("\n"),
            exit_code: 0,
        },
    }
}

/// How the V8 runner's one evaluation went.
pub enum V8Event {
    CompileFailed,
    /// The script raised an exception.
    RunFailed,
    /// The value of the script, as text.
    Value(String),
}

/// What the V8 runner prints.
pub open spec fn v8_view(event: V8Event) -> OutputView {
    match event {
        V8Event::CompileFailed => OutputView {
            stdout: Seq::empty(),
            stderr: "[runner-v8] compile failed\n"@,
            exit_code: 0,
        },
        V8Event::RunFailed => OutputView {
            stdout: Seq::empty(),
            stderr: "[runner-v8] eval returned None\n"@,
            exit_code: 0,
        },
        V8Event::Value(shown) => OutputView {
            stdout: value_line(shown@),
            stderr: Seq::empty(),
            exit_code: 0,
        },
    }
}

/// What the V8 runner prints.
pub fn v8_output(event: &V8Event) -> (out: RunnerOutput)
    ensures
        out@ == v8_view(*event),
{
    match event {
        V8Event::CompileFailed => RunnerOutput {
            stdout: empty(),
            stderr: String::from_str("[runner-v8] compile failed\n"),
            exit_code: 0,
        },
        V8Event::RunFailed => RunnerOutput {
            stdout: empty(),
            stderr: String::from_str("[runner-v8] eval returned None\n"),
            exit_code: 0,
        },
        V8Event::Value(shown) => RunnerOutput {
            stdout: show_value(shown),
            stderr: empty(),
            exit_code: 0,
        },
    }
}

/// The code in the V8 runner's mailbox: the string at its start.
pub fn read_mailbox_str(mailbox: &[u8]) -> (code: Vec<u8>)
    requires
        mailbox@.len() == RUNNER_MAILBOX_SIZE,
    ensures
        code@ == bytes::until_nul(mailbox@),
{
    let n: usize = bytes::nul_len(mailbox, 0, RUNNER_MAILBOX_SIZE);
    assert(mailbox@.subrange(0, RUNNER_MAILBOX_SIZE as int) =~= mailbox@);
    vstd::slice::slice_to_vec(vstd::slice::slice_subrange(mailbox, 0, n))
}

// Laws

/// Both engines show the same value in the same way, and show `undefined` by
/// nothing at all.
pub proof fn law_engines_show_values_alike(boa: String, v8: String)
    requires
        boa@ == v8@,
    ensures
        boa_view(BoaEvent::Value(boa)) == v8_view(V8Event::Value(v8)),
        boa_view(BoaEvent::Value(boa)).stdout.len() == 0 <==> boa@ == "undefined"@,
{
    reveal_strlit("\n");
}

/// Code written to the mailbox with a NUL behind it reads back as itself.
pub proof fn law_runner_mailbox_round_trip(mailbox: Seq<u8>, code: Seq<u8>)
    requires
        mailbox.len() == RUNNER_MAILBOX_SIZE,
        code.len() < RUNNER_MAILBOX_SIZE,
        bytes::nul_free(code),
    ensures
        bytes::until_nul(bytes::overlay(mailbox, 0, code.push(0))) == code,
{
    let m = bytes::overlay(mailbox, 0, code.push(0));
    assert forall|i: int| 0 <= i < code.len() implies m[i] != 0 by {
        assert(m[i] == code[i]);
    }
    bytes::lemma_until_nul(m, code.len() as int);
    assert(m.take(code.len() as int) =~= code);
}

/// What reaches the host of a value: its text on a line of its own, and nothing
/// of `undefined`. Showing a value is a success and says nothing on the debug
/// log.
pub proof fn law_values_are_shown(boa: String, v8: String)
    ensures
        boa@ != "undefined"@ ==> boa_view(BoaEvent::Value(boa)).stdout == boa@ + seq!['\n'],
        boa@ == "undefined"@ ==> boa_view(BoaEvent::Value(boa)).stdout.len() == 0,
        v8@ != "undefined"@ ==> v8_view(V8Event::Value(v8)).stdout == v8@ + seq!['\n'],
        v8@ == "undefined"@ ==> v8_view(V8Event::Value(v8)).stdout.len() == 0,
        boa_view(BoaEvent::Value(boa)).exit_code == 0,
        boa_view(BoaEvent::Value(boa)).stderr.len() == 0,
        v8_view(V8Event::Value(v8)).exit_code == 0,
        v8_view(V8Event::Value(v8)).stderr.len() == 0,
{
    reveal_strlit("\n");
    assert("\n"@ =~= seq!['\n']);
}

/// What reaches the host of a failure: the Boa runner says the error's text and
/// says the same on the debug log, without failing itself; without any code it
/// fails. The V8 runner says nothing to the host, only on the debug log.
pub proof fn law_failures_are_reported(error: String)
    ensures
        ({
            let e = boa_view(BoaEvent::Error(error));
            let none = boa_view(BoaEvent::NoInput);
            &&& e.stdout == "[runner-js] error: "@ + error@ + seq!['\n']
            &&& e.stderr == e.stdout
            &&& e.exit_code == 0
            &&& none.stdout == none.stderr && none.stdout.len() > 0
            &&& none.stdout.last() == '\n'
            &&& none.exit_code == 1
        }),
        v8_view(V8Event::CompileFailed).stdout.len() == 0,
        v8_view(V8Event::RunFailed).stdout.len() == 0,
        v8_view(V8Event::CompileFailed).stderr == "[runner-v8] compile failed\n"@,
        v8_view(V8Event::RunFailed).stderr == "[runner-v8] eval returned None\n"@,
        v8_view(V8Event::CompileFailed).exit_code == 0,
        v8_view(V8Event::RunFailed).exit_code == 0,
{
    reveal_strlit("\n");
    reveal_strlit("[runner-js] no JS received on stdin\n");
    assert("\n"@ =~= seq!['\n']);
}

} // verus!
