use laplace::cli::{
    parse_bench_args, parse_boot_linux_args, parse_command, parse_fork_args,
    parse_fork_linux_args, parse_run_args, parse_serve_linux_args, parse_snapshot_args,
    parse_snapshot_linux_args, CommandName, MessageSource,
};

fn args(words: &[&str]) -> Vec<String> {
    words.iter().map(|w| w.to_string()).collect()
}

#[test]
fn run_arguments() {
    assert_eq!(
        parse_run_args(&args(&[])),
        Ok((42, String::from("guest/target/aarch64-unknown-none/release/convex-guest")))
    );
    assert_eq!(parse_run_args(&args(&["--seed", "7", "g.elf"])), Ok((7, String::from("g.elf"))));
    assert_eq!(
        parse_run_args(&args(&["a", "--seed", "+18446744073709551615", "b"])),
        Ok((u64::MAX, String::from("b")))
    );
    assert_eq!(parse_run_args(&args(&["--seed"])), Err("--seed requires a u64 value"));
    assert_eq!(parse_run_args(&args(&["--seed", "-1"])), Err("--seed requires a u64 value"));
    assert_eq!(
        parse_run_args(&args(&["--seed", "18446744073709551616"])),
        Err("--seed requires a u64 value")
    );
    assert_eq!(parse_run_args(&args(&["--seed", ""])), Err("--seed requires a u64 value"));
}

#[test]
fn fork_arguments() {
    let (seed, js, dir) = parse_fork_args(&args(&["--seed", "5", "--js", "1+1", "/t"]));
    assert_eq!((seed, js.as_str(), dir.as_str()), (5, "1+1", "/t"));
    let (seed, js, dir) = parse_fork_args(&args(&["/t", "--seed", "x", "--js"]));
    assert_eq!((seed, js.as_str(), dir.as_str()), (42, "", "/t"));
    let (seed, js, dir) = parse_fork_args(&args(&["--js", "a", "--js", "b"]));
    assert_eq!((seed, js.as_str(), dir.as_str()), (42, "b", ""));
}

#[test]
fn bench_arguments() {
    let (n, js, dir) = parse_bench_args(&args(&["--iterations", "10", "--js", "x", "/t"]));
    assert_eq!((n, js.as_str(), dir.as_str()), (10, "x", "/t"));
    let (n, js, dir) = parse_bench_args(&args(&["/t", "--iterations"]));
    assert_eq!((n, js.as_str(), dir.as_str()), (1000, "", "/t"));
}

#[test]
fn boot_linux_arguments() {
    assert_eq!(
        parse_boot_linux_args(&args(&["Image", "--initrd", "i.gz", "--quiet"])),
        Ok((String::from("Image"), Some(String::from("i.gz")), true))
    );
    assert_eq!(
        parse_boot_linux_args(&args(&["--quiet", "Image", "--initrd"])),
        Ok((String::from("Image"), None, true))
    );
    assert_eq!(
        parse_boot_linux_args(&args(&["--quiet"])),
        Err("boot-linux requires a kernel image path")
    );
    assert_eq!(
        parse_boot_linux_args(&args(&[""])),
        Err("boot-linux requires a kernel image path")
    );
}

#[test]
fn snapshot_linux_arguments() {
    assert_eq!(
        parse_snapshot_linux_args(&args(&["Image", "--initrd", "i", "--quiet", "/t"])),
        Ok((String::from("Image"), Some(String::from("i")), String::from("/t"), true))
    );
    assert_eq!(
        parse_snapshot_linux_args(&args(&["Image", "/a", "/b"])),
        Ok((String::from("Image"), None, String::from("/b"), false))
    );
    let error = "snapshot-linux requires: <kernel-image> --initrd <initrd> <template-dir>";
    assert_eq!(parse_snapshot_linux_args(&args(&["Image"])), Err(error));
    assert_eq!(parse_snapshot_linux_args(&args(&[])), Err(error));
}

fn show(sources: &[MessageSource]) -> Vec<String> {
    sources
        .iter()
        .map(|s| match s {
            MessageSource::Text(t) => format!("text {}", t),
            MessageSource::File(p) => format!("file {}", p),
        })
        .collect()
}

#[test]
fn fork_linux_arguments() {
    let (sources, dir) =
        parse_fork_linux_args(&args(&["--msg", "a", "/t", "--js-file", "x.js"])).unwrap();
    assert_eq!(show(&sources), ["text a", "file x.js"]);
    assert_eq!(dir, "/t");
    let (sources, dir) = parse_fork_linux_args(&args(&["/t", "--msg"])).unwrap();
    assert_eq!(show(&sources), ["text "]);
    assert_eq!(dir, "/t");
    assert!(
        matches!(
            parse_fork_linux_args(&args(&["--msg", "a"])),
            Err("fork-linux requires: [--msg 'text' | --js-file path] <template-dir>")
        )
    );
}

#[test]
fn commands_have_names() {
    let name = |w: &str, bare: bool| parse_command(&String::from(w), bare);
    assert_eq!(name("boot-linux", false), Some(CommandName::BootLinux));
    assert_eq!(name("snapshot-linux", false), Some(CommandName::SnapshotLinux));
    assert_eq!(name("fork-linux", true), Some(CommandName::ForkLinux));
    assert_eq!(name("serve-linux", true), Some(CommandName::ServeLinux));
    assert_eq!(name("run", true), Some(CommandName::Run));
    assert_eq!(name("run", false), None);
    assert_eq!(name("snapshot", true), Some(CommandName::Snapshot));
    assert_eq!(name("fork", true), Some(CommandName::Fork));
    assert_eq!(name("bench", true), Some(CommandName::Bench));
    assert_eq!(name("bench", false), None);
    assert_eq!(name("", true), None);
}

#[test]
fn positional_arguments_are_demanded() {
    assert_eq!(parse_snapshot_args(&args(&[])), Err("missing guest ELF path"));
    assert_eq!(parse_snapshot_args(&args(&["g"])), Err("missing template dir"));
    assert_eq!(
        parse_snapshot_args(&args(&["g", "/t"])),
        Ok((String::from("g"), String::from("/t")))
    );
    assert_eq!(parse_serve_linux_args(&args(&["/t"])), Ok(String::from("/t")));
    assert_eq!(parse_serve_linux_args(&args(&[])), Err("missing template dir"));
}
