use laplace::init::{
    dup_to_fd, write_all_next, InitAction, InitEvent, InitLog, InitPhase, InitProcess, PipeFds,
};

fn pipe(read_fd: i32, write_fd: i32) -> PipeFds {
    PipeFds { read_fd, write_fd }
}

fn pipes(js_ret: i32, ready_ret: i32, output_ret: i32) -> InitEvent {
    InitEvent::PipesCreated {
        js_ret,
        ready_ret,
        output_ret,
        js_pipe: pipe(10, 11),
        ready_pipe: pipe(12, 13),
        output_pipe: pipe(14, 15),
    }
}

fn booted() -> InitProcess {
    let mut p = InitProcess::new();
    p.next(&InitEvent::Started);
    p.next(&InitEvent::ConsoleOpened { ret: 4 });
    p
}

#[test]
fn a_full_run_with_a_runner() {
    let mut p = booted();
    assert_eq!(p.out_fd, 4);
    assert_eq!(p.next(&pipes(0, 0, 0)), vec![InitAction::ForkRunner]);
    assert_eq!(
        p.next(&InitEvent::Forked { pid: 99 }),
        vec![
            InitAction::Close { fd: 10 },
            InitAction::Close { fd: 13 },
            InitAction::Close { fd: 15 },
            InitAction::Log { fd: 4, line: InitLog::Forked },
            InitAction::Log { fd: 4, line: InitLog::WaitingForRunner },
            InitAction::ReadReadyByte { fd: 12 },
        ]
    );
    assert_eq!(
        p.next(&InitEvent::ReadyByteRead { n: 1 }),
        vec![
            InitAction::Close { fd: 12 },
            InitAction::Log { fd: 4, line: InitLog::RunnerReady },
            InitAction::MapShared,
        ]
    );
    assert_eq!(
        p.next(&InitEvent::SharedMapped { ok: true }),
        vec![
            InitAction::Log { fd: 4, line: InitLog::WritingReady },
            InitAction::SignalReady,
            InitAction::AwaitMessage,
        ]
    );
    assert_eq!(
        p.next(&InitEvent::MessageArrived),
        vec![InitAction::UnmapShared, InitAction::MapShared, InitAction::ReadMessage]
    );
    assert_eq!(
        p.next(&InitEvent::MessageRead { empty: false }),
        vec![
            InitAction::Log { fd: 4, line: InitLog::SendingJs },
            InitAction::SendMessage { fd: 11 },
            InitAction::Close { fd: 11 },
            InitAction::DrainOutput { fd: 14 },
            InitAction::Close { fd: 14 },
            InitAction::WaitRunner,
            InitAction::FinishOutbox,
            InitAction::PowerOff,
        ]
    );
    assert_eq!(p.phase, InitPhase::Off);
}

#[test]
fn the_child_becomes_the_runner() {
    let mut p = booted();
    p.next(&pipes(0, 0, 0));
    let actions = p.next(&InitEvent::Forked { pid: 0 });
    assert_eq!(
        actions,
        vec![
            InitAction::Close { fd: 11 },
            InitAction::Close { fd: 12 },
            InitAction::Close { fd: 14 },
            InitAction::Duplicate { old_fd: 10, new_fd: 0 },
            InitAction::Close { fd: 10 },
            InitAction::Duplicate { old_fd: 15, new_fd: 1 },
            InitAction::Close { fd: 15 },
            InitAction::Duplicate { old_fd: 13, new_fd: 3 },
            InitAction::Close { fd: 13 },
            InitAction::ExecRunner,
            InitAction::ExitChild { code: 1 },
        ]
    );
    assert_eq!(p.phase, InitPhase::Child);
}

#[test]
fn without_pipes_init_echoes() {
    let mut p = booted();
    assert_eq!(
        p.next(&pipes(0, -1, 0)),
        vec![
            InitAction::Close { fd: 10 },
            InitAction::Close { fd: 11 },
            InitAction::Close { fd: 14 },
            InitAction::Close { fd: 15 },
            InitAction::MapShared,
        ]
    );
    p.next(&InitEvent::SharedMapped { ok: true });
    p.next(&InitEvent::MessageArrived);
    assert_eq!(
        p.next(&InitEvent::MessageRead { empty: false }),
        vec![InitAction::EchoMessage, InitAction::PowerOff]
    );
}

#[test]
fn a_failed_map_powers_off() {
    let mut p = booted();
    p.next(&pipes(-1, -1, -1));
    assert_eq!(
        p.next(&InitEvent::SharedMapped { ok: false }),
        vec![InitAction::Log { fd: 4, line: InitLog::MapFailed }, InitAction::PowerOff]
    );
    assert_eq!(
        InitLog::MapFailed.text(),
        "[convex-init] ERROR: failed to map shared region\n"
    );
}

#[test]
fn console_falls_back_to_stdout() {
    let mut p = InitProcess::new();
    p.next(&InitEvent::Started);
    p.next(&InitEvent::ConsoleOpened { ret: -2 });
    assert_eq!(p.out_fd, 1);
}

#[test]
fn duplicating_onto_itself_only_clears_cloexec() {
    assert_eq!(dup_to_fd(3, 3), vec![InitAction::KeepOnExec { fd: 3 }]);
    assert_eq!(
        dup_to_fd(7, 1),
        vec![InitAction::Duplicate { old_fd: 7, new_fd: 1 }, InitAction::Close { fd: 7 }]
    );
}

#[test]
fn short_writes_go_on() {
    assert_eq!(write_all_next(0, 10, 4), Some(4));
    assert_eq!(write_all_next(4, 10, 6), None);
    assert_eq!(write_all_next(4, 10, -1), None);
    assert_eq!(write_all_next(4, 10, 0), None);
}

#[test]
fn init_starts_with_nothing_open() {
    assert_eq!(
        InitProcess::new(),
        InitProcess {
            phase: InitPhase::Boot,
            out_fd: 1,
            js_pipe: pipe(0, 0),
            ready_pipe: pipe(0, 0),
            output_pipe: pipe(0, 0),
            runner_write: -1,
            ready_read: -1,
            output_read: -1,
        }
    );
}
