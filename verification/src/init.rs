//! The init process (PID 1) of the Linux guest.
//!
//! Lifecycle:
//! 1. Mount devtmpfs + procfs, open /dev/kmsg for output
//! 2. Create three pipes: JS pipe (stdin) + ready pipe (fd 3) + output pipe (stdout)
//! 3. Fork child, exec /runner with JS pipe as stdin, output pipe as stdout, ready pipe as fd 3
//! 4. Parent: block on ready pipe until runner signals "initialized"
//! 5. Parent: map shared region (inbox + outbox), write READY to inbox, spin until host overwrites
//! 6. After fork-resume: re-mmap shared region fresh, read JS from inbox, write to pipe
//! 7. Read output pipe into the outbox, wait for child, power off
//!
//! The process itself makes system calls and nothing else; what it calls next
//! is decided here, from what the last call returned.

use vstd::prelude::*;

verus! {

/// File descriptor on which the runner signals that it is initialized.
pub const READY_FD: i32 = 3;

/// The two ends of a pipe.
#[derive(Clone, Copy, Debug, PartialEq, Eq, Structural)]
pub struct PipeFds {
    pub read_fd: i32,
    pub write_fd: i32,
}

/// A file system that init mounts.
#[derive(Clone, Copy, Debug, PartialEq, Eq, Structural)]
pub enum GuestFs {
    /// devtmpfs on /dev.
    Dev,
    /// proc on /proc.
    Proc,
}

/// A line of init's log.
#[derive(Clone, Copy, Debug, PartialEq, Eq, Structural)]
pub enum InitLog {
    Forked,
    WaitingForRunner,
    RunnerReady,
    RunnerGone,
    MapFailed,
    WritingReady,
    SendingJs,
    NoJs,
}

impl InitLog {
    /// The line, newline included.
    pub open spec fn line(self) -> Seq<char> {
        match self {
            InitLog::Forked => "[convex-init] forked /runner child\n"@,
            InitLog::WaitingForRunner => "[convex-init] waiting for runner to initialize...\n"@,
            InitLog::RunnerReady => "[convex-init] runner signaled ready\n"@,
            InitLog::RunnerGone => "[convex-init] runner exited without signaling ready\n"@,
            InitLog::MapFailed => "[convex-init] ERROR: failed to map shared region\n"@,
            InitLog::WritingReady => "[convex-init] writing READY\n"@,
            InitLog::SendingJs => "[convex-init] sending JS to runner via pipe\n"@,
            InitLog::NoJs => "[convex-init] no JS in inbox, closing pipe\n"@,
        }
    }

    /// The text to write.
    pub fn text(&self) -> (s: &'static str)
        ensures
            s@ == self.line(),
    {
        match self {
            InitLog::Forked => "[convex-init] forked /runner child\n",
            InitLog::WaitingForRunner => "[convex-init] waiting for runner to initialize...\n",
            InitLog::RunnerReady => "[convex-init] runner signaled ready\n",
            InitLog::RunnerGone => "[convex-init] runner exited without signaling ready\n",
            InitLog::MapFailed => "[convex-init] ERROR: failed to map shared region\n",
            InitLog::WritingReady => "[convex-init] writing READY\n",
            InitLog::SendingJs => "[convex-init] sending JS to runner via pipe\n",
            InitLog::NoJs => "[convex-init] no JS in inbox, closing pipe\n",
        }
    }
}

/// Something that init does by system call.
#[derive(Clone, Copy, Debug, PartialEq, Eq, Structural)]
pub enum InitAction {
    MakeDir { fs: GuestFs },
    Mount { fs: GuestFs },
    /// Open /dev/kmsg for writing, close-on-exec.
    OpenConsole,
    /// Create the JS, ready and output pipes, close-on-exec.
    CreatePipes,
    ForkRunner,
    Close { fd: i32 },
    /// Clear close-on-exec.
    KeepOnExec { fd: i32 },
    /// Make `new_fd` a copy of `old_fd` that survives exec.
    Duplicate { old_fd: i32, new_fd: i32 },
    ExecRunner,
    ExitChild { code: i32 },
    Log { fd: i32, line: InitLog },
    /// Read one byte from the ready pipe.
    ReadReadyByte { fd: i32 },
    MapShared,
    UnmapShared,
    /// Write the READY sentinel to the inbox.
    SignalReady,
    /// Spin until the sentinel is gone from the inbox.
    AwaitMessage,
    ReadMessage,
    /// Write the message to the runner.
    SendMessage { fd: i32 },
    /// Read the runner's output into the outbox until it ends.
    DrainOutput { fd: i32 },
    WaitRunner,
    /// Append the closing notices to the outbox.
    FinishOutbox,
    /// Answer with the message itself.
    EchoMessage,
    PowerOff,
}

/// What a system call returned.
#[derive(Clone, Copy, Debug, PartialEq, Eq, Structural)]
pub enum InitEvent {
    Started,
    ConsoleOpened { ret: i32 },
    PipesCreated {
        js_ret: i32,
        ready_ret: i32,
        output_ret: i32,
        js_pipe: PipeFds,
        ready_pipe: PipeFds,
        output_pipe: PipeFds,
    },
    Forked { pid: i32 },
    ReadyByteRead { n: i32 },
    SharedMapped { ok: bool },
    MessageArrived,
    MessageRead { empty: bool },
}

/// What init is waiting for.
#[derive(Clone, Copy, Debug, PartialEq, Eq, Structural)]
pub enum InitPhase {
    Boot,
    Console,
    Pipes,
    Fork,
    Ready,
    Mapping,
    Spin,
    Message,
    /// This process becomes the runner.
    Child,
    Off,
}

/// The init process between two system calls.
#[derive(Clone, Copy, Debug, PartialEq, Eq, Structural)]
pub struct InitProcess {
    pub phase: InitPhase,
    /// Where the log goes.
    pub out_fd: i32,
    pub js_pipe: PipeFds,
    pub ready_pipe: PipeFds,
    pub output_pipe: PipeFds,
    /// Ends that init holds while a runner exists, else -1.
    pub runner_write: i32,
    pub ready_read: i32,
    pub output_read: i32,
}

/// Both ends are closed.
pub open spec fn close_both(p: PipeFds) -> Seq<InitAction> {
    seq![InitAction::Close { fd: p.read_fd }, InitAction::Close { fd: p.write_fd }]
}

/// `old_fd` becomes `new_fd`, surviving exec. A descriptor cannot be
/// duplicated onto itself: then it only loses close-on-exec.
pub open spec fn dup_actions(old_fd: i32, new_fd: i32) -> Seq<InitAction> {
    if old_fd == new_fd {
        seq![InitAction::KeepOnExec { fd: old_fd }]
    } else {
        seq![InitAction::Duplicate { old_fd, new_fd }, InitAction::Close { fd: old_fd }]
    }
}

/// Init mounts its file systems and opens its console.
pub open spec fn boot_actions() -> Seq<InitAction> {
    seq![
        InitAction::MakeDir { fs: GuestFs::Dev },
        InitAction::Mount { fs: GuestFs::Dev },
        InitAction::MakeDir { fs: GuestFs::Proc },
        InitAction::Mount { fs: GuestFs::Proc },
        InitAction::OpenConsole,
    ]
}

/// The pipes that were created are closed again.
pub open spec fn pipe_cleanup(
    js_ret: i32,
    ready_ret: i32,
    output_ret: i32,
    js_pipe: PipeFds,
    ready_pipe: PipeFds,
    output_pipe: PipeFds,
) -> Seq<InitAction> {
    (if js_ret >= 0 {
        close_both(js_pipe)
    } else {
        Seq::empty()
    }) + (if ready_ret >= 0 {
        close_both(ready_pipe)
    } else {
        Seq::empty()
    }) + (if output_ret >= 0 {
        close_both(output_pipe)
    } else {
        Seq::empty()
    })
}

/// The child closes the parent's ends, puts its own on stdin, stdout and the
/// ready descriptor, and becomes the runner; it exits if it cannot.
pub open spec fn child_actions(p: InitProcess) -> Seq<InitAction> {
    seq![
        InitAction::Close { fd: p.js_pipe.write_fd },
        InitAction::Close { fd: p.ready_pipe.read_fd },
        InitAction::Close { fd: p.output_pipe.read_fd },
    ] + dup_actions(p.js_pipe.read_fd, 0) + dup_actions(p.output_pipe.write_fd, 1) + dup_actions(
        p.ready_pipe.write_fd,
        READY_FD,
    ) + seq![InitAction::ExecRunner, InitAction::ExitChild { code: 1 }]
}

/// The parent closes the child's ends and waits for the runner's signal.
pub open spec fn parent_actions(p: InitProcess) -> Seq<InitAction> {
    seq![
        InitAction::Close { fd: p.js_pipe.read_fd },
        InitAction::Close { fd: p.ready_pipe.write_fd },
        InitAction::Close { fd: p.output_pipe.write_fd },
        InitAction::Log { fd: p.out_fd, line: InitLog::Forked },
    ] + (if p.ready_pipe.read_fd >= 0 {
        seq![
            InitAction::Log { fd: p.out_fd, line: InitLog::WaitingForRunner },
            InitAction::ReadReadyByte { fd: p.ready_pipe.read_fd },
        ]
    } else {
        seq![InitAction::MapShared]
    })
}

/// The message goes to the runner and its output to the outbox. The output is
/// drained before init waits: a runner that fills the pipe would never exit.
pub open spec fn runner_actions(p: InitProcess, empty: bool) -> Seq<InitAction> {
    (if empty {
        seq![InitAction::Log { fd: p.out_fd, line: InitLog::NoJs }]
    } else {
        seq![
            InitAction::Log { fd: p.out_fd, line: InitLog::SendingJs },
            InitAction::SendMessage { fd: p.runner_write },
        ]
    }) + seq![InitAction::Close { fd: p.runner_write }] + (if p.output_read >= 0 {
        seq![
            InitAction::DrainOutput { fd: p.output_read },
            InitAction::Close { fd: p.output_read },
        ]
    } else {
        Seq::empty()
    }) + seq![InitAction::WaitRunner, InitAction::FinishOutbox, InitAction::PowerOff]
}

/// The process after `event`, and what it does next. An event that the phase
/// does not wait for changes nothing.
pub open spec fn init_step(p: InitProcess, event: InitEvent) -> (InitProcess, Seq<InitAction>) {
    match (p.phase, event) {
        (InitPhase::Boot, InitEvent::Started) => (
            InitProcess { phase: InitPhase::Console, ..p },
            boot_actions(),
        ),
        (InitPhase::Console, InitEvent::ConsoleOpened { ret }) => (
            InitProcess {
                phase: InitPhase::Pipes,
                out_fd: if ret >= 0 {
                    ret
                } else {
                    1
                },
                ..p
            },
            seq![InitAction::CreatePipes],
        ),
        (
            InitPhase::Pipes,
            InitEvent::PipesCreated {
                js_ret,
                ready_ret,
                output_ret,
                js_pipe,
                ready_pipe,
                output_pipe,
            },
        ) => if js_ret >= 0 && ready_ret >= 0 && output_ret >= 0 {
            (
                InitProcess { phase: InitPhase::Fork, js_pipe, ready_pipe, output_pipe, ..p },
                seq![InitAction::ForkRunner],
            )
        } else {
            (
                InitProcess { phase: InitPhase::Mapping, ..p },
                pipe_cleanup(js_ret, ready_ret, output_ret, js_pipe, ready_pipe, output_pipe).push(
                    InitAction::MapShared,
                ),
            )
        },
        (InitPhase::Fork, InitEvent::Forked { pid }) => if pid == 0 {
            (InitProcess { phase: InitPhase::Child, ..p }, child_actions(p))
        } else if pid > 0 {
            (
                InitProcess {
                    phase: if p.ready_pipe.read_fd >= 0 {
                        InitPhase::Ready
                    } else {
                        InitPhase::Mapping
                    },
                    runner_write: p.js_pipe.write_fd,
                    ready_read: p.ready_pipe.read_fd,
                    output_read: p.output_pipe.read_fd,
                    ..p
                },
                parent_actions(p),
            )
        } else {
            // no runner: go on in simple mode
            (
                InitProcess { phase: InitPhase::Mapping, ..p },
                (close_both(p.js_pipe) + close_both(p.ready_pipe) + close_both(p.output_pipe)).push(
                    InitAction::MapShared,
                ),
            )
        },
        (InitPhase::Ready, InitEvent::ReadyByteRead { n }) => (
            InitProcess { phase: InitPhase::Mapping, ..p },
            seq![
                InitAction::Close { fd: p.ready_read },
                InitAction::Log {
                    fd: p.out_fd,
                    line: if n > 0 {
                        InitLog::RunnerReady
                    } else {
                        InitLog::RunnerGone
                    },
                },
                InitAction::MapShared,
            ],
        ),
        (InitPhase::Mapping, InitEvent::SharedMapped { ok }) => if ok {
            (
                InitProcess { phase: InitPhase::Spin, ..p },
                seq![
                    InitAction::Log { fd: p.out_fd, line: InitLog::WritingReady },
                    InitAction::SignalReady,
                    InitAction::AwaitMessage,
                ],
            )
        } else {
            (
                InitProcess { phase: InitPhase::Off, ..p },
                seq![
                    InitAction::Log { fd: p.out_fd, line: InitLog::MapFailed },
                    InitAction::PowerOff,
                ],
            )
        },
        // In a forked VM the old mapping is stale.
        (InitPhase::Spin, InitEvent::MessageArrived) => (
            InitProcess { phase: InitPhase::Message, ..p },
            seq![InitAction::UnmapShared, InitAction::MapShared, InitAction::ReadMessage],
        ),
        (InitPhase::Message, InitEvent::MessageRead { empty }) => (
            InitProcess { phase: InitPhase::Off, ..p },
            if p.runner_write >= 0 {
                runner_actions(p, empty)
            } else {
                seq![InitAction::EchoMessage, InitAction::PowerOff]
            },
        ),
        _ => (p, Seq::empty()),
    }
}

/// Closes both ends of a pipe.
fn push_close_both(actions: &mut Vec<InitAction>, p: PipeFds)
    ensures
        final(actions)@ == old(actions)@ + close_both(p),
{
    actions.push(InitAction::Close { fd: p.read_fd });
    actions.push(InitAction::Close { fd: p.write_fd });
    assert(actions@ =~= old(actions)@ + close_both(p));
}

/// Dup `old_fd` to `new_fd` without O_CLOEXEC (so it survives execve).
/// Handles the edge case where old_fd == new_fd: dup3 returns EINVAL in
/// that case, so only FD_CLOEXEC is cleared.
pub fn dup_to_fd(old_fd: i32, new_fd: i32) -> (actions: Vec<InitAction>)
    ensures
        actions@ == dup_actions(old_fd, new_fd),
{
    let mut actions: Vec<InitAction> = Vec::new();
    if old_fd == new_fd {
        actions.push(InitAction::KeepOnExec { fd: old_fd });
    } else {
        actions.push(InitAction::Duplicate { old_fd, new_fd });
        actions.push(InitAction::Close { fd: old_fd });
    }
    assert(actions@ =~= dup_actions(old_fd, new_fd));
    actions
}

impl InitProcess {
    /// The process as the kernel starts it.
    pub fn new() -> (p: Self)
        ensures
            p == (InitProcess {
                phase: InitPhase::Boot,
                out_fd: 1,
                js_pipe: PipeFds { read_fd: 0, write_fd: 0 },
                ready_pipe: PipeFds { read_fd: 0, write_fd: 0 },
                output_pipe: PipeFds { read_fd: 0, write_fd: 0 },
                runner_write: (-1) as i32,
                ready_read: (-1) as i32,
                output_read: (-1) as i32,
            }),
    {
        let none = PipeFds { read_fd: 0, write_fd: 0 };
        InitProcess {
            phase: InitPhase::Boot,
            out_fd: 1,
            js_pipe: none,
            ready_pipe: none,
            output_pipe: none,
            runner_write: -1,
            ready_read: -1,
            output_read: -1,
        }
    }

    /// Takes note of `event` and says what to do next.
    pub fn next(&mut self, event: &InitEvent) -> (actions: Vec<InitAction>)
        ensures
            (*final(self), actions@) == init_step(*old(self), *event),
    {
        let mut actions: Vec<InitAction> = Vec::new();
        match (self.phase, *event) {
            (InitPhase::Boot, InitEvent::Started) => {
                actions.push(InitAction::MakeDir { fs: GuestFs::Dev });
                actions.push(InitAction::Mount { fs: GuestFs::Dev });
                actions.push(InitAction::MakeDir { fs: GuestFs::Proc });
                actions.push(InitAction::Mount { fs: GuestFs::Proc });
                actions.push(InitAction::OpenConsole);
                self.phase = InitPhase::Console;
                assert(actions@ =~= boot_actions());
            },
            (InitPhase::Console, InitEvent::ConsoleOpened { ret }) => {
                self.out_fd = if ret >= 0 {
                    ret
                } else {
                    1
                };
                actions.push(InitAction::CreatePipes);
                self.phase = InitPhase::Pipes;
            },
            (
                InitPhase::Pipes,
                InitEvent::PipesCreated {
                    js_ret,
                    ready_ret,
                    output_ret,
                    js_pipe,
                    ready_pipe,
                    output_pipe,
                },
            ) => {
                if js_ret >= 0 && ready_ret >= 0 && output_ret >= 0 {
                    self.js_pipe = js_pipe;
                    self.ready_pipe = ready_pipe;
                    self.output_pipe = output_pipe;
                    actions.push(InitAction::ForkRunner);
                    self.phase = InitPhase::Fork;
                } else {
                    // pipe creation failed: clean up any that succeeded
                    if js_ret >= 0 {
                        push_close_both(&mut actions, js_pipe);
                    }
                    if ready_ret >= 0 {
                        push_close_both(&mut actions, ready_pipe);
                    }
                    if output_ret >= 0 {
                        push_close_both(&mut actions, output_pipe);
                    }
                    assert(actions@ =~= pipe_cleanup(
                        js_ret,
                        ready_ret,
                        output_ret,
                        js_pipe,
                        ready_pipe,
                        output_pipe,
                    ));
                    actions.push(InitAction::MapShared);
                    self.phase = InitPhase::Mapping;
                }
            },
            (InitPhase::Fork, InitEvent::Forked { pid }) => {
                if pid == 0 {
                    self.become_child(&mut actions);
                } else if pid > 0 {
                    self.become_parent(&mut actions);
                } else {
                    push_close_both(&mut actions, self.js_pipe);
                    push_close_both(&mut actions, self.ready_pipe);
                    push_close_both(&mut actions, self.output_pipe);
                    actions.push(InitAction::MapShared);
                    self.phase = InitPhase::Mapping;
                }
            },
            (InitPhase::Ready, InitEvent::ReadyByteRead { n }) => {
                actions.push(InitAction::Close { fd: self.ready_read });
                let line = if n > 0 {
                    InitLog::RunnerReady
                } else {
                    InitLog::RunnerGone
                };
                actions.push(InitAction::Log { fd: self.out_fd, line });
                actions.push(InitAction::MapShared);
                self.phase = InitPhase::Mapping;
            },
            (InitPhase::Mapping, InitEvent::SharedMapped { ok }) => {
                if ok {
                    actions.push(
                        InitAction::Log { fd: self.out_fd, line: InitLog::WritingReady },
                    );
                    actions.push(InitAction::SignalReady);
                    actions.push(InitAction::AwaitMessage);
                    self.phase = InitPhase::Spin;
                } else {
                    actions.push(InitAction::Log { fd: self.out_fd, line: InitLog::MapFailed });
                    actions.push(InitAction::PowerOff);
                    self.phase = InitPhase::Off;
                }
            },
            (InitPhase::Spin, InitEvent::MessageArrived) => {
                actions.push(InitAction::UnmapShared);
                actions.push(InitAction::MapShared);
                actions.push(InitAction::ReadMessage);
                self.phase = InitPhase::Message;
            },
            (InitPhase::Message, InitEvent::MessageRead { empty }) => {
                if self.runner_write >= 0 {
                    self.serve_with_runner(&mut actions, empty);
                } else {
                    actions.push(InitAction::EchoMessage);
                    actions.push(InitAction::PowerOff);
                }
                self.phase = InitPhase::Off;
            },
            _ => {},
        }
        assert(actions@ =~= init_step(*old(self), *event).1);
        actions
    }

    /// The forked child turns into the runner.
    fn become_child(&mut self, actions: &mut Vec<InitAction>)
        requires
            old(actions)@.len() == 0,
        ensures
            final(actions)@ == child_actions(*old(self)),
            *final(self) == (InitProcess { phase: InitPhase::Child, ..*old(self) }),
    {
        actions.push(InitAction::Close { fd: self.js_pipe.write_fd });
        actions.push(InitAction::Close { fd: self.ready_pipe.read_fd });
        actions.push(InitAction::Close { fd: self.output_pipe.read_fd });
        let mut stdin = dup_to_fd(self.js_pipe.read_fd, 0);
        let mut stdout = dup_to_fd(self.output_pipe.write_fd, 1);
        let mut ready = dup_to_fd(self.ready_pipe.write_fd, READY_FD);
        actions.append(&mut stdin);
        actions.append(&mut stdout);
        actions.append(&mut ready);
        actions.push(InitAction::ExecRunner);
        actions.push(InitAction::ExitChild { code: 1 });
        self.phase = InitPhase::Child;
        assert(actions@ =~= child_actions(*old(self)));
    }

    /// The parent keeps its ends and waits for the runner.
    fn become_parent(&mut self, actions: &mut Vec<InitAction>)
        requires
            old(actions)@.len() == 0,
        ensures
            final(actions)@ == parent_actions(*old(self)),
            *final(self) == (InitProcess {
                phase: if old(self).ready_pipe.read_fd >= 0 {
                    InitPhase::Ready
                } else {
                    InitPhase::Mapping
                },
                runner_write: old(self).js_pipe.write_fd,
                ready_read: old(self).ready_pipe.read_fd,
                output_read: old(self).output_pipe.read_fd,
                ..*old(self)
            }),
    {
        actions.push(InitAction::Close { fd: self.js_pipe.read_fd });
        actions.push(InitAction::Close { fd: self.ready_pipe.write_fd });
        actions.push(InitAction::Close { fd: self.output_pipe.write_fd });
        actions.push(InitAction::Log { fd: self.out_fd, line: InitLog::Forked });
        self.runner_write = self.js_pipe.write_fd;
        self.ready_read = self.ready_pipe.read_fd;
        self.output_read = self.output_pipe.read_fd;
        if self.ready_read >= 0 {
            actions.push(InitAction::Log { fd: self.out_fd, line: InitLog::WaitingForRunner });
            actions.push(InitAction::ReadReadyByte { fd: self.ready_read });
            self.phase = InitPhase::Ready;
        } else {
            actions.push(InitAction::MapShared);
            self.phase = InitPhase::Mapping;
        }
        assert(actions@ =~= parent_actions(*old(self)));
    }

    /// Hands the message to the runner and collects its output.
    fn serve_with_runner(&self, actions: &mut Vec<InitAction>, empty: bool)
        requires
            old(actions)@.len() == 0,
        ensures
            final(actions)@ == runner_actions(*self, empty),
    {
        if !empty {
            actions.push(InitAction::Log { fd: self.out_fd, line: InitLog::SendingJs });
            actions.push(InitAction::SendMessage { fd: self.runner_write });
        } else {
            actions.push(InitAction::Log { fd: self.out_fd, line: InitLog::NoJs });
        }
        actions.push(InitAction::Close { fd: self.runner_write });
        if self.output_read >= 0 {
            actions.push(InitAction::DrainOutput { fd: self.output_read });
            actions.push(InitAction::Close { fd: self.output_read });
        }
        actions.push(InitAction::WaitRunner);
        actions.push(InitAction::FinishOutbox);
        actions.push(InitAction::PowerOff);
        assert(actions@ =~= runner_actions(*self, empty));
    }
}

/// Where a write of a whole buffer goes on after a write call returned `n`;
/// `None` if all of it is written, or the call failed. Pipes take less than
/// they are offered.
pub fn write_all_next(off: usize, len: usize, n: i64) -> (next: Option<usize>)
    requires
        off <= len,
        n <= len - off,
    ensures
        next == (if n > 0 && off + n < len {
            Some((off + n) as usize)
        } else {
            None
        }),
{
    if n <= 0 {
        return None;
    }
    let done: usize = off + n as usize;
    if done < len {
        Some(done)
    } else {
        None
    }
}

// Laws

/// How often `actions` close `fd`.
pub open spec fn closes(actions: Seq<InitAction>, fd: i32) -> nat
    decreases actions.len(),
{
    if actions.len() == 0 {
        0
    } else {
        closes(actions.drop_last(), fd) + if actions.last() == (InitAction::Close { fd }) {
            1nat
        } else {
            0nat
        }
    }
}

/// Closings add up.
proof fn lemma_closes_add(a: Seq<InitAction>, b: Seq<InitAction>, fd: i32)
    ensures
        closes(a + b, fd) == closes(a, fd) + closes(b, fd),
    decreases b.len(),
{
    if b.len() == 0 {
        assert(a + b =~= a);
    } else {
        lemma_closes_add(a, b.drop_last(), fd);
        assert((a + b).drop_last() =~= a + b.drop_last());
    }
}

/// One more action.
proof fn lemma_closes_push(a: Seq<InitAction>, x: InitAction, fd: i32)
    ensures
        closes(a.push(x), fd) == closes(a, fd) + if x == (InitAction::Close { fd }) {
            1nat
        } else {
            0nat
        },
{
    assert(a.push(x).drop_last() =~= a);
}

/// The last thing that init does in a VM is to power it off, and it does so
/// from the phase where it ends.
pub proof fn law_init_ends_by_powering_off(p: InitProcess, event: InitEvent)
    requires
        !(p.phase is Off),
    ensures
        init_step(p, event).0.phase is Off <==> (init_step(p, event).1.len() > 0 && init_step(
            p,
            event,
        ).1.last() is PowerOff),
{
}

/// The runner's output is read to its end before init waits for the runner,
/// so a runner that fills the pipe cannot block both.
pub proof fn law_output_is_drained_before_waiting(p: InitProcess, empty: bool)
    requires
        p.phase is Message,
        p.runner_write >= 0,
        p.output_read >= 0,
    ensures
        ({
            let acts = init_step(p, InitEvent::MessageRead { empty }).1;
            exists|i: int, j: int|
                0 <= i < j < acts.len() && #[trigger] acts[i] is DrainOutput
                    && #[trigger] acts[j] is WaitRunner
        }),
{
    let acts = init_step(p, InitEvent::MessageRead { empty }).1;
    let i: int = if empty {
        2
    } else {
        3
    };
    assert(acts[i] is DrainOutput);
    assert(acts[i + 2] is WaitRunner);
}

/// A forked init closes each of the six pipe ends exactly once between the
/// fork and power-off, provided the ends are distinct open descriptors.
pub proof fn law_parent_closes_every_pipe_end_once(
    p: InitProcess,
    pid: i32,
    n: i32,
    empty: bool,
    fd: i32,
)
    requires
        p.phase is Fork,
        pid > 0,
        p.js_pipe.read_fd >= 0,
        p.js_pipe.write_fd >= 0,
        p.ready_pipe.read_fd >= 0,
        p.ready_pipe.write_fd >= 0,
        p.output_pipe.read_fd >= 0,
        p.output_pipe.write_fd >= 0,
        pairwise_distinct(p),
        fd == p.js_pipe.read_fd || fd == p.js_pipe.write_fd || fd == p.ready_pipe.read_fd || fd
            == p.ready_pipe.write_fd || fd == p.output_pipe.read_fd || fd
            == p.output_pipe.write_fd,
    ensures
        ({
            let (p1, a1) = init_step(p, InitEvent::Forked { pid });
            let (p2, a2) = init_step(p1, InitEvent::ReadyByteRead { n });
            let (p3, a3) = init_step(p2, InitEvent::SharedMapped { ok: true });
            let (p4, a4) = init_step(p3, InitEvent::MessageArrived);
            let (p5, a5) = init_step(p4, InitEvent::MessageRead { empty });
            &&& p5.phase is Off
            &&& closes(a1 + a2 + a3 + a4 + a5, fd) == 1
        }),
{
    let (p1, a1) = init_step(p, InitEvent::Forked { pid });
    let (p2, a2) = init_step(p1, InitEvent::ReadyByteRead { n });
    let (p3, a3) = init_step(p2, InitEvent::SharedMapped { ok: true });
    let (p4, a4) = init_step(p3, InitEvent::MessageArrived);
    let (p5, a5) = init_step(p4, InitEvent::MessageRead { empty });
    lemma_closes_add(a1 + a2 + a3 + a4, a5, fd);
    lemma_closes_add(a1 + a2 + a3, a4, fd);
    lemma_closes_add(a1 + a2, a3, fd);
    lemma_closes_add(a1, a2, fd);
    let h1 = seq![
        InitAction::Close { fd: p.js_pipe.read_fd },
        InitAction::Close { fd: p.ready_pipe.write_fd },
        InitAction::Close { fd: p.output_pipe.write_fd },
        InitAction::Log { fd: p.out_fd, line: InitLog::Forked },
    ];
    let t1 = seq![
        InitAction::Log { fd: p.out_fd, line: InitLog::WaitingForRunner },
        InitAction::ReadReadyByte { fd: p.ready_pipe.read_fd },
    ];
    lemma_closes_add(h1, t1, fd);
    lemma_closes_four(h1, fd);
    lemma_closes_two(t1, fd);
    lemma_closes_three(a2, fd);
    lemma_closes_three(a3, fd);
    lemma_closes_three(a4, fd);
    let b1 = if empty {
        seq![InitAction::Log { fd: p4.out_fd, line: InitLog::NoJs }]
    } else {
        seq![
            InitAction::Log { fd: p4.out_fd, line: InitLog::SendingJs },
            InitAction::SendMessage { fd: p4.runner_write },
        ]
    };
    let b2 = seq![InitAction::Close { fd: p4.runner_write }];
    let b3 = seq![
        InitAction::DrainOutput { fd: p4.output_read },
        InitAction::Close { fd: p4.output_read },
    ];
    let b4 = seq![InitAction::WaitRunner, InitAction::FinishOutbox, InitAction::PowerOff];
    lemma_closes_add(b1 + b2 + b3, b4, fd);
    lemma_closes_add(b1 + b2, b3, fd);
    lemma_closes_add(b1, b2, fd);
    if empty {
        lemma_closes_one(b1, fd);
    } else {
        lemma_closes_two(b1, fd);
    }
    lemma_closes_one(b2, fd);
    lemma_closes_two(b3, fd);
    lemma_closes_three(b4, fd);
}

/// The six pipe ends are six descriptors.
pub open spec fn pairwise_distinct(p: InitProcess) -> bool {
    let ends = seq![
        p.js_pipe.read_fd,
        p.js_pipe.write_fd,
        p.ready_pipe.read_fd,
        p.ready_pipe.write_fd,
        p.output_pipe.read_fd,
        p.output_pipe.write_fd,
    ];
    ends.no_duplicates()
}

/// 1 if the action closes `fd`.
spec fn is_close(x: InitAction, fd: i32) -> nat {
    if x == (InitAction::Close { fd }) {
        1
    } else {
        0
    }
}

proof fn lemma_closes_one(a: Seq<InitAction>, fd: i32)
    requires
        a.len() == 1,
    ensures
        closes(a, fd) == is_close(a[0], fd),
{
    assert(a =~= Seq::empty().push(a[0]));
    lemma_closes_push(Seq::empty(), a[0], fd);
}

proof fn lemma_closes_two(a: Seq<InitAction>, fd: i32)
    requires
        a.len() == 2,
    ensures
        closes(a, fd) == is_close(a[0], fd) + is_close(a[1], fd),
{
    lemma_closes_one(a.drop_last(), fd);
}

proof fn lemma_closes_three(a: Seq<InitAction>, fd: i32)
    requires
        a.len() == 3,
    ensures
        closes(a, fd) == is_close(a[0], fd) + is_close(a[1], fd) + is_close(a[2], fd),
{
    lemma_closes_two(a.drop_last(), fd);
}

proof fn lemma_closes_four(a: Seq<InitAction>, fd: i32)
    requires
        a.len() == 4,
    ensures
        closes(a, fd) == is_close(a[0], fd) + is_close(a[1], fd) + is_close(a[2], fd) + is_close(
            a[3],
            fd,
        ),
{
    lemma_closes_three(a.drop_last(), fd);
}

/// A process's descriptors: what each refers to, and which survive exec.
#[verifier::ext_equal]
pub struct Descriptors {
    pub open: Map<i32, int>,
    pub kept: Set<i32>,
}

/// The descriptors after one action.
pub open spec fn descriptors_after(d: Descriptors, action: InitAction) -> Descriptors {
    match action {
        InitAction::Close { fd } => Descriptors {
            open: d.open.remove(fd),
            kept: d.kept.remove(fd),
        },
        InitAction::Duplicate { old_fd, new_fd } => Descriptors {
            open: d.open.insert(new_fd, d.open[old_fd]),
            kept: d.kept.insert(new_fd),
        },
        InitAction::KeepOnExec { fd } => Descriptors { kept: d.kept.insert(fd), ..d },
        _ => d,
    }
}

/// The descriptors after actions, in order.
pub open spec fn descriptors_after_all(d: Descriptors, actions: Seq<InitAction>) -> Descriptors
    decreases actions.len(),
{
    if actions.len() == 0 {
        d
    } else {
        descriptors_after(descriptors_after_all(d, actions.drop_last()), actions.last())
    }
}

/// Actions, and then others.
proof fn lemma_descriptors_add(d: Descriptors, a: Seq<InitAction>, b: Seq<InitAction>)
    ensures
        descriptors_after_all(d, a + b) == descriptors_after_all(descriptors_after_all(d, a), b),
    decreases b.len(),
{
    if b.len() == 0 {
        assert(a + b =~= a);
    } else {
        lemma_descriptors_add(d, a, b.drop_last());
        assert((a + b).drop_last() =~= a + b.drop_last());
    }
}

/// Moving a descriptor makes the new one refer to what the old one did and
/// survive exec, and leaves no other copy.
pub proof fn law_moved_descriptor(d: Descriptors, old_fd: i32, new_fd: i32, fd: i32)
    requires
        d.open.dom().contains(old_fd),
    ensures
        ({
            let after = descriptors_after_all(d, dup_actions(old_fd, new_fd));
            &&& after.open.dom().contains(new_fd)
            &&& after.open[new_fd] == d.open[old_fd]
            &&& after.kept.contains(new_fd)
            &&& old_fd != new_fd ==> !after.open.dom().contains(old_fd) && !after.kept.contains(
                old_fd,
            )
            &&& fd != old_fd && fd != new_fd ==> (after.open.dom().contains(fd)
                <==> d.open.dom().contains(fd)) && after.open[fd] == d.open[fd]
                && (after.kept.contains(fd) <==> d.kept.contains(fd))
        }),
{
    let acts = dup_actions(old_fd, new_fd);
    reveal_with_fuel(descriptors_after_all, 3);
    if old_fd == new_fd {
        assert(acts.drop_last() =~= Seq::empty());
    } else {
        assert(acts.drop_last() =~= seq![acts[0]]);
        assert(acts.drop_last().drop_last() =~= Seq::empty());
    }
}

/// The runner starts wired to init: its standard input is the reading end of
/// the JS pipe, its standard output the writing end of the output pipe, and
/// descriptor 3 the writing end of the ready pipe, all three survive exec, and
/// no other pipe end is left open in it. Then it is executed, and only if that
/// fails it exits, with code 1. The pipes must have come to lie clear of the
/// descriptors that are filled before their turn, as they do where standard
/// input and output are open.
pub proof fn law_runner_is_wired(p: InitProcess, d: Descriptors, fd: i32)
    requires
        p.phase is Fork,
        pairwise_distinct(p),
        d.open.dom().contains(p.js_pipe.read_fd),
        d.open.dom().contains(p.output_pipe.write_fd),
        d.open.dom().contains(p.ready_pipe.write_fd),
        p.output_pipe.write_fd != 0,
        p.ready_pipe.write_fd != 0,
        p.ready_pipe.write_fd != 1,
        fd == p.js_pipe.read_fd || fd == p.js_pipe.write_fd || fd == p.ready_pipe.read_fd || fd
            == p.ready_pipe.write_fd || fd == p.output_pipe.read_fd || fd
            == p.output_pipe.write_fd,
    ensures
        ({
            let (next, acts) = init_step(p, InitEvent::Forked { pid: 0 });
            let n = acts.len();
            let after = descriptors_after_all(d, acts.take(n - 2));
            &&& next.phase is Child
            &&& acts[n - 2] is ExecRunner
            &&& acts[n - 1] == InitAction::ExitChild { code: 1 }
            &&& after.open.dom().contains(0) && after.open[0] == d.open[p.js_pipe.read_fd]
            &&& after.open.dom().contains(1) && after.open[1] == d.open[p.output_pipe.write_fd]
            &&& after.open.dom().contains(3) && after.open[3] == d.open[p.ready_pipe.write_fd]
            &&& after.kept.contains(0) && after.kept.contains(1) && after.kept.contains(3)
            &&& fd != 0 && fd != 1 && fd != 3 ==> !after.open.dom().contains(fd)
        }),
{
    let (next, acts) = init_step(p, InitEvent::Forked { pid: 0 });
    let n = acts.len();
    let jr = p.js_pipe.read_fd;
    let jw = p.js_pipe.write_fd;
    let rr = p.ready_pipe.read_fd;
    let rw = p.ready_pipe.write_fd;
    let or = p.output_pipe.read_fd;
    let ow = p.output_pipe.write_fd;
    let ends = seq![jr, jw, rr, rw, or, ow];
    assert(ends.no_duplicates());
    assert(ends[0] == jr && ends[1] == jw && ends[2] == rr && ends[3] == rw && ends[4] == or
        && ends[5] == ow);
    let head = seq![
        InitAction::Close { fd: jw },
        InitAction::Close { fd: rr },
        InitAction::Close { fd: or },
    ];
    let a0 = dup_actions(jr, 0);
    let a1 = dup_actions(ow, 1);
    let a3 = dup_actions(rw, 3);
    assert(acts.take(n - 2) =~= head + a0 + a1 + a3);
    let d0 = descriptors_after_all(d, head);
    reveal_with_fuel(descriptors_after_all, 4);
    assert(head.drop_last() =~= seq![head[0], head[1]]);
    assert(head.drop_last().drop_last() =~= seq![head[0]]);
    assert(head.drop_last().drop_last().drop_last() =~= Seq::empty());
    let d1 = descriptors_after_all(d0, a0);
    let d2 = descriptors_after_all(d1, a1);
    let d3 = descriptors_after_all(d2, a3);
    lemma_descriptors_add(d, head, a0);
    lemma_descriptors_add(d, head + a0, a1);
    lemma_descriptors_add(d, head + a0 + a1, a3);
    law_moved_descriptor(d0, jr, 0, ow);
    law_moved_descriptor(d0, jr, 0, rw);
    law_moved_descriptor(d0, jr, 0, fd);
    law_moved_descriptor(d1, ow, 1, 0);
    law_moved_descriptor(d1, ow, 1, rw);
    law_moved_descriptor(d1, ow, 1, fd);
    law_moved_descriptor(d2, rw, 3, 0);
    law_moved_descriptor(d2, rw, 3, 1);
    law_moved_descriptor(d2, rw, 3, fd);
}

/// What init does while a runner exists, from the fork to power-off: it waits
/// for the runner's byte on the ready pipe; maps the shared region, signals
/// READY and waits, in this order; maps the region afresh before it reads the
/// message, because in a forked VM the old mapping is stale; writes the message
/// to the JS pipe if there is one and closes that pipe, so that the runner sees
/// its end; reads the output pipe to its end into the outbox; waits for the
/// runner; appends the notices; and powers off.
pub proof fn law_life_with_a_runner(p: InitProcess, pid: i32, n: i32, empty: bool)
    requires
        p.phase is Fork,
        pid > 0,
        p.js_pipe.write_fd >= 0,
        p.ready_pipe.read_fd >= 0,
        p.output_pipe.read_fd >= 0,
    ensures
        ({
            let (p1, a1) = init_step(p, InitEvent::Forked { pid });
            let (p2, a2) = init_step(p1, InitEvent::ReadyByteRead { n });
            let (p3, a3) = init_step(p2, InitEvent::SharedMapped { ok: true });
            let (p4, a4) = init_step(p3, InitEvent::MessageArrived);
            let (p5, a5) = init_step(p4, InitEvent::MessageRead { empty });
            let k = if empty {
                0int
            } else {
                1
            };
            &&& a1.last() == (InitAction::ReadReadyByte { fd: p.ready_pipe.read_fd })
            &&& a2.len() == 3
            &&& a2[0] == (InitAction::Close { fd: p.ready_pipe.read_fd })
            &&& a2[1] == (InitAction::Log {
                fd: p.out_fd,
                line: if n > 0 {
                    InitLog::RunnerReady
                } else {
                    InitLog::RunnerGone
                },
            })
            &&& a2[2] is MapShared
            &&& a3.len() == 3
            &&& a3[0] == (InitAction::Log { fd: p.out_fd, line: InitLog::WritingReady })
            &&& a3[1] is SignalReady
            &&& a3[2] is AwaitMessage
            &&& a4.len() == 3
            &&& a4[0] is UnmapShared
            &&& a4[1] is MapShared
            &&& a4[2] is ReadMessage
            &&& a5.len() == 7 + k
            &&& a5[0] == (InitAction::Log {
                fd: p.out_fd,
                line: if empty {
                    InitLog::NoJs
                } else {
                    InitLog::SendingJs
                },
            })
            &&& !empty ==> a5[1] == (InitAction::SendMessage { fd: p.js_pipe.write_fd })
            &&& a5[1 + k] == (InitAction::Close { fd: p.js_pipe.write_fd })
            &&& a5[2 + k] == (InitAction::DrainOutput { fd: p.output_pipe.read_fd })
            &&& a5[3 + k] == (InitAction::Close { fd: p.output_pipe.read_fd })
            &&& a5[4 + k] is WaitRunner
            &&& a5[5 + k] is FinishOutbox
            &&& a5[6 + k] is PowerOff
            &&& p5.phase is Off
        }),
{
}

/// Without a runner init still answers: it signals READY and echoes the
/// message. This is what happens if a pipe or the fork fails, and then every
/// pipe end that exists is closed and no other descriptor is.
pub proof fn law_life_without_a_runner(
    p: InitProcess,
    js_ret: i32,
    ready_ret: i32,
    output_ret: i32,
    js_pipe: PipeFds,
    ready_pipe: PipeFds,
    output_pipe: PipeFds,
    empty: bool,
    i: int,
)
    requires
        p.phase is Pipes,
        p.runner_write == -1,
        js_ret < 0 || ready_ret < 0 || output_ret < 0,
    ensures
        ({
            let (p1, a1) = init_step(
                p,
                InitEvent::PipesCreated {
                    js_ret,
                    ready_ret,
                    output_ret,
                    js_pipe,
                    ready_pipe,
                    output_pipe,
                },
            );
            let (p2, a2) = init_step(p1, InitEvent::SharedMapped { ok: true });
            let (p3, a3) = init_step(p2, InitEvent::MessageArrived);
            let (p4, a4) = init_step(p3, InitEvent::MessageRead { empty });
            &&& a1.last() is MapShared
            &&& js_ret >= 0 ==> a1.contains(InitAction::Close { fd: js_pipe.read_fd })
                && a1.contains(InitAction::Close { fd: js_pipe.write_fd })
            &&& ready_ret >= 0 ==> a1.contains(InitAction::Close { fd: ready_pipe.read_fd })
                && a1.contains(InitAction::Close { fd: ready_pipe.write_fd })
            &&& output_ret >= 0 ==> a1.contains(InitAction::Close { fd: output_pipe.read_fd })
                && a1.contains(InitAction::Close { fd: output_pipe.write_fd })
            &&& 0 <= i < a1.len() - 1 ==> {
                ||| js_ret >= 0 && a1[i] == InitAction::Close { fd: js_pipe.read_fd }
                ||| js_ret >= 0 && a1[i] == InitAction::Close { fd: js_pipe.write_fd }
                ||| ready_ret >= 0 && a1[i] == InitAction::Close { fd: ready_pipe.read_fd }
                ||| ready_ret >= 0 && a1[i] == InitAction::Close { fd: ready_pipe.write_fd }
                ||| output_ret >= 0 && a1[i] == InitAction::Close { fd: output_pipe.read_fd }
                ||| output_ret >= 0 && a1[i] == InitAction::Close { fd: output_pipe.write_fd }
            }
            &&& a2[1] is SignalReady
            &&& a2[2] is AwaitMessage
            &&& a3[2] is ReadMessage
            &&& a4.len() == 2
            &&& a4[0] is EchoMessage
            &&& a4[1] is PowerOff
            &&& p4.phase is Off
        }),
{
    let (p1, a1) = init_step(
        p,
        InitEvent::PipesCreated {
            js_ret,
            ready_ret,
            output_ret,
            js_pipe,
            ready_pipe,
            output_pipe,
        },
    );
    let j: int = if js_ret >= 0 {
        2
    } else {
        0
    };
    let r: int = if ready_ret >= 0 {
        2
    } else {
        0
    };
    if js_ret >= 0 {
        assert(a1[0] == InitAction::Close { fd: js_pipe.read_fd });
        assert(a1[1] == InitAction::Close { fd: js_pipe.write_fd });
    }
    if ready_ret >= 0 {
        assert(a1[j] == InitAction::Close { fd: ready_pipe.read_fd });
        assert(a1[j + 1] == InitAction::Close { fd: ready_pipe.write_fd });
    }
    if output_ret >= 0 {
        assert(a1[j + r] == InitAction::Close { fd: output_pipe.read_fd });
        assert(a1[j + r + 1] == InitAction::Close { fd: output_pipe.write_fd });
    }
}

/// A failed fork leaves no pipe end open and goes on without a runner.
pub proof fn law_failed_fork(p: InitProcess, pid: i32, d: Descriptors)
    requires
        p.phase is Fork,
        pid < 0,
        p.runner_write == -1,
    ensures
        ({
            let (next, acts) = init_step(p, InitEvent::Forked { pid });
            let after = descriptors_after_all(d, acts);
            &&& next.phase is Mapping
            &&& next.runner_write == -1
            &&& acts.len() == 7
            &&& acts[6] is MapShared
            &&& !after.open.dom().contains(p.js_pipe.read_fd)
            &&& !after.open.dom().contains(p.js_pipe.write_fd)
            &&& !after.open.dom().contains(p.ready_pipe.read_fd)
            &&& !after.open.dom().contains(p.ready_pipe.write_fd)
            &&& !after.open.dom().contains(p.output_pipe.read_fd)
            &&& !after.open.dom().contains(p.output_pipe.write_fd)
        }),
{
    let (next, acts) = init_step(p, InitEvent::Forked { pid });
    let s6 = acts.drop_last();
    let s5 = s6.drop_last();
    let s4 = s5.drop_last();
    let s3 = s4.drop_last();
    let s2 = s3.drop_last();
    let s1 = s2.drop_last();
    assert(s1.drop_last().len() == 0);
    reveal_with_fuel(descriptors_after_all, 8);
}

/// How init comes up: it mounts /dev and /proc, each on a directory that it has
/// made, and opens its console under /dev; where that fails its log goes to
/// standard output. Then it makes its pipes and forks.
pub proof fn law_how_init_comes_up(
    p: InitProcess,
    ret: i32,
    js_pipe: PipeFds,
    ready_pipe: PipeFds,
    output_pipe: PipeFds,
    other: InitEvent,
)
    requires
        p.phase is Boot,
    ensures
        ({
            let (p1, a1) = init_step(p, InitEvent::Started);
            let (p2, a2) = init_step(p1, InitEvent::ConsoleOpened { ret });
            let (p3, a3) = init_step(
                p2,
                InitEvent::PipesCreated {
                    js_ret: 0,
                    ready_ret: 0,
                    output_ret: 0,
                    js_pipe,
                    ready_pipe,
                    output_pipe,
                },
            );
            &&& a1.len() == 5
            &&& a1[0] == InitAction::MakeDir { fs: GuestFs::Dev }
            &&& a1[1] == InitAction::Mount { fs: GuestFs::Dev }
            &&& a1[2] == InitAction::MakeDir { fs: GuestFs::Proc }
            &&& a1[3] == InitAction::Mount { fs: GuestFs::Proc }
            &&& a1[4] is OpenConsole
            &&& p2.out_fd == (if ret >= 0 {
                ret
            } else {
                1
            })
            &&& a2.len() == 1 && a2[0] is CreatePipes
            &&& a3.len() == 1 && a3[0] is ForkRunner
            &&& p3.phase is Fork
            &&& p3.js_pipe == js_pipe && p3.ready_pipe == ready_pipe && p3.output_pipe
                == output_pipe
            &&& !(other is Started) ==> init_step(p, other) == (p, Seq::<InitAction>::empty())
        }),
{
}

/// READY is signaled only after the shared region was mapped, and the message
/// is read only after the host has written one. A region that cannot be mapped
/// ends the VM.
pub proof fn law_when_ready_is_signaled(p: InitProcess, event: InitEvent, i: int)
    requires
        0 <= i < init_step(p, event).1.len(),
    ensures
        init_step(p, event).1[i] is SignalReady ==> p.phase is Mapping && event == (
        InitEvent::SharedMapped { ok: true }),
        init_step(p, event).1[i] is ReadMessage ==> p.phase is Spin && (event is MessageArrived),
        p.phase is Mapping && event == (InitEvent::SharedMapped { ok: false }) ==> ({
            let acts = init_step(p, event).1;
            &&& acts.len() == 2
            &&& acts[0] == (InitAction::Log { fd: p.out_fd, line: InitLog::MapFailed })
            &&& acts[1] is PowerOff
        }),
{
    let acts = init_step(p, event).1;
    match p.phase {
        InitPhase::Fork => {
            assert(!(acts[i] is SignalReady) && !(acts[i] is ReadMessage));
        },
        InitPhase::Message => {
            assert(!(acts[i] is SignalReady) && !(acts[i] is ReadMessage));
        },
        InitPhase::Pipes => {
            assert(!(acts[i] is SignalReady) && !(acts[i] is ReadMessage));
        },
        InitPhase::Boot => {
            assert(!(acts[i] is SignalReady) && !(acts[i] is ReadMessage));
        },
        _ => {},
    }
}

/// Every line of init's log says whose it is and ends.
pub proof fn law_log_lines_are_tagged(line: InitLog)
    ensures
        line.line().len() > 14,
        line.line().take(14) == "[convex-init] "@,
        line.line().last() == '\n',
{
    reveal_strlit("[convex-init] ");
    reveal_strlit("[convex-init] forked /runner child\n");
    reveal_strlit("[convex-init] waiting for runner to initialize...\n");
    reveal_strlit("[convex-init] runner signaled ready\n");
    reveal_strlit("[convex-init] runner exited without signaling ready\n");
    reveal_strlit("[convex-init] ERROR: failed to map shared region\n");
    reveal_strlit("[convex-init] writing READY\n");
    reveal_strlit("[convex-init] sending JS to runner via pipe\n");
    reveal_strlit("[convex-init] no JS in inbox, closing pipe\n");
    assert(line.line().take(14) =~= "[convex-init] "@);
}

} // verus!
