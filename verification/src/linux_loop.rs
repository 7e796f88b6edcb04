//! The vCPU loop of the Linux guest.
//!
//! Each turn of the loop decides before entry whether to go on, runs the vCPU
//! (outside this library), and turns the exit into changes to make to the
//! vCPU. Time moves only where a timer register is read or the guest idles.

use crate::layout::{HC_EXIT, HC_READY};
use crate::pl011;
use crate::pl011::Pl011;
use crate::psci;
use crate::psci::PsciResult;
use crate::registers::{MmioAccess, VcpuExit, REG_PC, REG_X0};
use crate::text;
use crate::timer_patch;
use crate::timer_patch::TimerPatchMode;
use crate::vcpu;
use crate::vcpu::{Backend, ExitRegs, VcpuAction};
use crate::vtimer::VirtualTimer;
use vstd::prelude::*;

verus! {

/// Exits after which a VM is given up.
pub const EXIT_LIMIT: u64 = 10_000_000;

/// A progress line is due after this many exits.
pub const LOG_INTERVAL: u64 = 100_000;

/// KVM system event: shutdown.
pub const KVM_SYSTEM_EVENT_SHUTDOWN: u32 = 1;

/// KVM system event: reset.
pub const KVM_SYSTEM_EVENT_RESET: u32 = 2;

/// Why the vCPU loop terminated.
pub enum VmExitReason {
    Ready,
    Exit(u64),
    SystemOff,
    Error(String),
}

/// [`VmExitReason`] as contracts speak of it.
#[verifier::ext_equal]
pub enum StopView {
    Ready,
    Exit(u64),
    SystemOff,
    Error(Seq<char>),
}

impl View for VmExitReason {
    type V = StopView;

    open spec fn view(&self) -> StopView {
        match self {
            VmExitReason::Ready => StopView::Ready,
            VmExitReason::Exit(code) => StopView::Exit(*code),
            VmExitReason::SystemOff => StopView::SystemOff,
            VmExitReason::Error(e) => StopView::Error(e@),
        }
    }
}

/// The view of an optional stop reason.
pub open spec fn stop_view(stop: Option<VmExitReason>) -> Option<StopView> {
    match stop {
        Some(reason) => Some(reason@),
        None => None,
    }
}

/// How often the vCPU exited, and why.
#[derive(Clone, Copy, Debug, PartialEq, Eq, Structural)]
pub struct ExitStats {
    pub exits: u64,
    pub mmio: u64,
    pub hvc: u64,
    pub timer: u64,
    pub wfi: u64,
    pub canceled: u64,
}

impl ExitStats {
    /// Every exit is counted once under its kind at most, and once under
    /// `timer` at most.
    pub open spec fn wf(self) -> bool {
        &&& self.mmio + self.hvc + self.wfi + self.canceled <= self.exits
        &&& self.timer <= self.exits
        &&& self.exits <= EXIT_LIMIT + 1
    }

    /// No exits yet.
    pub fn new() -> (s: Self)
        ensures
            s == (ExitStats { exits: 0, mmio: 0, hvc: 0, timer: 0, wfi: 0, canceled: 0 }),
            s.wf(),
    {
        ExitStats { exits: 0, mmio: 0, hvc: 0, timer: 0, wfi: 0, canceled: 0 }
    }

    /// The exits that are left once those under the printed kinds are taken
    /// off; `None` where those add up to more than all exits, because an exit
    /// that both idles and fires the timer counts under two of them.
    pub fn other(&self) -> (n: Option<u64>)
        ensures
            match n {
                Some(k) => k == self.exits - self.mmio - self.hvc - self.timer - self.wfi,
                None => self.exits < self.mmio + self.hvc + self.timer + self.wfi,
            },
    {
        let sum: u128 = self.mmio as u128 + self.hvc as u128 + self.timer as u128
            + self.wfi as u128;
        if sum <= self.exits as u128 {
            Some((self.exits as u128 - sum) as u64)
        } else {
            None
        }
    }
}

/// The lines that sum up a run.
pub open spec fn stats_text(s: ExitStats) -> Seq<char> {
    let head = "\nVM exit stats:\n  total exits: "@ + text::decimal(s.exits as nat)
        + "\n  MMIO:        "@ + text::decimal(s.mmio as nat) + "\n  HVC/SMC:     "@
        + text::decimal(s.hvc as nat) + "\n  timer:       "@ + text::decimal(s.timer as nat)
        + "\n  WFI:         "@ + text::decimal(s.wfi as nat);
    if s.mmio + s.hvc + s.timer + s.wfi <= s.exits {
        head + "\n  other:       "@ + text::decimal(
            (s.exits - s.mmio - s.hvc - s.timer - s.wfi) as nat,
        )
    } else {
        head
    }
}

impl ExitStats {
    /// The lines that sum up a run. The last line is left out where the kinds
    /// add up to more than all exits.
    pub fn report(&self) -> (r: String)
        ensures
            r@ == stats_text(*self),
    {
        let mut r = text::with_decimal("\nVM exit stats:\n  total exits: ", self.exits);
        r.append("\n  MMIO:        ");
        text::push_decimal(&mut r, self.mmio);
        r.append("\n  HVC/SMC:     ");
        text::push_decimal(&mut r, self.hvc);
        r.append("\n  timer:       ");
        text::push_decimal(&mut r, self.timer);
        r.append("\n  WFI:         ");
        text::push_decimal(&mut r, self.wfi);
        if let Some(other) = self.other() {
            r.append("\n  other:       ");
            text::push_decimal(&mut r, other);
        }
        r
    }
}

/// The exception level that a CPSR value names.
pub fn exception_level(cpsr: u64) -> (el: u64)
    ensures
        el == (cpsr / 4) % 4,
{
    (cpsr / 4) % 4
}

/// One vCPU loop: the devices it emulates and what it has counted.
#[derive(Clone, Copy, Debug, PartialEq, Eq, Structural)]
pub struct LinuxVcpuLoop {
    pub backend: Backend,
    pub uart: Pl011,
    pub vtimer: VirtualTimer,
    pub stats: ExitStats,
}

/// A loop that has not run yet: time stands at tick 0, no deadline is set, and
/// nothing has been counted.
pub open spec fn fresh_loop(backend: Backend, uart: Pl011) -> LinuxVcpuLoop {
    LinuxVcpuLoop {
        backend,
        uart,
        vtimer: VirtualTimer { counter: 0, cval: u64::MAX, ctl: 0 },
        stats: ExitStats { exits: 0, mmio: 0, hvc: 0, timer: 0, wfi: 0, canceled: 0 },
    }
}

/// What to do before the vCPU is entered.
pub struct EntryDecision {
    /// A progress line is due.
    pub log: bool,
    /// The loop ends here.
    pub stop: Option<VmExitReason>,
    /// Mark an interrupt as pending first.
    pub raise_irq: bool,
}

/// What an exit asks for.
pub struct ExitOutcome {
    /// Changes to make, in order.
    pub actions: Vec<VcpuAction>,
    /// The loop ends here.
    pub stop: Option<VmExitReason>,
}

/// A turn of the loop: the loop afterwards, the changes to the vCPU, and why
/// the loop ends if it does.
#[verifier::ext_equal]
pub struct StepView {
    pub after: LinuxVcpuLoop,
    pub actions: Seq<VcpuAction>,
    pub stop: Option<StopView>,
}

/// The changes that an MMIO access asks for.
pub open spec fn mmio_actions(uart: Pl011, access: MmioAccess) -> Seq<VcpuAction> {
    let offset = (access.addr - uart.base_addr) as u64;
    if uart.spans(access.addr) {
        if access.is_write {
            match pl011::console_output(offset, access.data) {
                Some(byte) => seq![VcpuAction::ConsoleByte { byte }],
                None => Seq::empty(),
            }
        } else {
            seq![
                VcpuAction::CompleteMmioRead {
                    value: pl011::register_value(offset),
                    len: access.len,
                },
            ]
        }
    } else if access.is_write {
        Seq::empty()
    } else {
        // unmapped addresses read as zero
        seq![VcpuAction::CompleteMmioRead { value: 0, len: access.len }]
    }
}

/// The changes that a trapped system register access asks for: a read gives
/// zero, a write is dropped. HVF leaves PC at the instruction. Register 31 of
/// the syndrome is taken for PC, not for the zero register.
pub open spec fn sys_reg_trap_actions(backend: Backend, syndrome: u64, pc: u64) -> Seq<VcpuAction> {
    let read = if syndrome % 2 == 1 {
        seq![VcpuAction::SetReg { reg: ((syndrome / 32) % 32) as u32, value: 0 }]
    } else {
        Seq::empty()
    };
    if backend is Hvf {
        read.push(VcpuAction::SetReg { reg: REG_PC, value: vcpu::next_pc(pc) })
    } else {
        read
    }
}

/// The loop with one more exit counted.
pub open spec fn counted(l: LinuxVcpuLoop) -> LinuxVcpuLoop {
    LinuxVcpuLoop { stats: ExitStats { exits: (l.stats.exits + 1) as u64, ..l.stats }, ..l }
}

/// A hypercall's turn of the loop, the exit already counted.
pub open spec fn hvc_step(l: LinuxVcpuLoop, syndrome: u64, is_smc: bool, regs: ExitRegs) -> StepView {
    let access = timer_patch::decode_immediate(
        syndrome as int % 0x1_0000,
        TimerPatchMode::Hvc,
    );
    // SMC traps don't auto-advance PC on HVF; KVM handles this in-kernel.
    let smc_pc = l.backend is Hvf && is_smc;
    if l.backend is Hvf && access is Some {
        let (op, rt) = access->0;
        let acts = timer_patch::timer_actions(op, rt, regs.rt, l.vtimer);
        let pc = timer_patch::pc_after_access(op, rt, regs.rt, l.vtimer, regs.pc);
        StepView {
            after: LinuxVcpuLoop {
                vtimer: timer_patch::timer_effect(op, regs.rt, l.vtimer).0,
                ..l
            },
            actions: if smc_pc {
                acts.push(VcpuAction::SetReg { reg: REG_PC, value: vcpu::next_pc(pc) })
            } else {
                acts
            },
            stop: None,
        }
    } else if regs.x0 == HC_READY {
        StepView { after: l, actions: Seq::empty(), stop: Some(StopView::Ready) }
    } else if regs.x0 == HC_EXIT {
        StepView { after: l, actions: Seq::empty(), stop: Some(StopView::Exit(regs.x1)) }
    } else {
        let answer = psci::psci_answer((regs.x0 % 0x1_0000_0000) as u32);
        if answer is Some && !(answer->0 is Return) {
            StepView { after: l, actions: Seq::empty(), stop: Some(StopView::SystemOff) }
        } else {
            // a call that nobody knows returns -1
            let value = match answer {
                Some(PsciResult::Return(v)) => v,
                _ => u64::MAX,
            };
            let acts = seq![VcpuAction::SetReg { reg: REG_X0, value }];
            StepView {
                after: l,
                actions: if smc_pc {
                    acts.push(VcpuAction::SetReg { reg: REG_PC, value: vcpu::next_pc(regs.pc) })
                } else {
                    acts
                },
                stop: None,
            }
        }
    }
}

/// A debug exit's turn of the loop, the exit already counted.
pub open spec fn debug_step(l: LinuxVcpuLoop, hsr: u32, regs: ExitRegs) -> StepView {
    match timer_patch::decode_immediate(hsr as int % 0x1_0000, TimerPatchMode::Brk) {
        Some((op, rt)) => StepView {
            after: LinuxVcpuLoop {
                vtimer: timer_patch::timer_effect(op, regs.rt, l.vtimer).0,
                stats: ExitStats { timer: (l.stats.timer + 1) as u64, ..l.stats },
                ..l
            },
            actions: timer_patch::timer_actions(op, rt, regs.rt, l.vtimer).push(
                VcpuAction::SetReg {
                    reg: REG_PC,
                    value: vcpu::next_pc(
                        timer_patch::pc_after_access(op, rt, regs.rt, l.vtimer, regs.pc),
                    ),
                },
            ),
            stop: None,
        },
        None => StepView {
            after: l,
            actions: seq![VcpuAction::SetReg { reg: REG_PC, value: vcpu::next_pc(regs.pc) }],
            stop: None,
        },
    }
}

/// A WFI's turn of the loop, the exit already counted.
pub open spec fn wfi_step(l: LinuxVcpuLoop) -> StepView {
    let inject = l.vtimer.armed();
    StepView {
        after: LinuxVcpuLoop {
            vtimer: l.vtimer.after_wfi(),
            stats: ExitStats {
                wfi: (l.stats.wfi + 1) as u64,
                timer: if inject {
                    (l.stats.timer + 1) as u64
                } else {
                    l.stats.timer
                },
                ..l.stats
            },
            ..l
        },
        actions: if inject {
            seq![VcpuAction::RaiseInterrupt]
        } else {
            Seq::empty()
        },
        stop: None,
    }
}

/// One turn of the loop. `ready` says that the guest has written the READY
/// sentinel to an inbox that is being watched.
pub open spec fn step(l0: LinuxVcpuLoop, exit: VcpuExit, regs: ExitRegs, ready: bool) -> StepView {
    let l = counted(l0);
    match exit {
        VcpuExit::Hvc { syndrome, is_smc } => hvc_step(
            LinuxVcpuLoop { stats: ExitStats { hvc: (l.stats.hvc + 1) as u64, ..l.stats }, ..l },
            syndrome,
            is_smc,
            regs,
        ),
        VcpuExit::Mmio(access) => StepView {
            after: LinuxVcpuLoop {
                stats: ExitStats { mmio: (l.stats.mmio + 1) as u64, ..l.stats },
                ..l
            },
            actions: mmio_actions(l.uart, access),
            stop: None,
        },
        VcpuExit::Debug { hsr } => debug_step(l, hsr, regs),
        VcpuExit::UndecodableMmio { .. } => StepView {
            after: l,
            // skip the faulting instruction
            actions: seq![VcpuAction::SetReg { reg: REG_PC, value: vcpu::next_pc(regs.pc) }],
            stop: None,
        },
        VcpuExit::Wfi => wfi_step(l),
        VcpuExit::VtimerActivated => StepView {
            after: LinuxVcpuLoop {
                stats: ExitStats { timer: (l.stats.timer + 1) as u64, ..l.stats },
                ..l
            },
            actions: seq![VcpuAction::SetVtimerMask { masked: true }, VcpuAction::RaiseInterrupt],
            stop: None,
        },
        VcpuExit::Canceled => StepView {
            after: LinuxVcpuLoop {
                stats: ExitStats { canceled: (l.stats.canceled + 1) as u64, ..l.stats },
                ..l
            },
            actions: Seq::empty(),
            stop: if ready {
                Some(StopView::Ready)
            } else {
                None
            },
        },
        VcpuExit::SysRegTrap { syndrome } => StepView {
            after: l,
            actions: sys_reg_trap_actions(l.backend, syndrome, regs.pc),
            stop: None,
        },
        VcpuExit::SystemEvent { event_type } => StepView {
            after: l,
            actions: Seq::empty(),
            stop: if event_type == KVM_SYSTEM_EVENT_SHUTDOWN || event_type
                == KVM_SYSTEM_EVENT_RESET {
                Some(StopView::SystemOff)
            } else {
                None
            },
        },
        VcpuExit::Unknown(reason) => StepView {
            after: l,
            actions: Seq::empty(),
            stop: Some(
                StopView::Error("unexpected VM exit reason="@ + text::decimal(reason as nat)),
            ),
        },
    }
}

/// The general register whose value the handler of `exit` reads, besides
/// x0, x1 and PC.
pub fn exit_source(backend: Backend, exit: &VcpuExit) -> (reg: Option<u32>)
    ensures
        reg == (match *exit {
            VcpuExit::Hvc { syndrome, is_smc } => match timer_patch::decode_immediate(
                syndrome as int % 0x1_0000,
                TimerPatchMode::Hvc,
            ) {
                Some((op, rt)) => if backend is Hvf && op.is_write() {
                    Some(rt)
                } else {
                    None
                },
                None => None,
            },
            VcpuExit::Debug { hsr } => match timer_patch::decode_immediate(
                hsr as int % 0x1_0000,
                TimerPatchMode::Brk,
            ) {
                Some((op, rt)) => if op.is_write() {
                    Some(rt)
                } else {
                    None
                },
                None => None,
            },
            _ => None,
        }),
{
    match *exit {
        VcpuExit::Hvc { syndrome, is_smc: _ } => match backend {
            Backend::Hvf => timer_patch::patched_hvc_source(syndrome),
            Backend::Kvm => None,
        },
        VcpuExit::Debug { hsr } => timer_patch::patched_brk_source(hsr),
        _ => None,
    }
}

/// Routes an MMIO access to the UART, or answers for nobody.
pub fn handle_mmio(uart: &Pl011, access: &MmioAccess) -> (actions: Vec<VcpuAction>)
    requires
        access.len <= 8,
    ensures
        actions@ == mmio_actions(*uart, *access),
{
    let mut actions: Vec<VcpuAction> = Vec::new();
    if uart.contains(access.addr) {
        let offset: u64 = access.addr - uart.base_addr;
        if access.is_write {
            if let Some(byte) = uart.write(offset, access.data, access.len) {
                actions.push(VcpuAction::ConsoleByte { byte });
            }
        } else {
            let value: u64 = uart.read(offset, access.len);
            actions.push(VcpuAction::CompleteMmioRead { value, len: access.len });
        }
    } else if !access.is_write {
        actions.push(VcpuAction::CompleteMmioRead { value: 0, len: access.len });
    }
    assert(actions@ =~= mmio_actions(*uart, *access));
    actions
}

/// Answers a trapped system register access.
pub fn handle_sys_reg_trap(backend: Backend, syndrome: u64, pc: u64) -> (actions: Vec<VcpuAction>)
    ensures
        actions@ == sys_reg_trap_actions(backend, syndrome, pc),
{
    let mut actions: Vec<VcpuAction> = Vec::new();
    // 1 = read (MRS), 0 = write (MSR)
    if syndrome % 2 == 1 {
        let rt: u32 = ((syndrome / 32) % 32) as u32;
        actions.push(VcpuAction::SetReg { reg: rt, value: 0 });
    }
    match backend {
        Backend::Hvf => {
            actions.push(VcpuAction::SetReg { reg: REG_PC, value: vcpu::advance_pc(pc) });
        },
        Backend::Kvm => {},
    }
    assert(actions@ =~= sys_reg_trap_actions(backend, syndrome, pc));
    actions
}

impl LinuxVcpuLoop {
    /// A loop that has not run yet.
    pub fn new(backend: Backend, uart: Pl011) -> (l: Self)
        ensures
            l == fresh_loop(backend, uart),
            l.stats.wf(),
    {
        LinuxVcpuLoop { backend, uart, vtimer: VirtualTimer::new(), stats: ExitStats::new() }
    }

    /// Decides whether to enter the vCPU. `secs_since_log` is the time since
    /// the last progress line, which has no other influence.
    pub fn before_entry(&self, secs_since_log: u64) -> (d: EntryDecision)
        ensures
            d.log == (self.stats.exits > 0 && (self.stats.exits % LOG_INTERVAL == 0
                || secs_since_log >= 2)),
            stop_view(d.stop) == (if self.stats.exits > EXIT_LIMIT {
                Some(StopView::Error("too many exits"@))
            } else {
                None
            }),
            d.raise_irq == self.vtimer.pending(),
    {
        let exits: u64 = self.stats.exits;
        EntryDecision {
            log: exits > 0 && (exits % LOG_INTERVAL == 0 || secs_since_log >= 2),
            stop: if exits > EXIT_LIMIT {
                Some(VmExitReason::Error(String::from_str("too many exits")))
            } else {
                None
            },
            raise_irq: self.vtimer.check_pending(),
        }
    }

    /// Handles one exit of the vCPU. What is reported of it,
    /// [`crate::exit_log::ExitLog::line`] says. `regs.rt` is the value of the register
    /// that [`exit_source`] names; `ready` says that the guest has written the
    /// READY sentinel to the watched inbox.
    pub fn on_exit(&mut self, exit: &VcpuExit, regs: &ExitRegs, ready: bool) -> (o: ExitOutcome)
        requires
            old(self).stats.wf(),
            old(self).stats.exits <= EXIT_LIMIT,
            *exit matches VcpuExit::Mmio(access) ==> access.len <= 8,
        ensures
            final(self).stats.wf(),
            ({
                let s = step(*old(self), *exit, *regs, ready);
                &&& *final(self) == s.after
                &&& o.actions@ == s.actions
                &&& stop_view(o.stop) == s.stop
            }),
    {
        self.stats.exits = self.stats.exits + 1;
        match *exit {
            VcpuExit::Hvc { syndrome, is_smc } => self.on_hvc(syndrome, is_smc, regs),
            VcpuExit::Mmio(access) => {
                self.stats.mmio = self.stats.mmio + 1;
                ExitOutcome { actions: handle_mmio(&self.uart, &access), stop: None }
            },
            VcpuExit::Debug { hsr } => {
                match timer_patch::handle_patched_timer_brk(
                    hsr,
                    regs.rt,
                    regs.pc,
                    &mut self.vtimer,
                ) {
                    Some(actions) => {
                        self.stats.timer = self.stats.timer + 1;
                        ExitOutcome { actions, stop: None }
                    },
                    None => skip_instruction(regs.pc),
                }
            },
            VcpuExit::UndecodableMmio { syndrome: _, ipa: _ } => skip_instruction(regs.pc),
            VcpuExit::Wfi => {
                self.stats.wfi = self.stats.wfi + 1;
                let mut actions: Vec<VcpuAction> = Vec::new();
                if self.vtimer.handle_wfi() {
                    self.stats.timer = self.stats.timer + 1;
                    actions.push(VcpuAction::RaiseInterrupt);
                }
                assert(actions@ =~= wfi_step(counted(*old(self))).actions);
                ExitOutcome { actions, stop: None }
            },
            VcpuExit::VtimerActivated => {
                self.stats.timer = self.stats.timer + 1;
                let mut actions: Vec<VcpuAction> = Vec::new();
                actions.push(VcpuAction::SetVtimerMask { masked: true });
                actions.push(VcpuAction::RaiseInterrupt);
                assert(actions@ =~= seq![
                    VcpuAction::SetVtimerMask { masked: true },
                    VcpuAction::RaiseInterrupt,
                ]);
                ExitOutcome { actions, stop: None }
            },
            VcpuExit::Canceled => {
                self.stats.canceled = self.stats.canceled + 1;
                ExitOutcome {
                    actions: Vec::new(),
                    stop: if ready {
                        Some(VmExitReason::Ready)
                    } else {
                        None
                    },
                }
            },
            VcpuExit::SysRegTrap { syndrome } => ExitOutcome {
                actions: handle_sys_reg_trap(self.backend, syndrome, regs.pc),
                stop: None,
            },
            VcpuExit::SystemEvent { event_type } => ExitOutcome {
                actions: Vec::new(),
                stop: if event_type == KVM_SYSTEM_EVENT_SHUTDOWN || event_type
                    == KVM_SYSTEM_EVENT_RESET {
                    Some(VmExitReason::SystemOff)
                } else {
                    None
                },
            },
            VcpuExit::Unknown(reason) => {
                let message = text::with_decimal("unexpected VM exit reason=", reason as u64);
                ExitOutcome { actions: Vec::new(), stop: Some(VmExitReason::Error(message)) }
            },
        }
    }

    /// Handles an HVC or SMC, the exit already counted.
    fn on_hvc(&mut self, syndrome: u64, is_smc: bool, regs: &ExitRegs) -> (o: ExitOutcome)
        requires
            old(self).stats.hvc < u64::MAX,
        ensures
            ({
                let l = *old(self);
                let s = hvc_step(
                    LinuxVcpuLoop {
                        stats: ExitStats { hvc: (l.stats.hvc + 1) as u64, ..l.stats },
                        ..l
                    },
                    syndrome,
                    is_smc,
                    *regs,
                );
                &&& *final(self) == s.after
                &&& o.actions@ == s.actions
                &&& stop_view(o.stop) == s.stop
            }),
    {
        self.stats.hvc = self.stats.hvc + 1;
        let ghost l1 = *self;
        let hvf = match self.backend {
            Backend::Hvf => true,
            Backend::Kvm => false,
        };
        let mut pc: u64 = regs.pc;
        let handled: Option<Vec<VcpuAction>> = if hvf {
            timer_patch::handle_patched_timer_hvc(syndrome, regs.rt, &mut self.vtimer)
        } else {
            None
        };
        let mut actions: Vec<VcpuAction> = Vec::new();
        match handled {
            Some(timer_actions) => {
                pc = pc_after(&timer_actions, pc);
                proof {
                    let (op, rt) = timer_patch::decode_immediate(
                        syndrome as int % 0x1_0000,
                        TimerPatchMode::Hvc,
                    )->0;
                    lemma_pc_after(op, rt, regs.rt, l1.vtimer, regs.pc);
                }
                actions = timer_actions;
            },
            None => {
                if regs.x0 == HC_READY {
                    return ExitOutcome { actions, stop: Some(VmExitReason::Ready) };
                }
                if regs.x0 == HC_EXIT {
                    return ExitOutcome { actions, stop: Some(VmExitReason::Exit(regs.x1)) };
                }
                let value: u64 = match psci::handle_psci((regs.x0 % 0x1_0000_0000) as u32) {
                    Some(PsciResult::Return(val)) => val,
                    Some(PsciResult::SystemOff) => {
                        return ExitOutcome { actions, stop: Some(VmExitReason::SystemOff) };
                    },
                    Some(PsciResult::SystemReset) => {
                        return ExitOutcome { actions, stop: Some(VmExitReason::SystemOff) };
                    },
                    None => u64::MAX,
                };
                actions.push(VcpuAction::SetReg { reg: REG_X0, value });
                assert(actions@ =~= seq![VcpuAction::SetReg { reg: REG_X0, value }]);
            },
        }
        if hvf && is_smc {
            actions.push(VcpuAction::SetReg { reg: REG_PC, value: vcpu::advance_pc(pc) });
        }
        ExitOutcome { actions, stop: None }
    }
}

/// PC once `actions` have been carried out.
pub open spec fn pc_after_actions(actions: Seq<VcpuAction>, pc: u64) -> u64
    decreases actions.len(),
{
    if actions.len() == 0 {
        pc
    } else {
        match actions.last() {
            VcpuAction::SetReg { reg, value } => if reg == REG_PC {
                value
            } else {
                pc_after_actions(actions.drop_last(), pc)
            },
            _ => pc_after_actions(actions.drop_last(), pc),
        }
    }
}

/// PC once `actions` have been carried out.
fn pc_after(actions: &Vec<VcpuAction>, pc: u64) -> (r: u64)
    ensures
        r == pc_after_actions(actions@, pc),
{
    let mut r: u64 = pc;
    let mut i: usize = 0;
    while i < actions.len()
        invariant
            i <= actions@.len(),
            r == pc_after_actions(actions@.take(i as int), pc),
        decreases actions@.len() - i,
    {
        assert(actions@.take(i + 1).drop_last() =~= actions@.take(i as int));
        if let VcpuAction::SetReg { reg, value } = actions[i] {
            if reg == REG_PC {
                r = value;
            }
        }
        i = i + 1;
    }
    assert(actions@.take(i as int) =~= actions@);
    r
}

/// The two ways of saying where a timer access leaves PC agree.
proof fn lemma_pc_after(
    op: timer_patch::TimerOp,
    rt: u32,
    rt_value: u64,
    t: VirtualTimer,
    pc: u64,
)
    ensures
        pc_after_actions(timer_patch::timer_actions(op, rt, rt_value, t), pc)
            == timer_patch::pc_after_access(op, rt, rt_value, t, pc),
{
    reveal_with_fuel(pc_after_actions, 3);
    let acts = timer_patch::timer_actions(op, rt, rt_value, t);
    if acts.len() == 2 {
        assert(acts.drop_last() =~= seq![acts[0]]);
        assert(acts.drop_last().drop_last() =~= Seq::empty());
    } else if acts.len() == 1 {
        assert(acts.drop_last() =~= Seq::empty());
    }
}

/// Moves past the instruction that caused the exit.
fn skip_instruction(pc: u64) -> (o: ExitOutcome)
    ensures
        o.actions@ == seq![VcpuAction::SetReg { reg: REG_PC, value: vcpu::next_pc(pc) }],
        o.stop is None,
{
    let mut actions: Vec<VcpuAction> = Vec::new();
    actions.push(VcpuAction::SetReg { reg: REG_PC, value: vcpu::advance_pc(pc) });
    assert(actions@ =~= seq![VcpuAction::SetReg { reg: REG_PC, value: vcpu::next_pc(pc) }]);
    ExitOutcome { actions, stop: None }
}

// Laws

/// The exit is a trapped read of the counter.
pub open spec fn is_counter_read(backend: Backend, exit: VcpuExit) -> bool {
    match exit {
        VcpuExit::Debug { hsr } => timer_patch::decode_immediate(
            hsr as int % 0x1_0000,
            TimerPatchMode::Brk,
        ) matches Some((op, rt)) && op is CounterRead,
        VcpuExit::Hvc { syndrome, is_smc } => backend is Hvf && (timer_patch::decode_immediate(
            syndrome as int % 0x1_0000,
            TimerPatchMode::Hvc,
        ) matches Some((op, rt)) && op is CounterRead),
        _ => false,
    }
}

/// Time moves only on explicit counter reads and on WFI: any other exit
/// leaves the virtual counter where it was.
pub proof fn law_time_moves_only_on_reads_and_idle(
    l: LinuxVcpuLoop,
    exit: VcpuExit,
    regs: ExitRegs,
    ready: bool,
)
    requires
        !(exit is Wfi),
        !is_counter_read(l.backend, exit),
    ensures
        step(l, exit, regs, ready).after.vtimer.counter == l.vtimer.counter,
{
}

/// The exit is a trapped access to a timer register.
pub open spec fn is_timer_access(backend: Backend, exit: VcpuExit) -> bool {
    match exit {
        VcpuExit::Debug { hsr } => timer_patch::decode_immediate(
            hsr as int % 0x1_0000,
            TimerPatchMode::Brk,
        ) is Some,
        VcpuExit::Hvc { syndrome, is_smc } => backend is Hvf && timer_patch::decode_immediate(
            syndrome as int % 0x1_0000,
            TimerPatchMode::Hvc,
        ) is Some,
        _ => false,
    }
}

/// The deadline and the control register are the guest's own: only a trapped
/// access to a timer register changes them, and WFI moves the counter alone.
pub proof fn law_deadline_moves_only_on_timer_accesses(
    l: LinuxVcpuLoop,
    exit: VcpuExit,
    regs: ExitRegs,
    ready: bool,
)
    requires
        !is_timer_access(l.backend, exit),
    ensures
        step(l, exit, regs, ready).after.vtimer.cval == l.vtimer.cval,
        step(l, exit, regs, ready).after.vtimer.ctl == l.vtimer.ctl,
{
}

/// An MMIO access changes no register: the hypervisor has already moved PC
/// past the instruction, and moving it again would skip one.
pub proof fn law_mmio_leaves_registers_alone(
    l: LinuxVcpuLoop,
    access: MmioAccess,
    regs: ExitRegs,
    ready: bool,
    i: int,
)
    requires
        0 <= i < step(l, VcpuExit::Mmio(access), regs, ready).actions.len(),
    ensures
        step(l, VcpuExit::Mmio(access), regs, ready).actions[i] is ConsoleByte || step(
            l,
            VcpuExit::Mmio(access),
            regs,
            ready,
        ).actions[i] is CompleteMmioRead,
{
}

/// The guest asks for a snapshot, an exit or power-off by hypercall, and the
/// loop ends for that reason without touching the vCPU.
pub proof fn law_guest_ends_its_own_run(
    l: LinuxVcpuLoop,
    syndrome: u64,
    is_smc: bool,
    regs: ExitRegs,
    ready: bool,
)
    requires
        l.backend is Kvm || timer_patch::decode_immediate(
            syndrome as int % 0x1_0000,
            TimerPatchMode::Hvc,
        ) is None,
    ensures
        ({
            let s = step(l, VcpuExit::Hvc { syndrome, is_smc }, regs, ready);
            &&& s.stop == Some(StopView::Ready) <==> regs.x0 == HC_READY
            &&& s.stop == Some(StopView::Exit(regs.x1)) <==> regs.x0 == HC_EXIT
            &&& s.stop == Some(StopView::SystemOff) <==> (regs.x0 % 0x1_0000_0000
                == psci::PSCI_SYSTEM_OFF || regs.x0 % 0x1_0000_0000 == psci::PSCI_SYSTEM_RESET)
            &&& s.stop is Some ==> s.actions.len() == 0
        }),
{
    psci::law_only_off_and_reset_end_the_vm((regs.x0 % 0x1_0000_0000) as u32);
}

/// What happened at one exit: the exit, the registers that were read, and
/// whether the watched inbox held the READY sentinel.
pub struct LoopEvent {
    pub exit: VcpuExit,
    pub regs: ExitRegs,
    pub ready: bool,
}

/// A forced exit that found nothing: the host's watchdog fired.
pub open spec fn is_idle_cancel(e: LoopEvent) -> bool {
    e.exit is Canceled && !e.ready
}

/// The loop after `events`.
pub open spec fn run(l: LinuxVcpuLoop, events: Seq<LoopEvent>) -> LinuxVcpuLoop
    decreases events.len(),
{
    if events.len() == 0 {
        l
    } else {
        let e = events.last();
        step(run(l, events.drop_last()), e.exit, e.regs, e.ready).after
    }
}

/// All changes made to the vCPU and its devices over `events`, in order.
pub open spec fn transcript(l: LinuxVcpuLoop, events: Seq<LoopEvent>) -> Seq<VcpuAction>
    decreases events.len(),
{
    if events.len() == 0 {
        Seq::empty()
    } else {
        let e = events.last();
        transcript(l, events.drop_last()) + step(
            run(l, events.drop_last()),
            e.exit,
            e.regs,
            e.ready,
        ).actions
    }
}

/// `events` without the forced exits that found nothing.
pub open spec fn without_idle_cancels(events: Seq<LoopEvent>) -> Seq<LoopEvent>
    decreases events.len(),
{
    if events.len() == 0 {
        events
    } else {
        let rest = without_idle_cancels(events.drop_last());
        if is_idle_cancel(events.last()) {
            rest
        } else {
            rest.push(events.last())
        }
    }
}

/// The two loops differ at most in what they have counted.
pub open spec fn same_machine(a: LinuxVcpuLoop, b: LinuxVcpuLoop) -> bool {
    a.backend == b.backend && a.uart == b.uart && a.vtimer == b.vtimer
}

/// What is counted has no influence on what a turn of the loop does.
proof fn lemma_step_ignores_stats(a: LinuxVcpuLoop, b: LinuxVcpuLoop, e: LoopEvent)
    requires
        same_machine(a, b),
    ensures
        step(a, e.exit, e.regs, e.ready).actions == step(b, e.exit, e.regs, e.ready).actions,
        step(a, e.exit, e.regs, e.ready).stop == step(b, e.exit, e.regs, e.ready).stop,
        same_machine(
            step(a, e.exit, e.regs, e.ready).after,
            step(b, e.exit, e.regs, e.ready).after,
        ),
{
}

/// Determinism: when the watchdog, which runs on the host's clock, forces the
/// vCPU out does not matter. Leaving out all forced exits that found nothing,
/// wherever they fell, gives the same changes to the vCPU in the same order
/// and the same virtual time.
pub proof fn law_forced_exits_are_invisible(l: LinuxVcpuLoop, events: Seq<LoopEvent>)
    ensures
        transcript(l, without_idle_cancels(events)) == transcript(l, events),
        same_machine(run(l, without_idle_cancels(events)), run(l, events)),
    decreases events.len(),
{
    if events.len() > 0 {
        let e = events.last();
        let rest = without_idle_cancels(events.drop_last());
        law_forced_exits_are_invisible(l, events.drop_last());
        if is_idle_cancel(e) {
            assert(transcript(l, events) =~= transcript(l, events.drop_last()));
        } else {
            assert(rest.push(e).drop_last() =~= rest);
            lemma_step_ignores_stats(run(l, rest), run(l, events.drop_last()), e);
        }
    }
}

/// What the guest writes to the UART's data register comes out on the console,
/// one byte per write, the low byte of what is written; a write anywhere else
/// does nothing. A write is never answered.
pub proof fn law_mmio_writes(l: LinuxVcpuLoop, access: MmioAccess, regs: ExitRegs, ready: bool)
    requires
        access.is_write,
        l.uart.size > 0,
    ensures
        ({
            let s = step(l, VcpuExit::Mmio(access), regs, ready);
            &&& s.stop is None
            &&& access.addr == l.uart.base_addr ==> s.actions == seq![
                VcpuAction::ConsoleByte { byte: (access.data % 256) as u8 },
            ]
            &&& access.addr != l.uart.base_addr ==> s.actions.len() == 0
        }),
{
}

/// Every MMIO read is answered, exactly once and with the length that was
/// asked for: inside the UART's range with the value of its register, anywhere
/// else with zero. Reading the flag register tells the guest that it may send.
pub proof fn law_mmio_reads(l: LinuxVcpuLoop, access: MmioAccess, regs: ExitRegs, ready: bool)
    requires
        !access.is_write,
    ensures
        ({
            let s = step(l, VcpuExit::Mmio(access), regs, ready);
            &&& s.stop is None
            &&& s.actions.len() == 1
            &&& s.actions[0] is CompleteMmioRead
            &&& s.actions[0]->len == access.len
            &&& l.uart.base_addr <= access.addr < l.uart.base_addr + l.uart.size
                ==> s.actions[0]->CompleteMmioRead_value == pl011::register_value(
                (access.addr - l.uart.base_addr) as u64,
            )
            &&& !(l.uart.base_addr <= access.addr < l.uart.base_addr + l.uart.size)
                ==> s.actions[0]->CompleteMmioRead_value == 0
            &&& l.uart.size >= 0x1000 && access.addr == l.uart.base_addr + 0x18
                ==> s.actions[0]->CompleteMmioRead_value == 0x90
        }),
{
}

/// The event is a write of `byte` to the data register of `uart`.
pub open spec fn is_console_write(e: LoopEvent, uart: Pl011, byte: u8) -> bool {
    e.exit matches VcpuExit::Mmio(access) && access.is_write && access.addr == uart.base_addr
        && access.data == byte
}

/// One byte that the guest prints.
proof fn lemma_console_write(l: LinuxVcpuLoop, e: LoopEvent, byte: u8)
    requires
        l.uart.size > 0,
        is_console_write(e, l.uart, byte),
    ensures
        step(l, e.exit, e.regs, e.ready).actions == seq![VcpuAction::ConsoleByte { byte }],
        step(l, e.exit, e.regs, e.ready).after.uart == l.uart,
        step(l, e.exit, e.regs, e.ready).after.vtimer == l.vtimer,
{
}

/// Text that the guest prints byte by byte arrives on the console as it is, in
/// order and nothing added.
pub proof fn law_console_shows_what_is_printed(
    l: LinuxVcpuLoop,
    text: Seq<u8>,
    events: Seq<LoopEvent>,
)
    requires
        l.uart.size > 0,
        events.len() == text.len(),
        forall|i: int|
            0 <= i < events.len() ==> is_console_write(#[trigger] events[i], l.uart, text[i]),
    ensures
        transcript(l, events) == text.map_values(|byte: u8| VcpuAction::ConsoleByte { byte }),
        run(l, events).uart == l.uart,
        run(l, events).vtimer == l.vtimer,
    decreases text.len(),
{
    let shown = text.map_values(|byte: u8| VcpuAction::ConsoleByte { byte });
    if text.len() > 0 {
        let rest = events.drop_last();
        let e = events.last();
        assert(is_console_write(events[events.len() - 1], l.uart, text[events.len() - 1]));
        assert forall|i: int| 0 <= i < rest.len() implies is_console_write(
            #[trigger] rest[i],
            l.uart,
            text.drop_last()[i],
        ) by {
            assert(is_console_write(events[i], l.uart, text[i]));
        }
        law_console_shows_what_is_printed(l, text.drop_last(), rest);
        lemma_console_write(run(l, rest), e, text.last());
        assert(transcript(l, events) == transcript(l, rest) + seq![
            VcpuAction::ConsoleByte { byte: text.last() },
        ]);
        assert(text.drop_last().push(text.last()) =~= text);
        assert(transcript(l, events) =~= shown);
    } else {
        assert(transcript(l, events) =~= shown);
    }
}

/// How an exit is counted: every exit once, MMIO, hypercalls, idling and forced
/// exits each under their kind, and under the timer what makes it fire or is
/// trapped for it by BRK. Nothing is counted twice or taken back.
pub proof fn law_exits_are_counted(l: LinuxVcpuLoop, exit: VcpuExit, regs: ExitRegs, ready: bool)
    requires
        l.stats.wf(),
        l.stats.exits <= EXIT_LIMIT,
    ensures
        ({
            let a = l.stats;
            let b = step(l, exit, regs, ready).after.stats;
            &&& b.exits == a.exits + 1
            &&& b.mmio == a.mmio + (if exit is Mmio {
                1int
            } else {
                0
            })
            &&& b.hvc == a.hvc + (if exit is Hvc {
                1int
            } else {
                0
            })
            &&& b.wfi == a.wfi + (if exit is Wfi {
                1int
            } else {
                0
            })
            &&& b.canceled == a.canceled + (if exit is Canceled {
                1int
            } else {
                0
            })
            &&& b.timer == a.timer + (if exit is VtimerActivated || (exit is Wfi && l.vtimer.ctl % 4
                == 1) || (exit is Debug && 0xE100 <= exit->hsr % 0x1_0000 < 0xE300) {
                1int
            } else {
                0
            })
        }),
{
    if let VcpuExit::Debug { hsr } = exit {
        timer_patch::law_immediates_keep_clear(hsr as int % 0x1_0000);
    }
}

/// The devices stay where they are: no exit moves the UART or changes the
/// hypervisor.
pub proof fn law_machine_stays(l: LinuxVcpuLoop, exit: VcpuExit, regs: ExitRegs, ready: bool)
    ensures
        step(l, exit, regs, ready).after.uart == l.uart,
        step(l, exit, regs, ready).after.backend == l.backend,
{
}

/// A hypercall is answered in x0 and the guest goes on: PSCI and SMCCC
/// functions with their own answer, what nobody knows with -1. After an HVC the
/// hypervisor has moved PC on; after an SMC on HVF the handler does so, by one
/// instruction.
pub proof fn law_hypercalls_are_answered(
    l: LinuxVcpuLoop,
    syndrome: u64,
    is_smc: bool,
    regs: ExitRegs,
    ready: bool,
    reg: u32,
    before: u64,
)
    requires
        l.backend is Kvm || !(0x100 <= syndrome % 0x1_0000 < 0x300),
        regs.x0 != HC_READY,
        regs.x0 != HC_EXIT,
        regs.x0 % 0x1_0000_0000 != 0x8400_0008,
        regs.x0 % 0x1_0000_0000 != 0x8400_0009,
    ensures
        ({
            let s = step(l, VcpuExit::Hvc { syndrome, is_smc }, regs, ready);
            &&& s.stop is None
            &&& s.after.vtimer == l.vtimer
            &&& vcpu::reg_after(s.actions, 0, before) == (match psci::psci_answer(
                (regs.x0 % 0x1_0000_0000) as u32,
            ) {
                Some(PsciResult::Return(v)) => v,
                _ => 0xFFFF_FFFF_FFFF_FFFF,
            })
            &&& vcpu::reg_after(s.actions, 31, regs.pc) == (if l.backend is Hvf && is_smc {
                vcpu::next_pc(regs.pc)
            } else {
                regs.pc
            })
            &&& reg != 0 && reg != 31 ==> vcpu::reg_after(s.actions, reg, before) == before
            &&& forall|i: int| 0 <= i < s.actions.len() ==> (#[trigger] s.actions[i]) is SetReg
        }),
{
    timer_patch::law_immediates_keep_clear(syndrome as int % 0x1_0000);
    psci::law_only_off_and_reset_end_the_vm((regs.x0 % 0x1_0000_0000) as u32);
    let s = step(l, VcpuExit::Hvc { syndrome, is_smc }, regs, ready);
    reveal_with_fuel(vcpu::reg_after, 3);
    if l.backend is Hvf && is_smc {
        assert(s.actions.drop_last() =~= seq![s.actions[0]]);
        assert(s.actions.drop_last().drop_last() =~= Seq::empty());
    } else {
        assert(s.actions.drop_last() =~= Seq::empty());
    }
}

/// The hypercall numbers that end a run, and the code that the guest gives.
pub proof fn law_run_ends_by_number(
    l: LinuxVcpuLoop,
    syndrome: u64,
    is_smc: bool,
    regs: ExitRegs,
    ready: bool,
)
    requires
        l.backend is Kvm || !(0x100 <= syndrome % 0x1_0000 < 0x300),
    ensures
        ({
            let s = step(l, VcpuExit::Hvc { syndrome, is_smc }, regs, ready);
            &&& regs.x0 == 0xFE ==> s.stop == Some(StopView::Ready)
            &&& regs.x0 == 0xFF ==> s.stop == Some(StopView::Exit(regs.x1))
            &&& s.stop is Some ==> s.actions.len() == 0 && s.after.vtimer == l.vtimer
        }),
{
    timer_patch::law_immediates_keep_clear(syndrome as int % 0x1_0000);
}

/// A trapped timer access does to the timer and to the guest's registers what
/// the instruction it stands for does, and the guest goes on behind it: after a
/// BRK (and an SMC on HVF) because the handler moves PC on by one instruction,
/// after an HVC because the hypervisor has done so.
pub proof fn law_timer_traps_are_emulated(
    l: LinuxVcpuLoop,
    exit: VcpuExit,
    regs: ExitRegs,
    ready: bool,
    op: timer_patch::TimerOp,
    rt: u32,
    before: u64,
)
    requires
        rt < 31,
        match exit {
            VcpuExit::Debug { hsr } => timer_patch::decode_immediate(
                hsr as int % 0x1_0000,
                TimerPatchMode::Brk,
            ) == Some((op, rt)),
            VcpuExit::Hvc { syndrome, is_smc } => l.backend is Hvf
                && timer_patch::decode_immediate(syndrome as int % 0x1_0000, TimerPatchMode::Hvc)
                == Some((op, rt)),
            _ => false,
        },
    ensures
        ({
            let s = step(l, exit, regs, ready);
            let effect = timer_patch::timer_effect(op, regs.rt, l.vtimer);
            &&& s.stop is None
            &&& s.after.vtimer == effect.0
            &&& vcpu::reg_after(s.actions, rt, before) == (match effect.1 {
                Some(v) => v,
                None => before,
            })
            &&& vcpu::reg_after(s.actions, 31, regs.pc) == (if exit is Debug || exit->is_smc {
                vcpu::next_pc(regs.pc)
            } else {
                regs.pc
            })
            &&& s.actions.contains(VcpuAction::RaiseInterrupt) <==> op is CounterRead
                && l.vtimer.ctl % 4 == 1 && effect.0.counter >= l.vtimer.cval
        }),
{
    let s = step(l, exit, regs, ready);
    let acts = timer_patch::timer_actions(op, rt, regs.rt, l.vtimer);
    let moved = exit is Debug || exit->is_smc;
    timer_patch::law_only_time_raises_interrupts(op, rt, regs.rt, l.vtimer);
    timer_patch::law_timer_reads(op, regs.rt, l.vtimer);
    reveal_with_fuel(vcpu::reg_after, 4);
    assert(forall|i: int| 0 <= i < acts.len() ==> s.actions[i] == acts[i]);
    if moved {
        assert(s.actions.drop_last() =~= acts);
    } else {
        assert(s.actions =~= acts);
    }
    if acts.len() == 2 {
        assert(acts.drop_last() =~= seq![acts[0]]);
        assert(acts.drop_last().drop_last() =~= Seq::empty());
    } else if acts.len() == 1 {
        assert(acts.drop_last() =~= Seq::empty());
    }
    if acts.contains(VcpuAction::RaiseInterrupt) {
        let i = choose|i: int| 0 <= i < acts.len() && acts[i] == VcpuAction::RaiseInterrupt;
        assert(s.actions[i] == VcpuAction::RaiseInterrupt);
    }
}

/// An instruction that cannot be handled is skipped: a BRK that stands for no
/// timer access, and an access that the hypervisor could not decode. Nothing
/// but PC changes.
pub proof fn law_what_is_not_understood_is_skipped(
    l: LinuxVcpuLoop,
    exit: VcpuExit,
    regs: ExitRegs,
    ready: bool,
)
    requires
        exit is UndecodableMmio || (exit is Debug && !(0xE100 <= exit->hsr % 0x1_0000 < 0xE300)),
    ensures
        ({
            let s = step(l, exit, regs, ready);
            &&& s.stop is None
            &&& s.after.vtimer == l.vtimer
            &&& s.actions.len() == 1
            &&& s.actions[0] == (VcpuAction::SetReg { reg: 31, value: vcpu::next_pc(regs.pc) })
        }),
{
    if let VcpuExit::Debug { hsr } = exit {
        timer_patch::law_immediates_keep_clear(hsr as int % 0x1_0000);
    }
}

/// While the guest waits with its timer armed, time runs to the deadline and the
/// timer interrupts it; otherwise time passes and nothing happens. Idling never
/// ends the run.
pub proof fn law_idling(l: LinuxVcpuLoop, regs: ExitRegs, ready: bool)
    ensures
        ({
            let s = step(l, VcpuExit::Wfi, regs, ready);
            &&& s.stop is None
            &&& l.vtimer.ctl % 4 == 1 ==> s.actions.len() == 1 && s.actions[0]
                == VcpuAction::RaiseInterrupt && s.after.vtimer.counter >= l.vtimer.cval
                && s.after.vtimer.counter >= l.vtimer.counter && (s.after.vtimer.counter
                == l.vtimer.counter || s.after.vtimer.counter == l.vtimer.cval)
            &&& l.vtimer.ctl % 4 != 1 ==> s.actions.len() == 0 && s.after.vtimer.counter
                != l.vtimer.counter
        }),
{
    crate::vtimer::law_idle_time(l.vtimer);
}

/// When the hypervisor's own timer fires it is masked, so that it does not fire
/// again at once, and the guest is interrupted, in this order.
pub proof fn law_hypervisor_timer(l: LinuxVcpuLoop, regs: ExitRegs, ready: bool)
    ensures
        ({
            let s = step(l, VcpuExit::VtimerActivated, regs, ready);
            &&& s.stop is None
            &&& s.after.vtimer == l.vtimer
            &&& s.actions.len() == 2
            &&& s.actions[0] == VcpuAction::SetVtimerMask { masked: true }
            &&& s.actions[1] == VcpuAction::RaiseInterrupt
        }),
{
}

/// A forced exit ends the run exactly if the guest has said that it is ready,
/// and changes nothing.
pub proof fn law_forced_exits(l: LinuxVcpuLoop, regs: ExitRegs, ready: bool)
    ensures
        ({
            let s = step(l, VcpuExit::Canceled, regs, ready);
            &&& s.actions.len() == 0
            &&& s.after.vtimer == l.vtimer
            &&& ready ==> s.stop == Some(StopView::Ready)
            &&& !ready ==> s.stop is None
        }),
{
}

/// A system register that is not emulated reads as zero into the register that
/// the instruction names (bits 9 to 5 of the syndrome, with bit 0 set for a
/// read), and writes to it are lost. On HVF the handler moves PC on.
pub proof fn law_unknown_system_registers(
    l: LinuxVcpuLoop,
    syndrome: u64,
    regs: ExitRegs,
    ready: bool,
    reg: u32,
    before: u64,
)
    requires
        reg != 31,
        (syndrome / 32) % 32 != 31,
    ensures
        ({
            let s = step(l, VcpuExit::SysRegTrap { syndrome }, regs, ready);
            &&& s.stop is None
            &&& s.after.vtimer == l.vtimer
            &&& vcpu::reg_after(s.actions, reg, before) == (if syndrome % 2 == 1 && reg == (syndrome
                / 32) % 32 {
                0
            } else {
                before
            })
            &&& vcpu::reg_after(s.actions, 31, regs.pc) == (if l.backend is Hvf {
                vcpu::next_pc(regs.pc)
            } else {
                regs.pc
            })
            &&& forall|i: int| 0 <= i < s.actions.len() ==> (#[trigger] s.actions[i]) is SetReg
        }),
{
    let s = step(l, VcpuExit::SysRegTrap { syndrome }, regs, ready);
    reveal_with_fuel(vcpu::reg_after, 3);
    if s.actions.len() == 2 {
        assert(s.actions.drop_last() =~= seq![s.actions[0]]);
        assert(s.actions.drop_last().drop_last() =~= Seq::empty());
    } else if s.actions.len() == 1 {
        assert(s.actions.drop_last() =~= Seq::empty());
    }
}

/// KVM's shutdown (1) and reset (2) events end the run as a power-off; its other
/// events do nothing.
pub proof fn law_system_events(l: LinuxVcpuLoop, event_type: u32, regs: ExitRegs, ready: bool)
    ensures
        ({
            let s = step(l, VcpuExit::SystemEvent { event_type }, regs, ready);
            &&& s.actions.len() == 0
            &&& s.after.vtimer == l.vtimer
            &&& event_type == 1 || event_type == 2 ==> s.stop == Some(StopView::SystemOff)
            &&& event_type != 1 && event_type != 2 ==> s.stop is None
        }),
{
}

/// An exit for which there is no handler ends the run with an error that names
/// its number.
pub proof fn law_unknown_exits(l: LinuxVcpuLoop, reason: u32, regs: ExitRegs, ready: bool)
    ensures
        ({
            let s = step(l, VcpuExit::Unknown(reason), regs, ready);
            &&& s.actions.len() == 0
            &&& s.after.vtimer == l.vtimer
            &&& s.stop matches Some(StopView::Error(message))
            &&& message == "unexpected VM exit reason="@ + text::decimal(reason as nat)
        }),
{
}

/// Only a hypercall, a forced exit, a system event or an exit without a handler
/// can end a run.
pub proof fn law_what_can_end_a_run(
    l: LinuxVcpuLoop,
    exit: VcpuExit,
    regs: ExitRegs,
    ready: bool,
)
    requires
        step(l, exit, regs, ready).stop is Some,
    ensures
        exit is Hvc || exit is Canceled || exit is SystemEvent || exit is Unknown,
        exit is Canceled ==> ready,
        step(l, exit, regs, ready).stop->0 is Error <==> exit is Unknown,
        step(l, exit, regs, ready).actions.len() == 0,
{
}

/// A guest starts at tick 0 with its timer off and no deadline, and nothing is
/// due before it has set one.
pub proof fn law_a_guest_starts_at_tick_zero(backend: Backend, uart: Pl011)
    ensures
        fresh_loop(backend, uart).vtimer.counter == 0,
        fresh_loop(backend, uart).vtimer.ctl == 0,
        fresh_loop(backend, uart).vtimer.cval == 0xFFFF_FFFF_FFFF_FFFF,
        !fresh_loop(backend, uart).vtimer.pending(),
        fresh_loop(backend, uart).backend == backend,
        fresh_loop(backend, uart).uart == uart,
        fresh_loop(backend, uart).stats.exits == 0,
        fresh_loop(backend, uart).stats.timer == 0,
        fresh_loop(backend, uart).stats.wf(),
{
}

/// The summary of a run says all its counts, each behind its label, and what is
/// left over wherever the counts do not exceed the exits.
pub proof fn law_summary_says_every_count(s: ExitStats)
    ensures
        ({
            let t = stats_text(s);
            &&& text::says(t, "\nVM exit stats:\n  total exits: "@, text::decimal(s.exits as nat))
            &&& text::says(t, "\n  MMIO:        "@, text::decimal(s.mmio as nat))
            &&& text::says(t, "\n  HVC/SMC:     "@, text::decimal(s.hvc as nat))
            &&& text::says(t, "\n  timer:       "@, text::decimal(s.timer as nat))
            &&& text::says(t, "\n  WFI:         "@, text::decimal(s.wfi as nat))
            &&& forall|other: nat|
                other + s.mmio + s.hvc + s.timer + s.wfi == s.exits ==> text::says(
                    t,
                    "\n  other:       "@,
                    #[trigger] text::decimal(other),
                )
        }),
{
    let t = stats_text(s);
    let none = Seq::<char>::empty();
    let p0 = "\nVM exit stats:\n  total exits: "@;
    let p1 = "\n  MMIO:        "@;
    let p2 = "\n  HVC/SMC:     "@;
    let p3 = "\n  timer:       "@;
    let p4 = "\n  WFI:         "@;
    let h0 = text::decimal(s.exits as nat);
    let h1 = text::decimal(s.mmio as nat);
    let h2 = text::decimal(s.hvc as nat);
    let h3 = text::decimal(s.timer as nat);
    let h4 = text::decimal(s.wfi as nat);
    let fits = s.mmio + s.hvc + s.timer + s.wfi <= s.exits;
    let left = (s.exits - s.mmio - s.hvc - s.timer - s.wfi) as nat;
    let rest = if fits {
        "\n  other:       "@ + text::decimal(left)
    } else {
        none
    };
    text::lemma_says(t, none, p0, h0, p1 + h1 + p2 + h2 + p3 + h3 + p4 + h4 + rest);
    text::lemma_says(t, p0 + h0, p1, h1, p2 + h2 + p3 + h3 + p4 + h4 + rest);
    text::lemma_says(t, p0 + h0 + p1 + h1, p2, h2, p3 + h3 + p4 + h4 + rest);
    text::lemma_says(t, p0 + h0 + p1 + h1 + p2 + h2, p3, h3, p4 + h4 + rest);
    text::lemma_says(t, p0 + h0 + p1 + h1 + p2 + h2 + p3 + h3, p4, h4, rest);
    if fits {
        let head = p0 + h0 + p1 + h1 + p2 + h2 + p3 + h3 + p4 + h4;
        text::lemma_says(t, head, "\n  other:       "@, text::decimal(left), none);
    }
}

} // verus!
