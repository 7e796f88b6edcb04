//! What is reported of the exits of a Linux guest, for the host's log.
//!
//! Calls that nobody knows and accesses to unmapped addresses can come without
//! end, so only the first few of a process are reported.

use crate::layout::{HC_EXIT, HC_READY};
use crate::linux_loop;
use crate::linux_loop::{
    LinuxVcpuLoop, LoopEvent, KVM_SYSTEM_EVENT_RESET, KVM_SYSTEM_EVENT_SHUTDOWN,
};
use crate::psci;
use crate::psci::PsciResult;
use crate::registers::{MmioAccess, VcpuExit};
use crate::text;
use crate::timer_patch;
use crate::timer_patch::TimerPatchMode;
use crate::vcpu::{Backend, ExitRegs};
use vstd::prelude::*;

verus! {

/// How many unknown calls are reported.
pub const UNKNOWN_CALL_LINES: u64 = 10;

/// How many accesses to unmapped addresses are reported.
pub const UNMAPPED_LINES: u64 = 20;

/// What a process has seen of the exits that it reports only at first. It
/// outlives the VMs.
#[derive(Clone, Copy, Debug, PartialEq, Eq, Structural)]
pub struct ExitLog {
    /// Calls that nobody knew.
    pub unknown_calls: u64,
    /// Accesses to unmapped addresses.
    pub unmapped: u64,
}

/// `x + 1`, as a 64-bit counter holds it.
pub open spec fn next_count(x: u64) -> u64 {
    if x == u64::MAX {
        0
    } else {
        (x + 1) as u64
    }
}

/// The call is a timer access of a patched kernel.
pub open spec fn is_timer_call(l: LinuxVcpuLoop, syndrome: u64) -> bool {
    l.backend is Hvf && timer_patch::decode_immediate(
        syndrome as int % 0x1_0000,
        TimerPatchMode::Hvc,
    ) is Some
}

/// The exit is a call that nobody knows.
pub open spec fn is_unknown_call(l: LinuxVcpuLoop, exit: VcpuExit, regs: ExitRegs) -> bool {
    exit matches VcpuExit::Hvc { syndrome, is_smc } && !is_timer_call(l, syndrome) && regs.x0
        != HC_READY && regs.x0 != HC_EXIT && psci::psci_answer(
        (regs.x0 % 0x1_0000_0000) as u32,
    ) is None
}

/// The exit is an access to an address that belongs to no device.
pub open spec fn is_unmapped(l: LinuxVcpuLoop, exit: VcpuExit) -> bool {
    exit matches VcpuExit::Mmio(access) && !l.uart.spans(access.addr)
}

/// The log once `exit` has been seen.
pub open spec fn log_after(log: ExitLog, l: LinuxVcpuLoop, exit: VcpuExit, regs: ExitRegs) -> ExitLog {
    ExitLog {
        unknown_calls: if is_unknown_call(l, exit, regs) {
            next_count(log.unknown_calls)
        } else {
            log.unknown_calls
        },
        unmapped: if is_unmapped(l, exit) {
            next_count(log.unmapped)
        } else {
            log.unmapped
        },
    }
}

/// The line that reports a call, if it is reported.
pub open spec fn call_line(
    log: ExitLog,
    l: LinuxVcpuLoop,
    syndrome: u64,
    is_smc: bool,
    regs: ExitRegs,
) -> Option<Seq<char>> {
    if is_timer_call(l, syndrome) {
        None
    } else if regs.x0 == HC_READY {
        Some("Guest signaled HC_READY (snapshot point)"@)
    } else if regs.x0 == HC_EXIT {
        None
    } else {
        match psci::psci_answer((regs.x0 % 0x1_0000_0000) as u32) {
            Some(PsciResult::Return(_)) => None,
            Some(PsciResult::SystemOff) => Some("\nPSCI SYSTEM_OFF"@),
            Some(PsciResult::SystemReset) => Some("\nPSCI SYSTEM_RESET"@),
            None => if log.unknown_calls < UNKNOWN_CALL_LINES {
                Some(
                    (if is_smc {
                        "Unknown SMC: x0=0x"@
                    } else {
                        "Unknown HVC: x0=0x"@
                    }) + text::hex(regs.x0 as nat),
                )
            } else {
                None
            },
        }
    }
}

/// The line that reports an access to an unmapped address.
pub open spec fn unmapped_line(access: MmioAccess, pc: u64) -> Seq<char> {
    (if access.is_write {
        "MMIO write to unmapped addr 0x"@
    } else {
        "MMIO read to unmapped addr 0x"@
    }) + text::hex(access.addr as nat) + " (size="@ + text::decimal(access.len as nat) + ", PC=0x"@
        + text::hex(pc as nat) + ")"@
}

/// The line that reports a trapped system register access: the syndrome's 21
/// low bits, the direction (1 = read), the register and PC.
pub open spec fn sys_reg_line(syndrome: u64, pc: u64) -> Seq<char> {
    "Trapped sys reg: ISS=0x"@ + text::hex((syndrome % 0x20_0000) as nat) + " dir="@
        + text::decimal((syndrome % 2) as nat) + " Rt=x"@ + text::decimal(
        ((syndrome / 32) % 32) as nat,
    ) + " PC=0x"@ + text::hex(pc as nat)
}

/// The line that reports an exit, if it is reported.
pub open spec fn exit_line(
    log: ExitLog,
    l: LinuxVcpuLoop,
    exit: VcpuExit,
    regs: ExitRegs,
    ready: bool,
) -> Option<Seq<char>> {
    match exit {
        VcpuExit::Hvc { syndrome, is_smc } => call_line(log, l, syndrome, is_smc, regs),
        VcpuExit::Mmio(access) => if is_unmapped(l, exit) && log.unmapped < UNMAPPED_LINES {
            Some(unmapped_line(access, regs.pc))
        } else {
            None
        },
        VcpuExit::Debug { hsr } => if timer_patch::decode_immediate(
            hsr as int % 0x1_0000,
            TimerPatchMode::Brk,
        ) is Some {
            None
        } else {
            Some(
                "Unexpected debug exit at PC=0x"@ + text::hex(regs.pc as nat) + " HSR=0x"@
                    + text::hex(hsr as nat),
            )
        },
        VcpuExit::UndecodableMmio { syndrome, ipa } => Some(
            "Undecodable data abort: syndrome=0x"@ + text::hex(syndrome as nat) + " IPA=0x"@
                + text::hex(ipa as nat) + " PC=0x"@ + text::hex(regs.pc as nat),
        ),
        VcpuExit::Wfi => None,
        VcpuExit::VtimerActivated => None,
        VcpuExit::Canceled => if ready {
            Some("Init signaled READY via inbox"@)
        } else {
            None
        },
        VcpuExit::SysRegTrap { syndrome } => Some(sys_reg_line(syndrome, regs.pc)),
        VcpuExit::SystemEvent { event_type } => if event_type == KVM_SYSTEM_EVENT_SHUTDOWN {
            Some("\nKVM SYSTEM_EVENT_SHUTDOWN"@)
        } else if event_type == KVM_SYSTEM_EVENT_RESET {
            Some("\nKVM SYSTEM_EVENT_RESET"@)
        } else {
            Some("Unknown KVM system event: "@ + text::decimal(event_type as nat))
        },
        VcpuExit::Unknown(reason) => Some(
            "Unexpected VM exit: reason="@ + text::decimal(reason as nat) + " PC=0x"@ + text::hex(
                regs.pc as nat,
            ),
        ),
    }
}

/// A contract's view of an optional line.
pub open spec fn line_view(line: Option<String>) -> Option<Seq<char>> {
    match line {
        Some(s) => Some(s@),
        None => None,
    }
}

impl ExitLog {
    /// Nothing has been seen.
    pub fn new() -> (log: Self)
        ensures
            log == (ExitLog { unknown_calls: 0, unmapped: 0 }),
    {
        ExitLog { unknown_calls: 0, unmapped: 0 }
    }

    /// The line to report about an exit of the loop `l`, if any; `regs` and
    /// `ready` are those that [`LinuxVcpuLoop::on_exit`] is given.
    pub fn line(&mut self, l: &LinuxVcpuLoop, exit: &VcpuExit, regs: &ExitRegs, ready: bool) -> (line:
        Option<String>)
        ensures
            line_view(line) == exit_line(*old(self), *l, *exit, *regs, ready),
            *final(self) == log_after(*old(self), *l, *exit, *regs),
    {
        match *exit {
            VcpuExit::Hvc { syndrome, is_smc } => self.report_call(l, syndrome, is_smc, regs),
            VcpuExit::Mmio(access) => {
                if l.uart.contains(access.addr) {
                    return None;
                }
                let seen: u64 = self.unmapped;
                self.unmapped = seen.wrapping_add(1);
                if seen < UNMAPPED_LINES {
                    Some(report_unmapped(&access, regs.pc))
                } else {
                    None
                }
            },
            VcpuExit::Debug { hsr } => {
                if timer_patch::is_patched_brk(hsr) {
                    return None;
                }
                let mut s = String::from_str("Unexpected debug exit at PC=0x");
                text::push_hex(&mut s, regs.pc);
                text::push_field(&mut s, " HSR=0x", hsr as u64);
                Some(s)
            },
            VcpuExit::UndecodableMmio { syndrome, ipa } => {
                let mut s = String::from_str("Undecodable data abort: syndrome=0x");
                text::push_hex(&mut s, syndrome);
                text::push_field(&mut s, " IPA=0x", ipa);
                text::push_field(&mut s, " PC=0x", regs.pc);
                Some(s)
            },
            VcpuExit::Wfi => None,
            VcpuExit::VtimerActivated => None,
            VcpuExit::Canceled => if ready {
                Some(String::from_str("Init signaled READY via inbox"))
            } else {
                None
            },
            VcpuExit::SysRegTrap { syndrome } => {
                let mut s = String::from_str("Trapped sys reg: ISS=0x");
                text::push_hex(&mut s, syndrome % 0x20_0000);
                s.append(" dir=");
                text::push_decimal(&mut s, syndrome % 2);
                s.append(" Rt=x");
                text::push_decimal(&mut s, (syndrome / 32) % 32);
                text::push_field(&mut s, " PC=0x", regs.pc);
                Some(s)
            },
            VcpuExit::SystemEvent { event_type } => if event_type == KVM_SYSTEM_EVENT_SHUTDOWN {
                Some(String::from_str("\nKVM SYSTEM_EVENT_SHUTDOWN"))
            } else if event_type == KVM_SYSTEM_EVENT_RESET {
                Some(String::from_str("\nKVM SYSTEM_EVENT_RESET"))
            } else {
                Some(text::with_decimal("Unknown KVM system event: ", event_type as u64))
            },
            VcpuExit::Unknown(reason) => {
                let mut s = text::with_decimal("Unexpected VM exit: reason=", reason as u64);
                text::push_field(&mut s, " PC=0x", regs.pc);
                Some(s)
            },
        }
    }

    /// The line to report about an HVC or SMC, if any.
    fn report_call(&mut self, l: &LinuxVcpuLoop, syndrome: u64, is_smc: bool, regs: &ExitRegs) -> (line:
        Option<String>)
        ensures
            line_view(line) == call_line(*old(self), *l, syndrome, is_smc, *regs),
            *final(self) == log_after(
                *old(self),
                *l,
                VcpuExit::Hvc { syndrome, is_smc },
                *regs,
            ),
    {
        let timer = match l.backend {
            Backend::Hvf => timer_patch::is_patched_hvc(syndrome),
            Backend::Kvm => false,
        };
        if timer || regs.x0 == HC_EXIT {
            return None;
        }
        if regs.x0 == HC_READY {
            return Some(String::from_str("Guest signaled HC_READY (snapshot point)"));
        }
        match psci::handle_psci((regs.x0 % 0x1_0000_0000) as u32) {
            Some(PsciResult::Return(_)) => None,
            Some(PsciResult::SystemOff) => Some(String::from_str("\nPSCI SYSTEM_OFF")),
            Some(PsciResult::SystemReset) => Some(String::from_str("\nPSCI SYSTEM_RESET")),
            None => {
                let seen: u64 = self.unknown_calls;
                self.unknown_calls = seen.wrapping_add(1);
                if seen >= UNKNOWN_CALL_LINES {
                    return None;
                }
                let mut s = if is_smc {
                    String::from_str("Unknown SMC: x0=0x")
                } else {
                    String::from_str("Unknown HVC: x0=0x")
                };
                text::push_hex(&mut s, regs.x0);
                Some(s)
            },
        }
    }
}

/// The line that reports an access to an unmapped address.
fn report_unmapped(access: &MmioAccess, pc: u64) -> (s: String)
    ensures
        s@ == unmapped_line(*access, pc),
{
    let mut s = if access.is_write {
        String::from_str("MMIO write to unmapped addr 0x")
    } else {
        String::from_str("MMIO read to unmapped addr 0x")
    };
    text::push_hex(&mut s, access.addr);
    s.append(" (size=");
    text::push_decimal(&mut s, access.len as u64);
    text::push_field(&mut s, ", PC=0x", pc);
    s.append(")");
    s
}

// Laws

/// The log after `events` of the loop `l`.
pub open spec fn log_after_all(log: ExitLog, l: LinuxVcpuLoop, events: Seq<LoopEvent>) -> ExitLog
    decreases events.len(),
{
    if events.len() == 0 {
        log
    } else {
        let e = events.last();
        log_after(
            log_after_all(log, l, events.drop_last()),
            linux_loop::run(l, events.drop_last()),
            e.exit,
            e.regs,
        )
    }
}

/// How many of `events` are reported as unknown calls, and how many as
/// accesses to unmapped addresses.
pub open spec fn capped_lines(log: ExitLog, l: LinuxVcpuLoop, events: Seq<LoopEvent>) -> (nat, nat)
    decreases events.len(),
{
    if events.len() == 0 {
        (0, 0)
    } else {
        let before = capped_lines(log, l, events.drop_last());
        let seen = log_after_all(log, l, events.drop_last());
        let at = linux_loop::run(l, events.drop_last());
        let e = events.last();
        let reported = exit_line(seen, at, e.exit, e.regs, e.ready) is Some;
        (
            if is_unknown_call(at, e.exit, e.regs) && reported {
                before.0 + 1
            } else {
                before.0
            },
            if is_unmapped(at, e.exit) && reported {
                before.1 + 1
            } else {
                before.1
            },
        )
    }
}

/// The lesser of the two.
pub open spec fn at_most(x: u64, limit: u64) -> int {
    if x < limit {
        x as int
    } else {
        limit as int
    }
}

/// A process reports the first ten unknown calls and the first twenty accesses
/// to unmapped addresses, and no others, however long its guests run.
pub proof fn law_only_the_first_are_reported(log: ExitLog, l: LinuxVcpuLoop, events: Seq<LoopEvent>)
    requires
        log.unknown_calls + events.len() <= u64::MAX,
        log.unmapped + events.len() <= u64::MAX,
    ensures
        ({
            let after = log_after_all(log, l, events);
            let lines = capped_lines(log, l, events);
            &&& log.unknown_calls <= after.unknown_calls <= log.unknown_calls + events.len()
            &&& log.unmapped <= after.unmapped <= log.unmapped + events.len()
            &&& lines.0 == at_most(after.unknown_calls, UNKNOWN_CALL_LINES) - at_most(
                log.unknown_calls,
                UNKNOWN_CALL_LINES,
            )
            &&& lines.1 == at_most(after.unmapped, UNMAPPED_LINES) - at_most(
                log.unmapped,
                UNMAPPED_LINES,
            )
        }),
    decreases events.len(),
{
    if events.len() > 0 {
        law_only_the_first_are_reported(log, l, events.drop_last());
    }
}

/// Which exits are reported: hypercalls that end the run, unless by exiting,
/// READY, debug exits that stand for no timer access, trapped system registers,
/// accesses that cannot be decoded, system events and unknown exits always;
/// calls that nobody knows and accesses to unmapped addresses the first ten and
/// twenty times; idling, the timer, and what is handled never.
pub proof fn law_what_is_reported(
    log: ExitLog,
    l: LinuxVcpuLoop,
    exit: VcpuExit,
    regs: ExitRegs,
    ready: bool,
)
    ensures
        ({
            let reported = exit_line(log, l, exit, regs, ready) is Some;
            let call = (regs.x0 % 0x1_0000_0000) as u32;
            match exit {
                VcpuExit::Wfi => !reported,
                VcpuExit::VtimerActivated => !reported,
                VcpuExit::Canceled => reported == ready,
                VcpuExit::SysRegTrap { syndrome } => reported,
                VcpuExit::UndecodableMmio { syndrome, ipa } => reported,
                VcpuExit::SystemEvent { event_type } => reported,
                VcpuExit::Unknown(reason) => reported,
                VcpuExit::Debug { hsr } => reported <==> !(0xE100 <= hsr % 0x1_0000 < 0xE300),
                VcpuExit::Mmio(access) => reported <==> log.unmapped < 20 && !(l.uart.base_addr
                    <= access.addr < l.uart.base_addr + l.uart.size),
                VcpuExit::Hvc { syndrome, is_smc } => if l.backend is Hvf && 0x100 <= syndrome
                    % 0x1_0000 < 0x300 {
                    !reported
                } else {
                    reported <==> regs.x0 == 0xFE || call == 0x8400_0008 || call == 0x8400_0009 || (
                    log.unknown_calls < 10 && regs.x0 != 0xFF && psci::psci_answer(call) is None)
                },
            }
        }),
{
    if let VcpuExit::Debug { hsr } = exit {
        timer_patch::law_immediates_keep_clear(hsr as int % 0x1_0000);
    }
    if let VcpuExit::Hvc { syndrome, is_smc } = exit {
        timer_patch::law_immediates_keep_clear(syndrome as int % 0x1_0000);
        psci::law_only_off_and_reset_end_the_vm((regs.x0 % 0x1_0000_0000) as u32);
    }
}

/// What is counted for that: each unknown call and each access to an unmapped
/// address once, and nothing else.
pub proof fn law_what_is_counted(log: ExitLog, l: LinuxVcpuLoop, exit: VcpuExit, regs: ExitRegs)
    requires
        log.unknown_calls < u64::MAX,
        log.unmapped < u64::MAX,
    ensures
        ({
            let after = log_after(log, l, exit, regs);
            let call = (regs.x0 % 0x1_0000_0000) as u32;
            &&& after.unmapped == log.unmapped + (if exit is Mmio && !(l.uart.base_addr
                <= exit->Mmio_0.addr < l.uart.base_addr + l.uart.size) {
                1int
            } else {
                0
            })
            &&& after.unknown_calls == log.unknown_calls + (if exit is Hvc && !(l.backend is Hvf
                && 0x100 <= exit->Hvc_syndrome % 0x1_0000 < 0x300) && regs.x0 != 0xFE && regs.x0
                != 0xFF && psci::psci_answer(call) is None {
                1int
            } else {
                0
            })
        }),
{
    if let VcpuExit::Hvc { syndrome, is_smc } = exit {
        timer_patch::law_immediates_keep_clear(syndrome as int % 0x1_0000);
    }
}

/// The line about an access to an unmapped address says its direction, address
/// and size, and where the guest was.
pub proof fn law_unmapped_lines_say_everything(access: MmioAccess, pc: u64)
    ensures
        ({
            let t = unmapped_line(access, pc);
            &&& access.is_write ==> text::says(
                t,
                "MMIO write to unmapped addr 0x"@,
                text::hex(access.addr as nat),
            )
            &&& !access.is_write ==> text::says(
                t,
                "MMIO read to unmapped addr 0x"@,
                text::hex(access.addr as nat),
            )
            &&& text::says(t, " (size="@, text::decimal(access.len as nat))
            &&& text::says(t, ", PC=0x"@, text::hex(pc as nat))
        }),
{
    let t = unmapped_line(access, pc);
    let p0 = if access.is_write {
        "MMIO write to unmapped addr 0x"@
    } else {
        "MMIO read to unmapped addr 0x"@
    };
    let p1 = " (size="@;
    let p2 = ", PC=0x"@;
    let p3 = ")"@;
    let h0 = text::hex(access.addr as nat);
    let h1 = text::decimal(access.len as nat);
    let h2 = text::hex(pc as nat);
    text::lemma_says(t, Seq::empty(), p0, h0, p1 + h1 + p2 + h2 + p3);
    text::lemma_says(t, p0 + h0, p1, h1, p2 + h2 + p3);
    text::lemma_says(t, p0 + h0 + p1 + h1, p2, h2, p3);
}

/// The line about a trapped system register says the instruction's 21 bits of
/// the syndrome, of them the direction (bit 0) and the register (bits 9 to 5),
/// and where the guest was.
pub proof fn law_sys_reg_lines_say_everything(
    above: u64,
    between: u64,
    rt: u64,
    low: u64,
    read: bool,
    pc: u64,
)
    requires
        above < 0x400_0000,
        between < 0x800,
        rt < 32,
        low < 16,
    ensures
        ({
            let iss = between * 0x400 + rt * 32 + low * 2 + (if read {
                1int
            } else {
                0
            });
            let t = sys_reg_line((above * 0x20_0000 + iss) as u64, pc);
            &&& text::says(t, "Trapped sys reg: ISS=0x"@, text::hex(iss as nat))
            &&& text::says(
                t,
                " dir="@,
                text::decimal(
                    if read {
                        1
                    } else {
                        0
                    },
                ),
            )
            &&& text::says(t, " Rt=x"@, text::decimal(rt as nat))
            &&& text::says(t, " PC=0x"@, text::hex(pc as nat))
        }),
{
    let bit: int = if read {
        1
    } else {
        0
    };
    let tail: int = low * 2 + bit;
    let iss: int = between * 0x400 + rt * 32 + tail;
    let s: int = above * 0x20_0000 + iss;
    assert(0 <= tail < 32);
    assert(0 <= iss < 0x20_0000);
    assert(s < 0x8000_0000_0000);
    assert(s % 0x20_0000 == iss);
    assert(s % 2 == bit);
    let high: int = above * 0x1_0000 + between * 32 + rt;
    assert(s == high * 32 + tail);
    assert(s / 32 == high);
    assert(high % 32 == rt);
    let t = sys_reg_line(s as u64, pc);
    let p0 = "Trapped sys reg: ISS=0x"@;
    let p1 = " dir="@;
    let p2 = " Rt=x"@;
    let p3 = " PC=0x"@;
    let h0 = text::hex(iss as nat);
    let h1 = text::decimal(bit as nat);
    let h2 = text::decimal(rt as nat);
    let h3 = text::hex(pc as nat);
    text::lemma_says(t, Seq::empty(), p0, h0, p1 + h1 + p2 + h2 + p3 + h3);
    text::lemma_says(t, p0 + h0, p1, h1, p2 + h2 + p3 + h3);
    text::lemma_says(t, p0 + h0 + p1 + h1, p2, h2, p3 + h3);
    text::lemma_says(t, p0 + h0 + p1 + h1 + p2 + h2, p3, h3, Seq::empty());
}

/// The line about an exit says what is known about it: which call, event or
/// number it was, and where the guest was.
pub proof fn law_lines_say_what_is_known(
    log: ExitLog,
    l: LinuxVcpuLoop,
    exit: VcpuExit,
    regs: ExitRegs,
    ready: bool,
)
    requires
        exit_line(log, l, exit, regs, ready) is Some,
    ensures
        ({
            let t = exit_line(log, l, exit, regs, ready)->0;
            let call = (regs.x0 % 0x1_0000_0000) as u32;
            match exit {
                VcpuExit::Hvc { syndrome, is_smc } => {
                    &&& regs.x0 == 0xFE ==> t == "Guest signaled HC_READY (snapshot point)"@
                    &&& regs.x0 != 0xFE && call == 0x8400_0008 ==> t == "\nPSCI SYSTEM_OFF"@
                    &&& regs.x0 != 0xFE && call == 0x8400_0009 ==> t == "\nPSCI SYSTEM_RESET"@
                    &&& psci::psci_answer(call) is None && regs.x0 != 0xFE && is_smc
                        ==> text::says(t, "Unknown SMC: x0=0x"@, text::hex(regs.x0 as nat))
                    &&& psci::psci_answer(call) is None && regs.x0 != 0xFE && !is_smc
                        ==> text::says(t, "Unknown HVC: x0=0x"@, text::hex(regs.x0 as nat))
                },
                VcpuExit::Mmio(access) => t == unmapped_line(access, regs.pc),
                VcpuExit::SysRegTrap { syndrome } => t == sys_reg_line(syndrome, regs.pc),
                VcpuExit::Debug { hsr } => {
                    &&& text::says(
                        t,
                        "Unexpected debug exit at PC=0x"@,
                        text::hex(regs.pc as nat),
                    )
                    &&& text::says(t, " HSR=0x"@, text::hex(hsr as nat))
                },
                VcpuExit::UndecodableMmio { syndrome, ipa } => {
                    &&& text::says(
                        t,
                        "Undecodable data abort: syndrome=0x"@,
                        text::hex(syndrome as nat),
                    )
                    &&& text::says(t, " IPA=0x"@, text::hex(ipa as nat))
                    &&& text::says(t, " PC=0x"@, text::hex(regs.pc as nat))
                },
                VcpuExit::Unknown(reason) => {
                    &&& text::says(
                        t,
                        "Unexpected VM exit: reason="@,
                        text::decimal(reason as nat),
                    )
                    &&& text::says(t, " PC=0x"@, text::hex(regs.pc as nat))
                },
                VcpuExit::SystemEvent { event_type } => {
                    &&& event_type == 1 ==> t == "\nKVM SYSTEM_EVENT_SHUTDOWN"@
                    &&& event_type == 2 ==> t == "\nKVM SYSTEM_EVENT_RESET"@
                    &&& event_type != 1 && event_type != 2 ==> text::says(
                        t,
                        "Unknown KVM system event: "@,
                        text::decimal(event_type as nat),
                    )
                },
                VcpuExit::Canceled => t == "Init signaled READY via inbox"@,
                _ => false,
            }
        }),
{
    let t = exit_line(log, l, exit, regs, ready)->0;
    let none = Seq::<char>::empty();
    let pc = text::hex(regs.pc as nat);
    match exit {
        VcpuExit::Hvc { syndrome, is_smc } => {
            psci::law_only_off_and_reset_end_the_vm((regs.x0 % 0x1_0000_0000) as u32);
            let call = (regs.x0 % 0x1_0000_0000) as u32;
            if psci::psci_answer(call) is None && regs.x0 != 0xFE {
                let label = if is_smc {
                    "Unknown SMC: x0=0x"@
                } else {
                    "Unknown HVC: x0=0x"@
                };
                text::lemma_says(t, none, label, text::hex(regs.x0 as nat), none);
            }
        },
        VcpuExit::Debug { hsr } => {
            let p0 = "Unexpected debug exit at PC=0x"@;
            let p1 = " HSR=0x"@;
            let h1 = text::hex(hsr as nat);
            text::lemma_says(t, none, p0, pc, p1 + h1);
            text::lemma_says(t, p0 + pc, p1, h1, none);
        },
        VcpuExit::UndecodableMmio { syndrome, ipa } => {
            let p0 = "Undecodable data abort: syndrome=0x"@;
            let p1 = " IPA=0x"@;
            let p2 = " PC=0x"@;
            let h0 = text::hex(syndrome as nat);
            let h1 = text::hex(ipa as nat);
            text::lemma_says(t, none, p0, h0, p1 + h1 + p2 + pc);
            text::lemma_says(t, p0 + h0, p1, h1, p2 + pc);
            text::lemma_says(t, p0 + h0 + p1 + h1, p2, pc, none);
        },
        VcpuExit::Unknown(reason) => {
            let p0 = "Unexpected VM exit: reason="@;
            let p1 = " PC=0x"@;
            let h0 = text::decimal(reason as nat);
            text::lemma_says(t, none, p0, h0, p1 + pc);
            text::lemma_says(t, p0 + h0, p1, pc, none);
        },
        VcpuExit::SystemEvent { event_type } => {
            if event_type != 1 && event_type != 2 {
                text::lemma_says(
                    t,
                    none,
                    "Unknown KVM system event: "@,
                    text::decimal(event_type as nat),
                    none,
                );
            }
        },
        _ => {},
    }
}

} // verus!
