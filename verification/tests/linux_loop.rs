use laplace::linux_loop::{
    exit_source, handle_mmio, handle_sys_reg_trap, LinuxVcpuLoop, VmExitReason, EXIT_LIMIT,
    LOG_INTERVAL,
};
use laplace::pl011::Pl011;
use laplace::psci::{handle_psci, PsciResult};
use laplace::registers::{MmioAccess, VcpuExit, REG_PC, REG_X0};
use laplace::timer_patch::{BRK_COUNTER_READ, BRK_CVAL_WRITE, HVC_CVAL_WRITE};
use laplace::vcpu::{Backend, ExitRegs, VcpuAction};

fn regs(x0: u64, x1: u64, pc: u64) -> ExitRegs {
    ExitRegs { x0, x1, pc, rt: 0 }
}

fn new(backend: Backend) -> LinuxVcpuLoop {
    LinuxVcpuLoop::new(backend, Pl011::new(0x0900_0000))
}

#[test]
fn psci_answers() {
    assert_eq!(handle_psci(0x8400_0000), Some(PsciResult::Return(0x1_0001)));
    assert_eq!(handle_psci(0x8000_0000), Some(PsciResult::Return(0x1_0002)));
    assert_eq!(handle_psci(0x8400_0008), Some(PsciResult::SystemOff));
    assert_eq!(handle_psci(0x8400_0009), Some(PsciResult::SystemReset));
    assert_eq!(handle_psci(0x8400_0003), Some(PsciResult::Return(-6i64 as u64)));
    assert_eq!(handle_psci(0xC400_0003), Some(PsciResult::Return(-6i64 as u64)));
    assert_eq!(handle_psci(0x8400_0002), Some(PsciResult::Return(-1i64 as u64)));
    assert_eq!(handle_psci(0x8400_0001), Some(PsciResult::Return(0)));
    assert_eq!(handle_psci(0x8400_0006), Some(PsciResult::Return(2)));
    assert_eq!(handle_psci(0xC400_0004), Some(PsciResult::Return(0)));
    assert_eq!(handle_psci(0x8600_FF01), Some(PsciResult::Return(-1i64 as u64)));
    // SMCCC_RET_NOT_REQUIRED
    assert_eq!(handle_psci(0x8000_8000), Some(PsciResult::Return(-2i64 as u64)));
    assert_eq!(handle_psci(0x8000_7FFF), Some(PsciResult::Return(-2i64 as u64)));
    assert_eq!(handle_psci(0xFE), None);
    assert_eq!(handle_psci(0x8400_0015), None);
}

#[test]
fn power_off_ends_the_run() {
    let mut l = new(Backend::Hvf);
    let exit = VcpuExit::Hvc { syndrome: 0x16 << 26, is_smc: false };
    let o = l.on_exit(&exit, &regs(0x8400_0008, 0, 0), false);
    assert!(matches!(o.stop, Some(VmExitReason::SystemOff)));
    assert_eq!(l.stats.exits, 1);
    assert_eq!(l.stats.hvc, 1);
}

#[test]
fn psci_version_is_returned_in_x0() {
    let mut l = new(Backend::Hvf);
    let exit = VcpuExit::Hvc { syndrome: 0x16 << 26, is_smc: false };
    let o = l.on_exit(&exit, &regs(0x8400_0000, 0, 0), false);
    assert!(o.stop.is_none());
    assert!(o.actions.contains(&VcpuAction::SetReg { reg: REG_X0, value: 0x1_0001 }));
}

#[test]
fn hypercalls_end_the_run() {
    let exit = VcpuExit::Hvc { syndrome: 0x16 << 26, is_smc: false };
    let o = new(Backend::Hvf).on_exit(&exit, &regs(0xFE, 0, 0), false);
    assert!(matches!(o.stop, Some(VmExitReason::Ready)));
    let o = new(Backend::Hvf).on_exit(&exit, &regs(0xFF, 3, 0), false);
    assert!(matches!(o.stop, Some(VmExitReason::Exit(3))));
}

#[test]
fn patched_counter_reads_move_time() {
    let mut l = new(Backend::Kvm);
    let exit = VcpuExit::Debug { hsr: BRK_COUNTER_READ as u32 + 4 };
    let o = l.on_exit(&exit, &regs(0, 0, 0x100), false);
    assert_eq!(
        o.actions,
        vec![
            VcpuAction::SetReg { reg: 4, value: 24 },
            VcpuAction::SetReg { reg: REG_PC, value: 0x104 },
        ]
    );
    assert_eq!(l.vtimer.counter, 24);
    assert_eq!(exit_source(Backend::Kvm, &exit), None);
    let write = VcpuExit::Debug { hsr: BRK_CVAL_WRITE as u32 + 6 };
    assert_eq!(exit_source(Backend::Kvm, &write), Some(6));
    let hvc = VcpuExit::Hvc { syndrome: HVC_CVAL_WRITE as u64 + 7, is_smc: false };
    assert_eq!(exit_source(Backend::Hvf, &hvc), Some(7));
    assert_eq!(exit_source(Backend::Kvm, &hvc), None);
}

#[test]
fn idling_warps_to_the_deadline() {
    let mut l = new(Backend::Kvm);
    l.vtimer.write_ctl(1);
    l.vtimer.write_cval(5000);
    let o = l.on_exit(&VcpuExit::Wfi, &regs(0, 0, 0), false);
    assert_eq!(o.actions, vec![VcpuAction::RaiseInterrupt]);
    assert_eq!(l.vtimer.counter, 5000);
    assert_eq!(l.stats.wfi, 1);
    assert_eq!(l.stats.timer, 1);
    assert_eq!(l.stats.other(), None);
}

#[test]
fn forced_exits_are_invisible() {
    let mut a = new(Backend::Kvm);
    let mut b = new(Backend::Kvm);
    let read = VcpuExit::Debug { hsr: BRK_COUNTER_READ as u32 };
    for _ in 0..5 {
        let o = b.on_exit(&VcpuExit::Canceled, &regs(0, 0, 0), false);
        assert!(o.actions.is_empty());
        assert!(o.stop.is_none());
    }
    let x = a.on_exit(&read, &regs(0, 0, 0), false);
    let y = b.on_exit(&read, &regs(0, 0, 0), false);
    assert_eq!(x.actions, y.actions);
    assert_eq!(a.vtimer, b.vtimer);
    assert_eq!(b.stats.canceled, 5);
}

#[test]
fn ready_ends_the_run_at_a_forced_exit() {
    let mut l = new(Backend::Kvm);
    let o = l.on_exit(&VcpuExit::Canceled, &regs(0, 0, 0), true);
    assert!(matches!(o.stop, Some(VmExitReason::Ready)));
}

#[test]
fn runaway_guests_are_given_up() {
    let mut l = new(Backend::Kvm);
    assert!(l.before_entry(0).stop.is_none());
    assert!(!l.before_entry(100).log);
    l.stats.exits = LOG_INTERVAL;
    assert!(l.before_entry(0).log);
    l.stats.exits = EXIT_LIMIT;
    assert!(l.before_entry(0).stop.is_none());
    l.stats.exits = EXIT_LIMIT + 1;
    match l.before_entry(0).stop {
        Some(VmExitReason::Error(e)) => assert_eq!(e, "too many exits"),
        _ => panic!("the guest goes on"),
    }
    let mut l = new(Backend::Kvm);
    assert!(!l.before_entry(0).raise_irq);
    l.vtimer.write_ctl(1);
    l.vtimer.write_cval(0);
    assert!(l.before_entry(0).raise_irq);
}

#[test]
fn mmio_reaches_the_uart() {
    let uart = Pl011::new(0x0900_0000);
    let mut access = MmioAccess {
        addr: 0x0900_0000,
        is_write: true,
        len: 1,
        reg: 0,
        sign_extend: false,
        data: 0x41,
    };
    assert_eq!(handle_mmio(&uart, &access), vec![VcpuAction::ConsoleByte { byte: 0x41 }]);
    access.is_write = false;
    access.addr = 0x0900_0018;
    access.len = 4;
    assert_eq!(
        handle_mmio(&uart, &access),
        vec![VcpuAction::CompleteMmioRead { value: 0x90, len: 4 }]
    );
    access.addr = 0x1000;
    assert_eq!(
        handle_mmio(&uart, &access),
        vec![VcpuAction::CompleteMmioRead { value: 0, len: 4 }]
    );
    access.is_write = true;
    assert!(handle_mmio(&uart, &access).is_empty());
}

#[test]
fn system_register_traps_read_zero() {
    // MRS x5: direction bit set, Rt in bits 9:5
    let read = (5 << 5) | 1;
    assert_eq!(
        handle_sys_reg_trap(Backend::Hvf, read, 0x100),
        vec![
            VcpuAction::SetReg { reg: 5, value: 0 },
            VcpuAction::SetReg { reg: REG_PC, value: 0x104 },
        ]
    );
    assert_eq!(
        handle_sys_reg_trap(Backend::Kvm, read, 0x100),
        vec![VcpuAction::SetReg { reg: 5, value: 0 }]
    );
    assert!(handle_sys_reg_trap(Backend::Kvm, 5 << 5, 0x100).is_empty());
}

#[test]
fn unknown_exits_are_errors() {
    let mut l = new(Backend::Kvm);
    let o = l.on_exit(&VcpuExit::Unknown(9), &regs(0, 0, 0), false);
    match o.stop {
        Some(VmExitReason::Error(e)) => assert_eq!(e, "unexpected VM exit reason=9"),
        _ => panic!("the guest goes on"),
    }
    let o = l.on_exit(&VcpuExit::UndecodableMmio { syndrome: 0, ipa: 0 }, &regs(0, 0, 8), false);
    assert_eq!(o.actions, vec![VcpuAction::SetReg { reg: REG_PC, value: 12 }]);
    assert!(o.stop.is_none());
}

#[test]
fn idling_leaves_the_deadline_alone() {
    let mut l = new(Backend::Kvm);
    l.vtimer.write_ctl(1);
    l.vtimer.write_cval(5_000);
    let o = l.on_exit(&VcpuExit::Wfi, &regs(0, 0, 0), false);
    assert_eq!(o.actions, vec![VcpuAction::RaiseInterrupt]);
    assert_eq!(l.vtimer.counter, 5_000);
    assert_eq!(l.vtimer.cval, 5_000);
    assert_eq!(l.vtimer.ctl, 1);
    l.on_exit(&VcpuExit::VtimerActivated, &regs(0, 0, 0), false);
    assert_eq!(l.vtimer.cval, 5_000);
    assert_eq!(l.vtimer.ctl, 1);
}
