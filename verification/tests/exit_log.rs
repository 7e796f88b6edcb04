use laplace::exit_log::{ExitLog, UNKNOWN_CALL_LINES, UNMAPPED_LINES};
use laplace::layout::{HC_EXIT, HC_READY};
use laplace::linux_loop::{exception_level, ExitStats, LinuxVcpuLoop};
use laplace::pl011::Pl011;
use laplace::registers::{MmioAccess, VcpuExit};
use laplace::vcpu::{Backend, ExitRegs};

fn new(backend: Backend) -> LinuxVcpuLoop {
    LinuxVcpuLoop::new(backend, Pl011::new(0x0900_0000))
}

fn regs(x0: u64, pc: u64) -> ExitRegs {
    ExitRegs { x0, x1: 0, pc, rt: 0 }
}

fn line(backend: Backend, exit: VcpuExit, regs: ExitRegs, ready: bool) -> Option<String> {
    ExitLog::new().line(&new(backend), &exit, &regs, ready)
}

fn mmio(addr: u64, is_write: bool) -> VcpuExit {
    VcpuExit::Mmio(MmioAccess { addr, is_write, len: 4, reg: 0, sign_extend: false, data: 0 })
}

#[test]
fn calls_are_reported() {
    let hvc = VcpuExit::Hvc { syndrome: 0, is_smc: false };
    let smc = VcpuExit::Hvc { syndrome: 0, is_smc: true };
    let kvm = Backend::Kvm;
    assert_eq!(
        line(kvm, hvc, regs(0xabcd_1234, 0), false).as_deref(),
        Some("Unknown HVC: x0=0xabcd1234")
    );
    assert_eq!(
        line(kvm, smc, regs(0x1_0000_0007, 0), false).as_deref(),
        Some("Unknown SMC: x0=0x100000007")
    );
    assert_eq!(
        line(kvm, hvc, regs(0x8400_0008, 0), false).as_deref(),
        Some("\nPSCI SYSTEM_OFF")
    );
    assert_eq!(
        line(kvm, hvc, regs(0x8400_0009, 0), false).as_deref(),
        Some("\nPSCI SYSTEM_RESET")
    );
    assert_eq!(
        line(kvm, hvc, regs(HC_READY, 0), false).as_deref(),
        Some("Guest signaled HC_READY (snapshot point)")
    );
    assert_eq!(line(kvm, hvc, regs(HC_EXIT, 0), false), None);
    assert_eq!(line(kvm, hvc, regs(0x8400_0000, 0), false), None);
    // a patched timer access on HVF, an ordinary call on KVM
    let patched = VcpuExit::Hvc { syndrome: 0x100, is_smc: false };
    assert_eq!(line(Backend::Hvf, patched, regs(0xabcd, 0), false), None);
    assert_eq!(
        line(kvm, patched, regs(0xabcd_0000, 0), false).as_deref(),
        Some("Unknown HVC: x0=0xabcd0000")
    );
}

#[test]
fn other_exits_are_reported() {
    let kvm = Backend::Kvm;
    let r = regs(0, 0x8000);
    assert_eq!(
        line(kvm, VcpuExit::Debug { hsr: 0xf200_0800 }, r, false).as_deref(),
        Some("Unexpected debug exit at PC=0x8000 HSR=0xf2000800")
    );
    assert_eq!(line(kvm, VcpuExit::Debug { hsr: 0xf200_e100 }, r, false), None);
    assert_eq!(
        line(kvm, VcpuExit::UndecodableMmio { syndrome: 0x93, ipa: 0x900 }, r, false).as_deref(),
        Some("Undecodable data abort: syndrome=0x93 IPA=0x900 PC=0x8000")
    );
    assert_eq!(
        line(kvm, VcpuExit::SysRegTrap { syndrome: 0x6230_00a1 }, r, false).as_deref(),
        Some("Trapped sys reg: ISS=0x1000a1 dir=1 Rt=x5 PC=0x8000")
    );
    assert_eq!(
        line(kvm, VcpuExit::SystemEvent { event_type: 1 }, r, false).as_deref(),
        Some("\nKVM SYSTEM_EVENT_SHUTDOWN")
    );
    assert_eq!(
        line(kvm, VcpuExit::SystemEvent { event_type: 2 }, r, false).as_deref(),
        Some("\nKVM SYSTEM_EVENT_RESET")
    );
    assert_eq!(
        line(kvm, VcpuExit::SystemEvent { event_type: 3 }, r, false).as_deref(),
        Some("Unknown KVM system event: 3")
    );
    assert_eq!(
        line(kvm, VcpuExit::Unknown(17), r, false).as_deref(),
        Some("Unexpected VM exit: reason=17 PC=0x8000")
    );
    assert_eq!(
        line(kvm, VcpuExit::Canceled, r, true).as_deref(),
        Some("Init signaled READY via inbox")
    );
    assert_eq!(line(kvm, VcpuExit::Canceled, r, false), None);
    assert_eq!(line(kvm, VcpuExit::Wfi, r, false), None);
    assert_eq!(line(kvm, VcpuExit::VtimerActivated, r, false), None);
}

#[test]
fn only_the_first_unknown_calls_are_reported() {
    let l = new(Backend::Kvm);
    let mut log = ExitLog::new();
    let hvc = VcpuExit::Hvc { syndrome: 0, is_smc: false };
    let lines = (0..25).filter(|_| log.line(&l, &hvc, &regs(0x77, 0), false).is_some()).count();
    assert_eq!(lines as u64, UNKNOWN_CALL_LINES);
    assert_eq!(log.unknown_calls, 25);
    assert_eq!(log.unmapped, 0);
}

#[test]
fn only_the_first_unmapped_accesses_are_reported() {
    let l = new(Backend::Kvm);
    let mut log = ExitLog::new();
    let r = regs(0, 0x4000);
    assert_eq!(log.line(&l, &mmio(0x0900_0000, true), &r, false), None);
    assert_eq!(
        log.line(&l, &mmio(0x0a00_0000, false), &r, false).as_deref(),
        Some("MMIO read to unmapped addr 0xa000000 (size=4, PC=0x4000)")
    );
    assert_eq!(
        log.line(&l, &mmio(0x0a00_0000, true), &r, false).as_deref(),
        Some("MMIO write to unmapped addr 0xa000000 (size=4, PC=0x4000)")
    );
    let more = (0..30).filter(|_| log.line(&l, &mmio(8, true), &r, false).is_some()).count();
    assert_eq!(more as u64 + 2, UNMAPPED_LINES);
    assert_eq!(log.unmapped, 32);
    log.unmapped = u64::MAX;
    assert_eq!(log.line(&l, &mmio(8, true), &r, false), None);
    assert_eq!(log.unmapped, 0);
}

#[test]
fn runs_are_summed_up() {
    let stats = ExitStats { exits: 10, mmio: 1, hvc: 2, timer: 3, wfi: 0, canceled: 4 };
    assert_eq!(
        stats.report(),
        "\nVM exit stats:\n  total exits: 10\n  MMIO:        1\n  HVC/SMC:     2\n  \
         timer:       3\n  WFI:         0\n  other:       4"
    );
    let idle = ExitStats { exits: 1, mmio: 0, hvc: 0, timer: 1, wfi: 1, canceled: 0 };
    assert!(idle.report().ends_with("WFI:         1"));
    assert_eq!(exception_level(0x3c5), 1);
    assert_eq!(exception_level(0x3c0), 0);
}
