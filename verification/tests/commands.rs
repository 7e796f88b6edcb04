use laplace::commands::{
    cmd_fork_linux, cmd_serve_linux, cmd_snapshot_linux, fork_output, watchdog_ticks,
    LoadedTemplate, ServeInput, ServeStep,
};
use laplace::layout::{GUEST_RAM_SIZE, KERNEL_OFFSET, LINUX_INBOX_SIZE, LINUX_SHARED_SIZE};
use laplace::linux_boot::{
    boot_report, fork_report, needs_guest_debug, patch_mode, snapshot_verdict, timer_mark,
};
use laplace::linux_loop::VmExitReason;
use laplace::mailbox::{read_inbox_str, write_outbox};
use laplace::registers::{SimdReg, SysReg};
use laplace::snapshot::{CpuState, RestoreStep};
use laplace::timer_patch::{encode_brk, TimerPatchMode, BRK_COUNTER_READ};
use laplace::vcpu::Backend;

fn state() -> CpuState {
    CpuState {
        gpr: [7; 35],
        sys_regs: (0..38).collect(),
        simd: [SimdReg::new([1; 16]); 32],
    }
}

fn template() -> LoadedTemplate {
    let mut mem = vec![0u8; GUEST_RAM_SIZE];
    mem[KERNEL_OFFSET..KERNEL_OFFSET + 4].copy_from_slice(&0xd53be040u32.to_le_bytes());
    let files = cmd_snapshot_linux(
        &VmExitReason::Ready,
        &mut mem,
        8,
        Backend::Kvm,
        false,
        state(),
        String::from("guest.mem"),
    )
    .ok()
    .unwrap();
    assert_eq!(files.patched, Some(1));
    assert_eq!(
        &mem[KERNEL_OFFSET..KERNEL_OFFSET + 4],
        &encode_brk(BRK_COUNTER_READ).to_le_bytes()
    );
    assert_eq!(files.timer_patched, "brk");
    LoadedTemplate::load(
        &files.cpu_state,
        &files.meta,
        files.timer_patched,
        String::from("guest.mem"),
    )
    .unwrap()
}

#[test]
fn a_fork_starts_where_the_snapshot_was_taken() {
    let t = template();
    assert!(t.guest_debug);
    assert_eq!(t.template.mem_size, GUEST_RAM_SIZE);
    assert_eq!(t.template.guest_base, 0x4000_0000);
    assert_eq!(t.template.cpu_state.gpr, [7; 35]);
    assert_eq!(t.template.cpu_state.sys_regs, state().sys_regs);
    assert_eq!(t.template.cpu_state.simd, state().simd);

    let mut shared = vec![0u8; LINUX_SHARED_SIZE];
    let steps = cmd_fork_linux(&t, b"1+1", &mut shared).unwrap();
    assert_eq!(steps.len(), 106);
    match steps[0] {
        RestoreStep::Sys { sys_reg, value } => {
            assert_eq!(sys_reg, SysReg::MPIDR_EL1);
            assert_eq!(value, 0x8000_0000);
        }
        _ => panic!("no MPIDR"),
    }
    assert_eq!(read_inbox_str(&shared), b"1+1");
    assert!(cmd_fork_linux(&t, &vec![b'x'; LINUX_INBOX_SIZE], &mut shared).is_none());
    assert_eq!(read_inbox_str(&shared), b"1+1");
}

#[test]
fn trapped_timers_are_not_patched() {
    let mut mem = vec![0u8; GUEST_RAM_SIZE];
    mem[KERNEL_OFFSET..KERNEL_OFFSET + 4].copy_from_slice(&0xd53be040u32.to_le_bytes());
    let files = cmd_snapshot_linux(
        &VmExitReason::Ready,
        &mut mem,
        8,
        Backend::Kvm,
        true,
        state(),
        String::from("guest.mem"),
    )
    .ok()
    .unwrap();
    assert_eq!(files.patched, None);
    assert_eq!(files.timer_patched, "none");
    assert_eq!(&mem[KERNEL_OFFSET..KERNEL_OFFSET + 4], &0xd53be040u32.to_le_bytes());
    assert!(!needs_guest_debug(files.timer_patched));
}

#[test]
fn no_snapshot_before_ready() {
    let mut mem = vec![0u8; GUEST_RAM_SIZE];
    let line = cmd_snapshot_linux(
        &VmExitReason::Exit(2),
        &mut mem,
        8,
        Backend::Kvm,
        false,
        state(),
        String::new(),
    )
    .err()
    .unwrap();
    assert_eq!(line, "VM exited with code 2 before READY");
    assert_eq!(
        snapshot_verdict(&VmExitReason::SystemOff),
        Err(String::from("VM halted before signaling READY"))
    );
    assert_eq!(
        snapshot_verdict(&VmExitReason::Error(String::from("e"))),
        Err(String::from("VM error before READY: e"))
    );
    assert_eq!(snapshot_verdict(&VmExitReason::Ready), Ok(()));
}

#[test]
fn damaged_templates_are_refused() {
    let data = state().to_bytes();
    let meta = "mem_size=1\nguest_base=0x2\n";
    assert!(LoadedTemplate::load(&data, meta, "", String::new()).is_some());
    assert!(LoadedTemplate::load(&data[1..], meta, "", String::new()).is_none());
    assert!(LoadedTemplate::load(&data, "mem_size=?", "", String::new()).is_none());
    let short = CpuState { gpr: [0; 35], sys_regs: vec![1; 37], simd: [SimdReg::default(); 32] };
    assert!(LoadedTemplate::load(&short.to_bytes(), meta, "", String::new()).is_none());
}

#[test]
fn fork_output_is_the_outbox() {
    let mut shared = vec![0u8; LINUX_SHARED_SIZE];
    write_outbox(&mut shared, b"2");
    let (report, printed) = fork_output(&VmExitReason::SystemOff, &shared);
    assert_eq!(report, None);
    assert_eq!(printed, b"2\n");
    assert_eq!(fork_report(&VmExitReason::Exit(0)), None);
    assert_eq!(fork_report(&VmExitReason::Exit(4)), Some(String::from("VM exited with code 4")));
    assert_eq!(
        fork_report(&VmExitReason::Ready),
        Some(String::from("Unexpected HC_READY in forked VM"))
    );
    assert_eq!(
        fork_report(&VmExitReason::Error(String::from("x"))),
        Some(String::from("VM error: x"))
    );
}

#[test]
fn serve_mode_runs_each_line() {
    let t = template();
    let mut shared = vec![0u8; LINUX_SHARED_SIZE];
    let step = cmd_serve_linux(&t, &ServeInput::Line(vec![]), &mut shared);
    assert!(matches!(step, ServeStep::Skip));
    let step = cmd_serve_linux(&t, &ServeInput::Line(b"1".to_vec()), &mut shared);
    match step {
        ServeStep::Run { steps } => assert_eq!(steps.len(), 106),
        _ => panic!("nothing runs"),
    }
    assert_eq!(read_inbox_str(&shared), b"1");
    let step = cmd_serve_linux(&t, &ServeInput::Closed, &mut shared);
    assert!(matches!(step, ServeStep::Stop { too_large: false }));
    let long = vec![b'x'; LINUX_INBOX_SIZE];
    let step = cmd_serve_linux(&t, &ServeInput::Line(long), &mut shared);
    assert!(matches!(step, ServeStep::Stop { too_large: true }));
}

#[test]
fn boot_reports() {
    assert_eq!(
        boot_report(&VmExitReason::Ready),
        "VM reached HC_READY (use snapshot-linux to save)"
    );
    assert_eq!(boot_report(&VmExitReason::Exit(9)), "VM exited with code 9");
    assert_eq!(boot_report(&VmExitReason::SystemOff), "VM powered off");
    assert_eq!(boot_report(&VmExitReason::Error(String::from("e"))), "VM error: e");
}

#[test]
fn timer_marks() {
    assert_eq!(timer_mark(true), "brk");
    assert_eq!(timer_mark(false), "none");
    assert!(needs_guest_debug(" brk\n"));
    assert!(!needs_guest_debug("brk brk"));
    assert!(!needs_guest_debug(""));
    assert_eq!(patch_mode(Backend::Hvf, false), Some(TimerPatchMode::Hvc));
    assert_eq!(patch_mode(Backend::Kvm, false), Some(TimerPatchMode::Brk));
    assert_eq!(patch_mode(Backend::Kvm, true), None);
}

#[test]
fn watchdogs_tick() {
    assert_eq!(watchdog_ticks(30, false), 300);
    assert_eq!(watchdog_ticks(300, true), 300_000);
    assert_eq!(watchdog_ticks(u32::MAX, true), u32::MAX as u64 * 1000);
}

#[test]
fn requests_do_not_see_each_other() {
    let t = template();
    let lines: [&[u8]; 5] = [b"globalThis.x = 1", b"", b"x", b"", b"y"];
    let mut printed: Vec<u8> = Vec::new();
    let mut runs = 0;
    for line in lines {
        let mut shared = vec![0u8; LINUX_SHARED_SIZE];
        match cmd_serve_linux(&t, &ServeInput::Line(line.to_vec()), &mut shared) {
            ServeStep::Run { steps } => {
                runs += 1;
                assert_eq!(steps.len(), 106);
                assert_eq!(&shared[..line.len()], line);
                assert!(shared[line.len()..].iter().all(|b| *b == 0));
                write_outbox(&mut shared, line);
                printed.extend(fork_output(&VmExitReason::SystemOff, &shared).1);
            }
            ServeStep::Skip => assert!(line.is_empty()),
            ServeStep::Stop { .. } => panic!("serve mode ended"),
        }
    }
    assert_eq!(runs, 3);
    assert_eq!(printed, b"globalThis.x = 1\nx\ny\n");
}
