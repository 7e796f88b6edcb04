use laplace::bare_metal::{
    cmd_fork, cmd_fork_quiet, create_vm_with_memory, db_request_line, db_response, fault_message,
    fork_exit_code, gpa_to_host_ptr, ready_for_snapshot, run_report, BareOutcome, BareVm, Fault, FaultRegs,
    HypercallRegs, VIRTUAL_TIME_NS,
};
use laplace::guest_js::{db_reply, guest_main, js_db_query, DbQuery, GuestJob};
use laplace::hvf::{class_of, HvVcpuExit, HvVcpuExitException};
use laplace::layout::{
    GUEST_BASE, GUEST_MEM_SIZE, HC_CONSOLE, HC_DB_READ, HC_EXIT, HC_RANDOM, HC_READY, HC_TIME,
    MAILBOX_GPA, MAILBOX_OFFSET, MAILBOX_SIZE,
};
use laplace::registers::{SysReg, REG_CPSR, REG_PC};
use laplace::vcpu::VcpuAction;
use rand::{RngCore, SeedableRng};

const MEM: usize = MAILBOX_OFFSET as usize + MAILBOX_SIZE;

fn hvc() -> HvVcpuExit {
    HvVcpuExit {
        reason: 1,
        exception: HvVcpuExitException {
            syndrome: 0x16 << 26,
            virtual_address: 0,
            physical_address: 0,
        },
    }
}

fn regs(x0: u64, x1: u64, x2: u64) -> HypercallRegs {
    HypercallRegs { x0, x1, x2, x3: 0 }
}

fn answer(vm: &mut BareVm, mem: &mut [u8], r: HypercallRegs) -> u64 {
    match vm.on_exit(&hvc(), &r, mem) {
        BareOutcome::Resume { x0, .. } => x0,
        _ => panic!("the guest does not go on"),
    }
}

#[test]
fn time_stands_still() {
    let mut vm = BareVm::new(1, false);
    let mut mem = vec![0u8; MEM];
    assert_eq!(answer(&mut vm, &mut mem, regs(HC_TIME, 0, 0)), VIRTUAL_TIME_NS);
    assert_eq!(answer(&mut vm, &mut mem, regs(HC_TIME, 0, 0)), 1_700_000_000_000_000_000);
}

#[test]
fn random_numbers_are_the_chacha8_stream() {
    let mut vm = BareVm::new(0, false);
    let mut mem = vec![0u8; MEM];
    // the key stream of the all-zero key
    assert_eq!(answer(&mut vm, &mut mem, regs(HC_RANDOM, 0, 0)), 0xd640_5f89_2fef_003e);
    assert_eq!(answer(&mut vm, &mut mem, regs(HC_RANDOM, 0, 0)), 0xa1a5_091f_e8b8_5b7f);

    let mut vm = BareVm::new(0x0102_0304_0506_0708, true);
    let mut seed = [0u8; 32];
    seed[..8].copy_from_slice(&[8, 7, 6, 5, 4, 3, 2, 1]);
    let mut rng = rand_chacha::ChaCha8Rng::from_seed(seed);
    for _ in 0..100 {
        assert_eq!(answer(&mut vm, &mut mem, regs(HC_RANDOM, 0, 0)), rng.next_u64());
    }
}

#[test]
fn same_seed_same_numbers() {
    let mut a = BareVm::new(42, false);
    let mut b = BareVm::new(42, true);
    let mut c = BareVm::new(43, false);
    let mut mem = vec![0u8; MEM];
    let x = answer(&mut a, &mut mem, regs(HC_RANDOM, 0, 0));
    // other hypercalls do not move the stream
    answer(&mut b, &mut mem, regs(HC_TIME, 0, 0));
    answer(&mut b, &mut mem, regs(HC_CONSOLE, GUEST_BASE, 4));
    let y = answer(&mut b, &mut mem, regs(HC_RANDOM, 0, 0));
    let z = answer(&mut c, &mut mem, regs(HC_RANDOM, 0, 0));
    assert_eq!(x, y);
    assert_ne!(x, z);
}

#[test]
fn console_output_comes_from_guest_memory() {
    let mut vm = BareVm::new(1, false);
    let mut mem = vec![0u8; MEM];
    mem[16..21].copy_from_slice(b"hello");
    match vm.on_exit(&hvc(), &regs(HC_CONSOLE, GUEST_BASE + 16, 5), &mut mem) {
        BareOutcome::Resume { x0, console } => {
            assert_eq!(x0, 0);
            assert_eq!(console, b"hello");
        }
        _ => panic!("the guest does not go on"),
    }
    // out of range: nothing is printed
    match vm.on_exit(&hvc(), &regs(HC_CONSOLE, GUEST_BASE + MEM as u64, 1), &mut mem) {
        BareOutcome::Resume { console, .. } => assert!(console.is_empty()),
        _ => panic!("the guest does not go on"),
    }
    match vm.on_exit(&hvc(), &regs(HC_CONSOLE, GUEST_BASE + 1, u64::MAX), &mut mem) {
        BareOutcome::Resume { console, .. } => assert!(console.is_empty()),
        _ => panic!("the guest does not go on"),
    }
    let mut quiet = BareVm::new(1, true);
    match quiet.on_exit(&hvc(), &regs(HC_CONSOLE, GUEST_BASE + 16, 5), &mut mem) {
        BareOutcome::Resume { x0, console } => {
            assert_eq!(x0, 0);
            assert!(console.is_empty());
        }
        _ => panic!("the guest does not go on"),
    }
}

#[test]
fn database_answers() {
    assert_eq!(db_response(b"users"), br#"[{"id":1,"name":"Alice"},{"id":2,"name":"Bob"}]"#);
    assert_eq!(db_response(b"posts"), br#"[{"id":1,"title":"Hello World","author":"Alice"}]"#);
    assert_eq!(db_response(b"user"), b"[]");
    assert_eq!(db_response(b""), b"[]");
}

#[test]
fn queries_travel_through_the_mailbox() {
    let mut vm = BareVm::new(1, true);
    let mut mem = vec![7u8; MEM];
    let at = MAILBOX_OFFSET as usize;
    let len = match js_db_query(1, Some(b"users"), &mut mem[at..]) {
        DbQuery::Ask { hypercall, len } => {
            assert_eq!(hypercall, HC_DB_READ);
            len
        }
        _ => panic!("nothing asked"),
    };
    assert_eq!(&mem[at..at + 7], b"users\0\x07");
    let n = answer(&mut vm, &mut mem, regs(HC_DB_READ, len, 0));
    assert_eq!(n, 47);
    assert_eq!(mem[at + 47], 0);
    assert_eq!(
        db_reply(n, &mem[at..]),
        br#"[{"id":1,"name":"Alice"},{"id":2,"name":"Bob"}]"#.to_vec()
    );
    // a length that no mailbox has is no request
    assert_eq!(answer(&mut vm, &mut mem, regs(HC_DB_READ, MAILBOX_SIZE as u64 + 1, 0)), 2);
}

#[test]
fn runs_end_with_ready_or_exit() {
    let mut vm = BareVm::new(1, true);
    let mut mem = vec![0u8; MEM];
    match vm.on_exit(&hvc(), &regs(HC_READY, 5, 0), &mut mem) {
        BareOutcome::Stop { hypercall, code } => {
            assert_eq!(hypercall, HC_READY);
            assert_eq!(code, 0);
        }
        _ => panic!("the guest goes on"),
    }
    match vm.on_exit(&hvc(), &regs(HC_EXIT, 5, 0), &mut mem) {
        BareOutcome::Stop { hypercall, code } => {
            assert_eq!(hypercall, HC_EXIT);
            assert_eq!(code, 5);
        }
        _ => panic!("the guest goes on"),
    }
    assert_eq!(fork_exit_code(HC_EXIT, 3), Some(3));
    assert_eq!(fork_exit_code(HC_READY, 0), None);
    assert!(ready_for_snapshot(HC_READY));
    assert!(!ready_for_snapshot(HC_EXIT));
    assert_eq!(run_report(HC_EXIT, 7).unwrap(), "\nGuest exited with code 7");
    assert_eq!(
        run_report(HC_READY, 0).unwrap(),
        "\nGuest reached HC_READY (use 'snapshot' command to save)"
    );
    assert_eq!(run_report(HC_TIME, 0), None);
}

#[test]
fn unknown_hypercalls_fail() {
    let mut vm = BareVm::new(1, true);
    let mut mem = vec![0u8; MEM];
    assert_eq!(answer(&mut vm, &mut mem, regs(0x77, 0, 0)), u64::MAX);
}

#[test]
fn faults_stop_the_guest() {
    let mut vm = BareVm::new(1, true);
    let mut mem = vec![0u8; MEM];
    let r = HypercallRegs { x0: 0xDE, x1: 0x21 << 26, x2: 0x10, x3: 0x20 };
    let fault = match vm.on_exit(&hvc(), &r, &mut mem) {
        BareOutcome::Failed { fault } => fault,
        _ => panic!("the guest goes on"),
    };
    assert_eq!(fault, Fault::GuestException { ec: 0x21, esr: 0x21 << 26, far: 0x10, elr: 0x20 });
    let q = FaultRegs { pc: 0x40, lr: 0x50, sp: 0x60, cpacr: 0x70 };
    assert_eq!(
        fault_message(&fault, &q),
        "Guest EL1 exception: EC=0x21 ESR=0x84000000 FAR=0x10 ELR=0x20"
    );

    let mut e = hvc();
    e.exception.syndrome = 0x20 << 26;
    e.exception.physical_address = 0x99;
    let fault = match vm.on_exit(&e, &r, &mut mem) {
        BareOutcome::Failed { fault } => fault,
        _ => panic!("the guest goes on"),
    };
    assert_eq!(fault, Fault::Exception { ec: 0x20, syndrome: 0x20 << 26, ipa: 0x99 });
    assert_eq!(
        fault_message(&fault, &q),
        "Unexpected exception: EC=0x20, syndrome=0x80000000, PC=0x40, IPA=0x99, LR=0x50, SP=0x60, CPACR=0x70"
    );

    e.reason = 2;
    let fault = match vm.on_exit(&e, &r, &mut mem) {
        BareOutcome::Failed { fault } => fault,
        _ => panic!("the guest goes on"),
    };
    assert_eq!(fault, Fault::UnexpectedExit { reason: 2 });
    assert_eq!(fault_message(&fault, &q), "Unexpected VM exit: reason=2, PC=0x40");
}

#[test]
fn addresses_are_checked() {
    assert_eq!(gpa_to_host_ptr(0x4000_0010, 8, GUEST_BASE, 0x18), Some(0x10));
    assert_eq!(gpa_to_host_ptr(0x4000_0010, 9, GUEST_BASE, 0x18), None);
    assert_eq!(gpa_to_host_ptr(0x3fff_ffff, 1, GUEST_BASE, 0x18), None);
    assert_eq!(gpa_to_host_ptr(0x4000_0018, 0, GUEST_BASE, 0x18), Some(0x18));
    assert_eq!(gpa_to_host_ptr(u64::MAX, u64::MAX, GUEST_BASE, 0x18), None);
}

#[test]
fn fresh_guests_start_at_their_entry() {
    let a = create_vm_with_memory(GUEST_MEM_SIZE, GUEST_BASE);
    assert_eq!(
        a,
        vec![
            VcpuAction::SetReg { reg: REG_PC, value: 0x4000_0000 },
            VcpuAction::SetReg { reg: REG_CPSR, value: 0x3c5 },
            VcpuAction::SetSysReg { sys_reg: SysReg::SCTLR_EL1, value: 0x30d00800 },
            VcpuAction::SetSysReg { sys_reg: SysReg::CPACR_EL1, value: 3 << 20 },
            VcpuAction::SetSysReg { sys_reg: SysReg::SP_EL1, value: 0x4400_0000 },
        ]
    );
}

#[test]
fn forked_code_reaches_the_guest() {
    let mut mem = vec![1u8; MEM];
    let at = MAILBOX_OFFSET as usize;
    let vm = cmd_fork(&mut mem, 9, b"1+1").unwrap();
    assert!(!vm.quiet);
    assert_eq!(&mem[at - 1..at + 5], b"\x011+1\0\x01");
    match guest_main(&mem[at..]) {
        GuestJob::Eval { code } => assert_eq!(code, b"1+1"),
        GuestJob::Nothing { .. } => panic!("no job"),
    }
    let vm = cmd_fork_quiet(&mut mem, 9, b"").unwrap();
    assert!(vm.quiet);
    match guest_main(&mem[at..]) {
        GuestJob::Eval { .. } => panic!("a job"),
        GuestJob::Nothing { message } => assert_eq!(message, "No JS code in mailbox.\n"),
    }
    let before = mem.clone();
    assert!(cmd_fork(&mut mem, 9, &vec![b'x'; MAILBOX_SIZE]).is_none());
    assert_eq!(mem, before);
    assert_eq!(MAILBOX_GPA, GUEST_BASE + MAILBOX_OFFSET);
}

#[test]
fn database_requests_are_reported() {
    let vm = BareVm::new(1, false);
    let mut mem = vec![0u8; MEM];
    let base = MAILBOX_OFFSET as usize;
    mem[base..base + 5].copy_from_slice(b"users");
    let line = vm.report_line(&hvc(), &regs(HC_DB_READ, 5, 0), &mem);
    assert_eq!(line.as_deref(), Some("HC_DB_READ: \"users\""));
    mem[base..base + 4].copy_from_slice(b"a\"\n\\");
    let line = vm.report_line(&hvc(), &regs(HC_DB_READ, 4, 0), &mem);
    assert_eq!(line.as_deref(), Some("HC_DB_READ: \"a\\\"\\n\\\\\""));
    mem[base..base + 2].copy_from_slice("\u{e9}".as_bytes());
    let line = vm.report_line(&hvc(), &regs(HC_DB_READ, 2, 0), &mem);
    assert_eq!(line.as_deref(), Some("HC_DB_READ: \"\u{e9}\""));
    // not UTF-8, and longer than the mailbox
    let line = vm.report_line(&hvc(), &regs(HC_DB_READ, 1, 0), &mem);
    assert_eq!(line.as_deref(), Some("HC_DB_READ: \"\""));
    let line = vm.report_line(&hvc(), &regs(HC_DB_READ, MAILBOX_SIZE as u64 + 1, 0), &mem);
    assert_eq!(line.as_deref(), Some("HC_DB_READ: \"\""));
    let quiet = BareVm::new(1, true);
    assert_eq!(quiet.report_line(&hvc(), &regs(HC_DB_READ, 5, 0), &mem), None);
    assert_eq!(db_request_line("x"), "HC_DB_READ: x");
}

#[test]
fn unknown_hypercalls_are_reported() {
    let vm = BareVm::new(1, true);
    let mem = vec![0u8; MEM];
    let line = vm.report_line(&hvc(), &regs(0x5a5a, 0, 0), &mem);
    assert_eq!(line.as_deref(), Some("Unknown hypercall 0x5a5a"));
    for known in [HC_CONSOLE, HC_TIME, HC_RANDOM, HC_READY, HC_EXIT, 0xDE] {
        assert_eq!(vm.report_line(&hvc(), &regs(known, 0, 0), &mem), None);
    }
    let mut abort = hvc();
    abort.exception.syndrome = 0x24 << 26;
    assert_eq!(class_of(abort.exception.syndrome), 0x24);
    assert_eq!(vm.report_line(&abort, &regs(0x5a5a, 0, 0), &mem), None);
}
