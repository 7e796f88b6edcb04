use laplace::hvf::{
    check_hv, decode_data_abort, icc_reg_to_hvf, memory_flags, source_register, sys_reg_to_hvf,
    HvSimdFpUchar16, HvVcpuExit, HvVcpuExitException, VcpuHandle, HV_EXIT_REASON_CANCELED,
    HV_EXIT_REASON_EXCEPTION, HV_EXIT_REASON_UNKNOWN, HV_EXIT_REASON_VTIMER_ACTIVATED,
    HV_SYS_REG_SCTLR_EL1,
};
use laplace::kvm::{
    complete_mmio_read, decode_exit, gpr_bytes, gpr_size, gpr_to_kvm_id, reg_value, simd_to_kvm_id,
    sys_reg_read, sys_reg_to_kvm, sys_reg_write_accepted, KvmExit, EAGAIN, EINTR, ENOENT,
    KVM_REG_ARM64, KVM_REG_ARM64_SYSREG, KVM_REG_SIZE_U128, KVM_REG_SIZE_U32, KVM_REG_SIZE_U64,
};
use laplace::registers::{
    IccReg, MmioAccess, SimdReg, SysReg, VcpuExit, ICC_REGS, REG_CPSR, REG_FPCR, REG_FPSR, REG_PC,
    SNAPSHOT_SYS_REGS,
};
use laplace::vcpu::VcpuAction;

#[test]
fn simd_fp_type_layout() {
    assert_eq!(std::mem::size_of::<HvSimdFpUchar16>(), 16);
    assert_eq!(std::mem::align_of::<HvSimdFpUchar16>(), 16);
}

#[test]
fn hvf_exit_struct_layout() {
    assert_eq!(std::mem::size_of::<HvVcpuExit>(), 4 + 4 + 24);
    assert_eq!(std::mem::align_of::<HvVcpuExit>(), 8);
}

#[test]
fn simd_reg_layout() {
    assert_eq!(std::mem::size_of::<SimdReg>(), 16);
    assert_eq!(std::mem::align_of::<SimdReg>(), 16);
}

#[test]
fn snapshot_sys_regs_count() {
    // 28 base regs + 10 PAC keys = 38
    assert_eq!(SNAPSHOT_SYS_REGS.len(), 38);
}

#[test]
fn test_gpr_to_kvm_id_x0() {
    let id = gpr_to_kvm_id(0);
    // Should have ARM64 | CORE | SIZE_U64 | offset=0
    assert_ne!(id, 0);
    assert_eq!(id & KVM_REG_ARM64, KVM_REG_ARM64);
}

#[test]
fn test_gpr_to_kvm_id_pc() {
    let id_pc = gpr_to_kvm_id(REG_PC);
    let id_x0 = gpr_to_kvm_id(0);
    assert_ne!(id_pc, id_x0);
}

#[test]
fn test_sys_reg_encoding() {
    // SCTLR_EL1: Op0=3, Op1=0, CRn=1, CRm=0, Op2=0
    let id = sys_reg_to_kvm(SysReg::SCTLR_EL1);
    assert_eq!(id & KVM_REG_ARM64, KVM_REG_ARM64);
    assert_eq!(id & KVM_REG_ARM64_SYSREG, KVM_REG_ARM64_SYSREG);
}

#[test]
fn kvm_ids_are_exact() {
    assert_eq!(sys_reg_to_kvm(SysReg::SCTLR_EL1), 0x6030_0000_0013_c080);
    assert_eq!(sys_reg_to_kvm(SysReg::CSSELR_EL1), 0x6030_0000_0013_d000);
    assert_eq!(sys_reg_to_kvm(SysReg::SP_EL1), 0x6030_0000_0010_0044);
    assert_eq!(sys_reg_to_kvm(SysReg::ELR_EL1), 0x6030_0000_0010_0046);
    assert_eq!(sys_reg_to_kvm(SysReg::SPSR_EL1), 0x6030_0000_0010_0048);
    assert_eq!(sys_reg_to_kvm(SysReg::SP_EL0), 0x6030_0000_0010_003e);
    assert_eq!(gpr_to_kvm_id(0), 0x6030_0000_0010_0000);
    assert_eq!(gpr_to_kvm_id(30), 0x6030_0000_0010_003c);
    assert_eq!(gpr_to_kvm_id(REG_PC), 0x6030_0000_0010_0040);
    assert_eq!(gpr_to_kvm_id(REG_CPSR), 0x6030_0000_0010_0042);
    assert_eq!(gpr_to_kvm_id(REG_FPSR), 0x6020_0000_0010_00d4);
    assert_eq!(gpr_to_kvm_id(REG_FPCR), 0x6020_0000_0010_00d5);
    assert_eq!(simd_to_kvm_id(0), 0x6040_0000_0010_0054);
    assert_eq!(simd_to_kvm_id(31), 0x6040_0000_0010_00d0);
}

#[test]
fn kvm_numbers_are_those_of_the_bindings() {
    assert_eq!(KVM_REG_ARM64, kvm_bindings::KVM_REG_ARM64 as u64);
    assert_eq!(KVM_REG_SIZE_U32, kvm_bindings::KVM_REG_SIZE_U32 as u64);
    assert_eq!(KVM_REG_SIZE_U64, kvm_bindings::KVM_REG_SIZE_U64 as u64);
    assert_eq!(KVM_REG_SIZE_U128, kvm_bindings::KVM_REG_SIZE_U128 as u64);
    assert_eq!(ENOENT, libc::ENOENT);
    assert_eq!(EINTR, libc::EINTR);
    assert_eq!(EAGAIN, libc::EAGAIN);
}

#[test]
fn backends_agree_on_encodings() {
    for reg in SNAPSHOT_SYS_REGS {
        let core = matches!(
            reg,
            SysReg::SPSR_EL1 | SysReg::ELR_EL1 | SysReg::SP_EL0 | SysReg::SP_EL1
        );
        if !core {
            assert_eq!(sys_reg_to_kvm(reg) & 0xffff, sys_reg_to_hvf(reg) as u64);
        }
    }
    assert_eq!(sys_reg_to_hvf(SysReg::SCTLR_EL1), HV_SYS_REG_SCTLR_EL1);
    assert_eq!(sys_reg_to_hvf(SysReg::CSSELR_EL1), 0xd000);
    assert_eq!(sys_reg_to_hvf(SysReg::CNTHCTL_EL2), 0xe708);
}

#[test]
fn register_ids_are_distinct() {
    let mut ids: Vec<u64> = SNAPSHOT_SYS_REGS.iter().map(|&r| sys_reg_to_kvm(r)).collect();
    ids.extend((0..35).map(gpr_to_kvm_id));
    ids.sort();
    ids.dedup();
    assert_eq!(ids.len(), 38 + 35);
    let mut icc: Vec<u16> = ICC_REGS.iter().map(|&r| icc_reg_to_hvf(r)).collect();
    assert_eq!(icc[0], 0xc230);
    assert_eq!(icc_reg_to_hvf(IccReg::IGRPEN1_EL1), 0xc667);
    icc.sort();
    icc.dedup();
    assert_eq!(icc.len(), 9);
}

#[test]
fn gpr_bytes_round_trip() {
    assert_eq!(gpr_bytes(5, 0x1122_3344_5566_7788).len(), 8);
    assert_eq!(reg_value(&gpr_bytes(5, 0x1122_3344_5566_7788)), 0x1122_3344_5566_7788);
    // FPCR is a 32-bit register
    assert_eq!(gpr_bytes(REG_FPCR, 0x1122_3344_5566_7788), vec![0x88, 0x77, 0x66, 0x55]);
    assert_eq!(reg_value(&gpr_bytes(REG_FPCR, 0x1122_3344_5566_7788)), 0x5566_7788);
}

#[test]
fn unavailable_registers_read_zero() {
    assert_eq!(sys_reg_read(Ok(7)), Some(7));
    assert_eq!(sys_reg_read(Err(ENOENT)), Some(0));
    assert_eq!(sys_reg_read(Err(22)), None);
    assert!(sys_reg_write_accepted(Ok(())));
    assert!(sys_reg_write_accepted(Err(ENOENT)));
    assert!(!sys_reg_write_accepted(Err(22)));
}

#[test]
fn kvm_exits_decode() {
    let write = KvmExit::MmioWrite { addr: 0x0900_0000, data: vec![0x41, 0x01] };
    assert_eq!(
        decode_exit(&write),
        Some(VcpuExit::Mmio(MmioAccess {
            addr: 0x0900_0000,
            is_write: true,
            len: 2,
            reg: 0,
            sign_extend: false,
            data: 0x0141,
        }))
    );
    let read = KvmExit::MmioRead { addr: 0x0900_0018, len: 4 };
    assert_eq!(
        decode_exit(&read),
        Some(VcpuExit::Mmio(MmioAccess {
            addr: 0x0900_0018,
            is_write: false,
            len: 4,
            reg: 0,
            sign_extend: false,
            data: 0,
        }))
    );
    assert_eq!(decode_exit(&KvmExit::Hlt), Some(VcpuExit::Wfi));
    assert_eq!(decode_exit(&KvmExit::Other), Some(VcpuExit::Unknown(0)));
    assert_eq!(decode_exit(&KvmExit::Debug { hsr: 5 }), Some(VcpuExit::Debug { hsr: 5 }));
    assert_eq!(
        decode_exit(&KvmExit::SystemEvent { event_type: 1 }),
        Some(VcpuExit::SystemEvent { event_type: 1 })
    );
    assert_eq!(decode_exit(&KvmExit::Failed { errno: EINTR }), Some(VcpuExit::Canceled));
    assert_eq!(decode_exit(&KvmExit::Failed { errno: EAGAIN }), Some(VcpuExit::Canceled));
    assert_eq!(decode_exit(&KvmExit::Failed { errno: 14 }), None);
}

#[test]
fn kvm_mmio_answers_are_cut_to_size() {
    let mut buffer = [9u8; 8];
    complete_mmio_read(&mut buffer, 2, &[1, 2, 3, 4]);
    assert_eq!(buffer, [1, 2, 9, 9, 9, 9, 9, 9]);
    complete_mmio_read(&mut buffer, 4, &[7]);
    assert_eq!(buffer, [7, 2, 9, 9, 9, 9, 9, 9]);
}

fn data_abort(isv: bool, sas: u64, sse: bool, srt: u64, wnr: bool) -> u64 {
    (0x24 << 26)
        | ((isv as u64) << 24)
        | (sas << 22)
        | ((sse as u64) << 21)
        | (srt << 16)
        | ((wnr as u64) << 6)
}

fn exit(reason: u32, syndrome: u64, ipa: u64) -> HvVcpuExit {
    HvVcpuExit {
        reason,
        exception: HvVcpuExitException { syndrome, virtual_address: 0, physical_address: ipa },
    }
}

#[test]
fn data_aborts_decode() {
    assert_eq!(decode_data_abort(data_abort(false, 2, false, 3, true), 0x1000), None);
    assert_eq!(
        decode_data_abort(data_abort(true, 2, true, 3, false), 0x1000),
        Some(MmioAccess {
            addr: 0x1000,
            is_write: false,
            len: 4,
            reg: 3,
            sign_extend: true,
            data: 0,
        })
    );
    assert_eq!(decode_data_abort(data_abort(true, 3, false, 31, true), 0).unwrap().len, 8);
    assert_eq!(decode_data_abort(data_abort(true, 1, false, 31, true), 0).unwrap().len, 2);
    assert_eq!(decode_data_abort(data_abort(true, 0, false, 31, true), 0).unwrap().len, 1);
    assert_eq!(source_register(data_abort(true, 0, false, 17, true)), 17);
}

#[test]
fn hvf_exits_decode() {
    let mut v = VcpuHandle::new();
    let (e, a) = v.run(&exit(HV_EXIT_REASON_EXCEPTION, 0x16 << 26, 0), 0, 0x100);
    assert_eq!(e, VcpuExit::Hvc { syndrome: 0x16 << 26, is_smc: false });
    assert!(a.is_empty());
    let (e, _) = v.run(&exit(HV_EXIT_REASON_EXCEPTION, 0x17 << 26, 0), 0, 0x100);
    assert_eq!(e, VcpuExit::Hvc { syndrome: 0x17 << 26, is_smc: true });
    let (e, _) = v.run(&exit(HV_EXIT_REASON_EXCEPTION, 0x01 << 26, 0), 0, 0x100);
    assert_eq!(e, VcpuExit::Wfi);
    let (e, _) = v.run(&exit(HV_EXIT_REASON_EXCEPTION, 0x18 << 26, 0), 0, 0x100);
    assert_eq!(e, VcpuExit::SysRegTrap { syndrome: 0x18 << 26 });
    let (e, _) = v.run(&exit(HV_EXIT_REASON_EXCEPTION, 0x3c << 26, 0), 0, 0x100);
    assert_eq!(e, VcpuExit::Unknown(0x3c));
    let (e, a) = v.run(&exit(HV_EXIT_REASON_EXCEPTION, 0x24 << 26, 0x77), 0, 0x100);
    assert_eq!(e, VcpuExit::UndecodableMmio { syndrome: 0x24 << 26, ipa: 0x77 });
    assert!(a.is_empty());
    let (e, _) = v.run(&exit(HV_EXIT_REASON_VTIMER_ACTIVATED, 0, 0), 0, 0);
    assert_eq!(e, VcpuExit::VtimerActivated);
    let (e, _) = v.run(&exit(HV_EXIT_REASON_CANCELED, 0, 0), 0, 0);
    assert_eq!(e, VcpuExit::Canceled);
    let (e, _) = v.run(&exit(HV_EXIT_REASON_UNKNOWN, 0, 0), 0, 0);
    assert_eq!(e, VcpuExit::Unknown(3));
    assert_eq!(v, VcpuHandle::new());
}

#[test]
fn hvf_mmio_writes_carry_the_register() {
    let mut v = VcpuHandle::new();
    let s = data_abort(true, 0, false, 4, true);
    let (e, a) = v.run(&exit(HV_EXIT_REASON_EXCEPTION, s, 0x0900_0000), 0x41, 0x100);
    match e {
        VcpuExit::Mmio(m) => {
            assert_eq!(m.data, 0x41);
            assert_eq!(m.addr, 0x0900_0000);
            assert!(m.is_write);
        }
        _ => panic!("no MMIO"),
    }
    assert_eq!(a, vec![VcpuAction::SetReg { reg: REG_PC, value: 0x104 }]);
    // the zero register holds zero
    let s = data_abort(true, 0, false, 31, true);
    let (e, _) = v.run(&exit(HV_EXIT_REASON_EXCEPTION, s, 0), 0x41, 0);
    match e {
        VcpuExit::Mmio(m) => assert_eq!(m.data, 0),
        _ => panic!("no MMIO"),
    }
    assert_eq!(v, VcpuHandle::new());
}

#[test]
fn hvf_mmio_reads_are_answered_in_the_named_register() {
    let mut v = VcpuHandle::new();
    let s = data_abort(true, 0, true, 7, false);
    v.run(&exit(HV_EXIT_REASON_EXCEPTION, s, 0), 0, 0);
    // LDRSB of 0x80
    assert_eq!(
        v.complete_mmio_read(&[0x80]),
        vec![VcpuAction::SetReg { reg: 7, value: 0xffff_ffff_ffff_ff80 }]
    );
    assert_eq!(v.complete_mmio_read(&[0x7f]), vec![VcpuAction::SetReg { reg: 7, value: 0x7f }]);
    let s = data_abort(true, 2, true, 8, false);
    v.run(&exit(HV_EXIT_REASON_EXCEPTION, s, 0), 0, 0);
    assert_eq!(
        v.complete_mmio_read(&[0, 0, 0, 0x90]),
        vec![VcpuAction::SetReg { reg: 8, value: 0xffff_ffff_9000_0000 }]
    );
    let s = data_abort(true, 1, true, 8, false);
    v.run(&exit(HV_EXIT_REASON_EXCEPTION, s, 0), 0, 0);
    assert_eq!(
        v.complete_mmio_read(&[0x01, 0x80]),
        vec![VcpuAction::SetReg { reg: 8, value: 0xffff_ffff_ffff_8001 }]
    );
    let s = data_abort(true, 2, false, 8, false);
    v.run(&exit(HV_EXIT_REASON_EXCEPTION, s, 0), 0, 0);
    assert_eq!(
        v.complete_mmio_read(&[0, 0, 0, 0x90]),
        vec![VcpuAction::SetReg { reg: 8, value: 0x9000_0000 }]
    );
    // XZR discards
    let s = data_abort(true, 2, false, 31, false);
    v.run(&exit(HV_EXIT_REASON_EXCEPTION, s, 0), 0, 0);
    assert!(v.complete_mmio_read(&[1, 2, 3, 4]).is_empty());
}

#[test]
fn hvf_errors_name_call_and_code() {
    assert_eq!(check_hv(0, "hv_vm_create"), Ok(()));
    // HV_ERROR is 0xfae94001
    assert_eq!(
        check_hv(0xfae9_4001u32 as i32, "hv_vm_map"),
        Err(String::from("hv_vm_map: HVF returned 0xfae94001"))
    );
    assert_eq!(check_hv(16, "x"), Err(String::from("x: HVF returned 0x10")));
    assert_eq!(memory_flags(false), 3);
    assert_eq!(memory_flags(true), 7);
}

#[test]
fn general_registers_have_their_width() {
    assert_eq!(gpr_size(0), 8);
    assert_eq!(gpr_size(REG_PC), 8);
    assert_eq!(gpr_size(REG_FPCR), 4);
    assert_eq!(gpr_size(REG_FPSR), 4);
    assert_eq!(gpr_size(REG_CPSR), 8);
}
