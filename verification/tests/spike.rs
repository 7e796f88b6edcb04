use laplace::hvf::{HV_MEMORY_EXEC, HV_MEMORY_READ, HV_MEMORY_WRITE};
use laplace::layout::PAGE_SIZE;
use laplace::registers::{SysReg, REG_CPSR, REG_PC, REG_X0};
use laplace::spike::{
    assemble, check_hv, cow_program, create_vcpu_with_state, cycles_passed, data_file,
    exceeds_target, hv_result_name, judge, marker_of, region_mapping, single_vm_confirmed,
    test_basic_hvc_trap, test_cow_fork, test_vm_creation_latency, trap_program, Region, Step,
    VcpuCensus, VcpuEvent, DATA_IPA, DATA_SIZE, MARKER, MARKER_OFFSET, MAX_VCPUS,
};
use laplace::vcpu::VcpuAction;

#[test]
fn programs_are_exact() {
    assert_eq!(trap_program(), vec![0xd2800840, 0xd4000002, 0xd2801fe0, 0xd4000002]);
    let marker_ipa = DATA_IPA + 2 * PAGE_SIZE as u64;
    assert_eq!(
        cow_program(marker_ipa),
        vec![
            0xd2800001 | (0x8000 << 5),
            0xf2a00001 | (0x5000 << 5),
            0xf9400022,
            0xd2800003 | (0xBEEF << 5),
            0xf9000023,
            0xd2800000 | (1 << 5),
            0xd4000002,
        ]
    );
    assert_eq!(assemble(&vec![0xd2800840, 0xd4000002]), [0x40, 0x08, 0x80, 0xd2, 2, 0, 0, 0xd4]);
}

#[test]
fn data_file_holds_the_marker() {
    assert_eq!(MARKER_OFFSET, 2 * PAGE_SIZE);
    assert_eq!(DATA_SIZE, 4 * PAGE_SIZE);
    let file = data_file();
    assert_eq!(file.len(), DATA_SIZE);
    assert_eq!(marker_of(&file), MARKER);
    assert_eq!(MARKER, 0xDEAD_BEEF_CAFE_BABE);
    assert_eq!(file[MARKER_OFFSET], 0xBE);
    assert_eq!(file[MARKER_OFFSET - 1], 0xAA);
    assert_eq!(file[MARKER_OFFSET + 8], 0xAA);
}

#[test]
fn scripts_clean_up_behind_them() {
    for script in [test_basic_hvc_trap(), test_cow_fork(), test_vm_creation_latency()] {
        let count = |s: Step| script.iter().filter(|x| **x == s).count();
        assert_eq!(count(Step::CreateVm), count(Step::DestroyVm));
        assert_eq!(count(Step::CreateVcpu), count(Step::DestroyVcpu));
    }
    assert_eq!(test_cow_fork().last(), Some(&Step::ExpectFile { marker: MARKER }));
}

#[test]
fn steps_are_judged() {
    assert!(judge(&Step::CreateVm, 0));
    assert!(!judge(&Step::CreateVm, 0xfae94001));
    assert!(judge(&Step::ExpectReg { reg: REG_X0, value: 0x42 }, 0x42));
    assert!(!judge(&Step::ExpectReg { reg: REG_X0, value: 0x42 }, 0));
    assert!(judge(&Step::ExpectReason { reason: 1 }, 1));
    assert!(judge(&Step::ExpectClass { ec: 0x16 }, 0x16));
    assert!(!judge(&Step::ExpectMapped { marker: MARKER }, 0xBEEF));
    assert!(!judge(&Step::ExpectFile { marker: MARKER }, 0xBEEF));
}

#[test]
fn regions_and_registers() {
    assert_eq!(region_mapping(Region::Code), (0x4000_0000, HV_MEMORY_READ | HV_MEMORY_EXEC));
    assert_eq!(region_mapping(Region::Stack), (0x4001_0000, HV_MEMORY_READ | HV_MEMORY_WRITE));
    assert_eq!(region_mapping(Region::Data), (0x5000_0000, HV_MEMORY_READ | HV_MEMORY_WRITE));
    assert_eq!(
        create_vcpu_with_state(0x4000_0000, 8, 0x4001_4000),
        vec![
            VcpuAction::SetReg { reg: REG_PC, value: 0x4000_0008 },
            VcpuAction::SetSysReg { sys_reg: SysReg::SP_EL1, value: 0x4001_4000 },
            VcpuAction::SetReg { reg: REG_CPSR, value: 0x3c4 },
            VcpuAction::SetSysReg { sys_reg: SysReg::SCTLR_EL1, value: 0x30d00800 },
        ]
    );
}

#[test]
fn return_codes_have_names() {
    assert_eq!(hv_result_name(0), "HV_SUCCESS");
    assert_eq!(hv_result_name(-1), "HV_ERROR");
    assert_eq!(check_hv(0, "x"), Ok(()));
    assert_eq!(
        check_hv(-1, "set PC"),
        Err(String::from("set PC: returned 0xffffffff (HV_ERROR)"))
    );
}

#[test]
fn latency_target() {
    assert!(!exceeds_target(500_999));
    assert!(exceeds_target(501_000));
}

#[test]
fn cycles_stop_at_the_first_failure() {
    assert_eq!(cycles_passed(&vec![0; 100]), 100);
    assert_eq!(cycles_passed(&vec![0; 200]), 100);
    assert_eq!(cycles_passed(&vec![0, 0, -1, 0]), 2);
    assert!(single_vm_confirmed(-1));
    assert!(!single_vm_confirmed(0));
}

#[test]
fn census_counts_vcpus() {
    let mut c = VcpuCensus::new();
    c.record(VcpuEvent::Created);
    c.record(VcpuEvent::Created);
    c.record(VcpuEvent::Refused { code: -5 });
    assert_eq!(c, VcpuCensus { created: 2, first_error: Some((2, -5)), done: true });
    let mut c = VcpuCensus::new();
    while !c.done {
        c.record(VcpuEvent::Created);
    }
    assert_eq!(c.created, MAX_VCPUS);
    assert_eq!(c.first_error, None);
    let mut c = VcpuCensus::new();
    c.record(VcpuEvent::Timeout);
    assert!(c.done);
}
