use laplace::layout::{GUEST_RAM_BASE, GUEST_RAM_SIZE};
use laplace::registers::{SimdReg, SysReg, SNAPSHOT_SYS_REGS};
use laplace::snapshot::{
    capture_reads, parse_meta, CpuState, RegRead, RestoreStep, Template,
};

fn state() -> CpuState {
    CpuState {
        gpr: {
            let mut g = [0u64; 35];
            for i in 0..35 {
                g[i] = (i as u64) * 0x1111;
            }
            g
        },
        sys_regs: {
            let len = SNAPSHOT_SYS_REGS.len();
            (0..len).map(|i| (i as u64) * 0x1111 + 0xAAAA).collect()
        },
        simd: {
            let mut s = [SimdReg::default(); 32];
            s[0] = SimdReg::new([1, 2, 3, 4, 5, 6, 7, 8, 9, 10, 11, 12, 13, 14, 15, 16]);
            s
        },
    }
}

#[test]
fn main_test_cpu_state_roundtrip() {
    let state = CpuState {
        gpr: {
            let mut g = [0u64; 35];
            for i in 0..35 {
                g[i] = (i as u64) * 0x1111;
            }
            g
        },
        sys_regs: {
            let len = SNAPSHOT_SYS_REGS.len();
            (0..len).map(|i| (i as u64) * 0x1111 + 0xAAAA).collect()
        },
        simd: {
            let mut s = [SimdReg::default(); 32];
            s[0] = SimdReg::new([1, 2, 3, 4, 5, 6, 7, 8, 9, 10, 11, 12, 13, 14, 15, 16]);
            s
        },
    };

    let bytes = state.to_bytes();
    let restored = CpuState::from_bytes(&bytes);

    assert_eq!(state.gpr, restored.gpr);
    assert_eq!(state.sys_regs, restored.sys_regs);
    assert_eq!(state.simd, restored.simd);
}

#[test]
fn snapshot_test_cpu_state_roundtrip() {
    let state = CpuState {
        gpr: {
            let mut g = [0u64; 35];
            for i in 0..35 {
                g[i] = (i as u64) * 0x1111;
            }
            g
        },
        sys_regs: {
            let len = SNAPSHOT_SYS_REGS.len();
            (0..len).map(|i| (i as u64) * 0x1111 + 0xAAAA).collect()
        },
        simd: {
            let mut s = [SimdReg::default(); 32];
            s[0] = SimdReg::new([1, 2, 3, 4, 5, 6, 7, 8, 9, 10, 11, 12, 13, 14, 15, 16]);
            s
        },
    };

    let bytes = state.to_bytes();
    let restored = CpuState::from_bytes(&bytes);

    assert_eq!(state.gpr, restored.gpr);
    assert_eq!(state.sys_regs, restored.sys_regs);
    assert_eq!(state.simd, restored.simd);
}

#[test]
fn state_file_layout() {
    let bytes = state().to_bytes();
    assert_eq!(bytes.len(), 35 * 8 + 4 + 38 * 8 + 32 * 16);
    assert_eq!(&bytes[8..16], &0x1111u64.to_le_bytes());
    assert_eq!(&bytes[280..284], &38u32.to_le_bytes());
    assert_eq!(&bytes[284..292], &0xAAAAu64.to_le_bytes());
    let simd = 284 + 38 * 8;
    assert_eq!(&bytes[simd..simd + 16], &[1, 2, 3, 4, 5, 6, 7, 8, 9, 10, 11, 12, 13, 14, 15, 16]);
}

#[test]
fn short_state_files_are_noticed() {
    let bytes = state().to_bytes();
    assert!(CpuState::is_complete(&bytes));
    assert!(!CpuState::is_complete(&bytes[..bytes.len() - 1]));
    assert!(!CpuState::is_complete(&bytes[..100]));
    assert!(!CpuState::is_complete(&[]));
    assert!(Template::load(&bytes[..100], "", String::new()).is_none());
}

#[test]
fn restore_writes_every_register_once() {
    let steps = state().restore();
    assert_eq!(steps.len(), 35 + 38 + 32);
    match steps[1] {
        RestoreStep::Gpr { index, value } => {
            assert_eq!(index, 1);
            assert_eq!(value, 0x1111);
        }
        _ => panic!("no general register"),
    }
    match steps[35] {
        RestoreStep::Sys { sys_reg, value } => {
            assert_eq!(sys_reg, SysReg::SCTLR_EL1);
            assert_eq!(value, 0xAAAA);
        }
        _ => panic!("no system register"),
    }
    match steps[73] {
        RestoreStep::Simd { q, bytes } => {
            assert_eq!(q, 0);
            assert_eq!(bytes[15], 16);
        }
        _ => panic!("no SIMD register"),
    }
}

#[test]
fn template_files_round_trip() {
    let t = Template::new(state(), String::from("/t/guest.mem"), GUEST_RAM_SIZE, GUEST_RAM_BASE);
    let (data, meta) = t.save();
    assert_eq!(meta, "mem_size=536870912\nguest_base=0x40000000\n");
    let u = Template::load(&data, &meta, String::from("/t/guest.mem")).unwrap();
    assert_eq!(u.mem_size, GUEST_RAM_SIZE);
    assert_eq!(u.guest_base, GUEST_RAM_BASE);
    assert_eq!(u.mem_path, "/t/guest.mem");
    assert_eq!(u.cpu_state.gpr, t.cpu_state.gpr);
    assert_eq!(u.cached_memfd(), None);
}

#[test]
fn metadata_is_read_line_by_line() {
    assert_eq!(parse_meta(""), Some((0, 0)));
    assert_eq!(parse_meta("guest_base=ff\r\nmem_size=12\r\nother=x"), Some((12, 255)));
    assert_eq!(parse_meta("mem_size=1\nmem_size=2"), Some((2, 0)));
    assert_eq!(parse_meta("mem_size=abc"), None);
    assert_eq!(parse_meta("guest_base=0x"), None);
    assert_eq!(parse_meta("guest_base=0x0x10"), Some((0, 16)));
    assert_eq!(parse_meta("guest_base=10000000000000000"), None);
}

#[test]
fn memfd_is_remembered() {
    let mut t = Template::new(state(), String::new(), 1, 2);
    assert_eq!(t.cached_memfd(), None);
    t.set_memfd(5);
    assert_eq!(t.cached_memfd(), Some(5));
}

#[test]
fn a_restore_writes_what_a_capture_reads() {
    let reads = capture_reads();
    let steps = state().restore();
    assert_eq!(reads.len(), 35 + 38 + 32);
    assert_eq!(steps.len(), reads.len());
    for (read, step) in reads.iter().zip(steps.iter()) {
        let target = match *step {
            RestoreStep::Gpr { index, .. } => RegRead::Gpr { index },
            RestoreStep::Sys { sys_reg, .. } => RegRead::Sys { sys_reg },
            RestoreStep::Simd { q, .. } => RegRead::Simd { q },
        };
        assert_eq!(*read, target);
    }
    assert_eq!(reads[34], RegRead::Gpr { index: 34 });
    assert_eq!(reads[35], RegRead::Sys { sys_reg: SNAPSHOT_SYS_REGS[0] });
    assert_eq!(reads[104], RegRead::Simd { q: 31 });
}
