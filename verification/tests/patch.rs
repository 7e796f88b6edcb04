use laplace::timer_patch::{
    encode_brk, encode_hvc, handle_patched_timer_brk, handle_patched_timer_hvc,
    patch_timer_reads, patched_brk_source, patched_hvc_source, TimerPatchMode, BRK_COUNTER_READ,
    BRK_CTL_READ, BRK_CVAL_WRITE, BRK_FREQ_READ, BRK_TVAL_WRITE, HVC_COUNTER_READ, HVC_CTL_WRITE,
};
use laplace::vcpu::VcpuAction;
use laplace::vtimer::{VirtualTimer, COUNTER_FREQ_HZ};

fn put(buf: &mut [u8], off: usize, insn: u32) {
    buf[off..off + 4].copy_from_slice(&insn.to_le_bytes());
}

fn get(buf: &[u8], off: usize) -> u32 {
    u32::from_le_bytes([buf[off], buf[off + 1], buf[off + 2], buf[off + 3]])
}

#[test]
fn patch_timer_reads_brk_replaces_cntvct() {
    let mut buf = vec![0u8; 16];
    let mrs_x0_cntvct: u32 = 0xd53be040;
    let nop: u32 = 0xd503201f;
    put(&mut buf, 0, mrs_x0_cntvct);
    put(&mut buf, 4, nop);
    put(&mut buf, 8, 0xd53be041); // MRS X1, CNTVCT
    put(&mut buf, 12, nop);

    let count = patch_timer_reads(&mut buf, 0, 16, TimerPatchMode::Brk);
    assert_eq!(count, 2);

    // First should be the counter read of X0
    assert_eq!(get(&buf, 0), encode_brk(BRK_COUNTER_READ + 0));
    // Second should be the counter read of X1
    assert_eq!(get(&buf, 8), encode_brk(BRK_COUNTER_READ + 1));
    // NOP should be unchanged
    assert_eq!(get(&buf, 4), nop);
}

#[test]
fn patch_timer_reads_brk_handles_msr_writes() {
    let mut buf = vec![0u8; 8];
    let msr_x2_cval: u32 = 0xd51be342; // MSR CNTV_CVAL_EL0, X2
    put(&mut buf, 0, msr_x2_cval);
    put(&mut buf, 4, 0xd503201f);

    let count = patch_timer_reads(&mut buf, 0, 8, TimerPatchMode::Brk);
    assert_eq!(count, 1);

    // Should be the CVAL write of X2
    assert_eq!(get(&buf, 0), encode_brk(BRK_CVAL_WRITE + 2));
}

#[test]
fn encode_brk_encoding() {
    // BRK #0 = 0xD4200000
    assert_eq!(encode_brk(0), 0xD4200000);
    // BRK #0x100 = 0xD4200000 | (0x100 << 5)
    assert_eq!(encode_brk(0x100), 0xD4200000 | (0x100 << 5));
}

#[test]
fn encode_hvc_encoding() {
    assert_eq!(encode_hvc(0), 0xD4000002);
    assert_eq!(encode_hvc(0x100), 0xD4000002 | (0x100 << 5));
}

#[test]
fn patching_twice_changes_nothing_more() {
    let mut buf = vec![0u8; 12];
    put(&mut buf, 0, 0xd53be043);
    put(&mut buf, 4, 0xd51be325); // MSR CNTV_CTL_EL0, X5
    put(&mut buf, 8, 0x91000400);
    assert_eq!(patch_timer_reads(&mut buf, 0, 12, TimerPatchMode::Hvc), 2);
    let once = buf.clone();
    assert_eq!(patch_timer_reads(&mut buf, 0, 12, TimerPatchMode::Hvc), 0);
    assert_eq!(buf, once);
    assert_eq!(get(&buf, 0), encode_hvc(HVC_COUNTER_READ + 3));
    assert_eq!(get(&buf, 4), encode_hvc(HVC_CTL_WRITE + 5));
    assert_eq!(get(&buf, 8), 0x91000400);
}

#[test]
fn only_the_kernel_image_is_patched() {
    let mut buf = vec![0u8; 16];
    for off in [0, 4, 8, 12] {
        put(&mut buf, off, 0xd53be040);
    }
    assert_eq!(patch_timer_reads(&mut buf, 4, 8, TimerPatchMode::Brk), 2);
    assert_eq!(get(&buf, 0), 0xd53be040);
    assert_eq!(get(&buf, 4), encode_brk(BRK_COUNTER_READ));
    assert_eq!(get(&buf, 8), encode_brk(BRK_COUNTER_READ));
    assert_eq!(get(&buf, 12), 0xd53be040);
}

#[test]
fn patched_reads_keep_their_meaning() {
    let mut vt = VirtualTimer::new();
    let hsr = (0x3c << 26) | (BRK_COUNTER_READ as u32 + 9);
    let actions = handle_patched_timer_brk(hsr, 0, 0x4000, &mut vt).unwrap();
    assert_eq!(
        actions,
        vec![
            VcpuAction::SetReg { reg: 9, value: 24 },
            VcpuAction::SetReg { reg: 31, value: 0x4004 },
        ]
    );
    assert_eq!(vt.counter, 24);
    let hsr = (0x3c << 26) | (BRK_FREQ_READ as u32 + 1);
    let actions = handle_patched_timer_brk(hsr, 0, 0, &mut vt).unwrap();
    assert_eq!(actions[0], VcpuAction::SetReg { reg: 1, value: COUNTER_FREQ_HZ });
}

#[test]
fn patched_writes_reach_the_timer() {
    let mut vt = VirtualTimer::new();
    vt.counter = 1000;
    let hsr = BRK_TVAL_WRITE as u32 + 2;
    assert_eq!(patched_brk_source(hsr), Some(2));
    handle_patched_timer_brk(hsr, 50, 0, &mut vt).unwrap();
    assert_eq!(vt.cval, 1050);
    assert_eq!(patched_brk_source(BRK_CTL_READ as u32), None);
    let syndrome = (0x16 << 26) | (HVC_CTL_WRITE as u64 + 3);
    assert_eq!(patched_hvc_source(syndrome), Some(3));
    assert_eq!(handle_patched_timer_hvc(syndrome, 1, &mut vt), Some(vec![]));
    assert_eq!(vt.ctl, 1);
}

#[test]
fn foreign_traps_are_left_alone() {
    let mut vt = VirtualTimer::new();
    // BUG() uses BRK #0x800
    assert_eq!(handle_patched_timer_brk(0x800, 0, 0, &mut vt), None);
    assert_eq!(handle_patched_timer_hvc(0x16 << 26, 0, &mut vt), None);
    assert_eq!(vt, VirtualTimer::new());
}

#[test]
fn a_second_pass_finds_nothing() {
    let mut buf = vec![0u8; 16];
    put(&mut buf, 0, 0xd53be040);
    put(&mut buf, 4, 0xd51be342);
    put(&mut buf, 8, 0xd503201f);
    put(&mut buf, 12, 0xd53be01f);
    assert_eq!(patch_timer_reads(&mut buf, 0, 16, TimerPatchMode::Hvc), 3);
    let once = buf.clone();
    assert_eq!(patch_timer_reads(&mut buf, 0, 16, TimerPatchMode::Hvc), 0);
    assert_eq!(buf, once);
}
