use laplace::dtb::{build_dtb, GICD_BASE, UART_BASE};
use laplace::layout::{DTB_MAX_SIZE, GUEST_RAM_BASE, GUEST_RAM_SIZE, KERNEL_OFFSET};
use laplace::linux_boot::{
    kernel_image_size, load_kernel_and_initrd, plan_boot, setup_cpu_for_linux, BootError,
};
use laplace::registers::{SysReg, REG_CPSR, REG_PC, REG_X0, REG_X1, REG_X2, REG_X3};
use laplace::vcpu::VcpuAction;

fn be32(b: &[u8], off: usize) -> u32 {
    u32::from_be_bytes([b[off], b[off + 1], b[off + 2], b[off + 3]])
}

fn c_string(b: &[u8], off: usize) -> String {
    let end = off + b[off..].iter().position(|&c| c == 0).unwrap();
    String::from_utf8(b[off..end].to_vec()).unwrap()
}

/// Every property of a flattened device tree, with the path of its node.
fn properties(blob: &[u8]) -> Vec<(String, Vec<u8>)> {
    assert_eq!(be32(blob, 0), 0xd00d_feed);
    assert_eq!(be32(blob, 4) as usize, blob.len());
    let mut at = be32(blob, 8) as usize;
    let strings = be32(blob, 12) as usize;
    let mut path: Vec<String> = vec![];
    let mut found = vec![];
    loop {
        match be32(blob, at) {
            1 => {
                let name = c_string(blob, at + 4);
                at += 4 + (name.len() + 1 + 3) / 4 * 4;
                path.push(name);
            }
            2 => {
                path.pop();
                at += 4;
            }
            3 => {
                let len = be32(blob, at + 4) as usize;
                let name = c_string(blob, strings + be32(blob, at + 8) as usize);
                let value = blob[at + 12..at + 12 + len].to_vec();
                found.push((format!("{}/{}", path.join("/"), name), value));
                at += 12 + (len + 3) / 4 * 4;
            }
            9 => break,
            other => panic!("token {}", other),
        }
    }
    assert!(path.is_empty());
    found
}

fn value(props: &[(String, Vec<u8>)], path: &str) -> Vec<u8> {
    let hits: Vec<&(String, Vec<u8>)> = props.iter().filter(|p| p.0 == path).collect();
    assert_eq!(hits.len(), 1, "{}", path);
    hits[0].1.clone()
}

fn cells(words: &[u32]) -> Vec<u8> {
    words.iter().flat_map(|w| w.to_be_bytes()).collect()
}

fn cells64(words: &[u64]) -> Vec<u8> {
    words.iter().flat_map(|w| w.to_be_bytes()).collect()
}

#[test]
fn device_tree_describes_the_machine() {
    let blob = build_dtb(0x4000_0000, 0x2000_0000, Some(0x4400_0000), Some(0x4500_0000));
    let p = properties(&blob);
    assert_eq!(value(&p, "/compatible"), b"linux,dummy-virt\0");
    assert_eq!(value(&p, "/#address-cells"), cells(&[2]));
    assert_eq!(value(&p, "/cpus/#size-cells"), cells(&[0]));
    assert_eq!(value(&p, "/cpus/cpu@0/enable-method"), b"psci\0");
    assert_eq!(value(&p, "/memory@40000000/reg"), cells64(&[0x4000_0000, 0x2000_0000]));
    assert_eq!(value(&p, "/psci/method"), b"hvc\0");
    assert_eq!(
        value(&p, "/timer/interrupts"),
        cells(&[1, 13, 0x304, 1, 14, 0x304, 1, 11, 0x304, 1, 10, 0x304])
    );
    assert_eq!(value(&p, "/timer/always-on"), b"");
    assert_eq!(value(&p, "/timer/clock-frequency"), cells(&[24_000_000]));
    assert_eq!(
        value(&p, "/intc@8000000/reg"),
        cells64(&[GICD_BASE, 0x1_0000, 0x080A_0000, 0x20_0000])
    );
    assert_eq!(value(&p, "/pl011@9000000/compatible"), b"arm,pl011\0arm,primecell\0");
    assert_eq!(value(&p, "/pl011@9000000/reg"), cells64(&[UART_BASE, 0x1000]));
    assert_eq!(value(&p, "/pl011@9000000/interrupts"), cells(&[0, 1, 4]));
    assert_eq!(value(&p, "/chosen/stdout-path"), b"/pl011@9000000\0");
    assert_eq!(
        value(&p, "/chosen/bootargs"),
        b"earlycon=pl011,mmio32,0x09000000 nokaslr norandmaps random.trust_cpu=on nosmp clocksource=arch_sys_counter nohz=off console=ttyAMA0 lpj=50000\0"
    );
    assert_eq!(value(&p, "/chosen/linux,initrd-start"), cells64(&[0x4400_0000]));
    assert_eq!(value(&p, "/chosen/linux,initrd-end"), cells64(&[0x4500_0000]));
    assert_eq!(p.len(), 32);
}

#[test]
fn device_tree_without_initrd() {
    for (start, end) in [(None, None), (Some(1), None), (None, Some(2))] {
        let p = properties(&build_dtb(0x8000_0000, 0x1000, start, end));
        assert_eq!(p.len(), 30);
        assert_eq!(value(&p, "/memory@80000000/reg"), cells64(&[0x8000_0000, 0x1000]));
    }
}

#[test]
fn same_machine_same_tree() {
    assert_eq!(build_dtb(1, 2, None, None), build_dtb(1, 2, None, None));
    assert_ne!(build_dtb(1, 2, None, None), build_dtb(1, 3, None, None));
}

fn kernel(image_size: u64, len: usize) -> Vec<u8> {
    let mut k: Vec<u8> = (0..len).map(|i| i as u8).collect();
    k[16..24].copy_from_slice(&image_size.to_le_bytes());
    k
}

#[test]
fn kernel_initrd_and_dtb_are_placed() {
    let k = kernel(0x10_0000, 0x1000);
    let initrd = vec![0x5a; 100];
    assert_eq!(kernel_image_size(&k), 0x10_0000);
    let p = plan_boot(&k, Some(100)).unwrap().unwrap();
    assert_eq!(p.offset, KERNEL_OFFSET + 0x10_0000);
    assert_eq!(p.start, 0x4018_0000);
    assert_eq!(p.end, 0x4018_0064);

    let mut mem = vec![0u8; GUEST_RAM_SIZE];
    let loaded = load_kernel_and_initrd(&mut mem, &k, Some(&initrd)).unwrap();
    assert_eq!(loaded.kernel_entry, GUEST_RAM_BASE + 0x8_0000);
    assert_eq!(loaded.kernel_file_size, 0x1000);
    assert_eq!(loaded.ram_size, GUEST_RAM_SIZE);
    assert_eq!(&mem[KERNEL_OFFSET..KERNEL_OFFSET + 0x1000], &k[..]);
    assert_eq!(&mem[p.offset..p.offset + 100], &initrd[..]);
    let blob = build_dtb(GUEST_RAM_BASE, GUEST_RAM_SIZE as u64, Some(p.start), Some(p.end));
    let at = (loaded.dtb_addr - GUEST_RAM_BASE) as usize;
    assert_eq!(at, GUEST_RAM_SIZE - 0x4000);
    assert_eq!(&mem[at..at + blob.len()], &blob[..]);
    assert!(blob.len() <= DTB_MAX_SIZE);
}

#[test]
fn short_kernels_have_no_header() {
    assert_eq!(kernel_image_size(&[1, 2, 3]), 3);
}

#[test]
fn oversized_images_are_refused() {
    let k = kernel(0x10_0000, 64);
    assert_eq!(
        plan_boot(&k, Some(GUEST_RAM_SIZE)),
        Err(BootError::InitrdTooLarge)
    );
    let k = kernel(u64::MAX, 64);
    assert_eq!(plan_boot(&k, Some(1)), Err(BootError::InitrdTooLarge));
    assert_eq!(plan_boot(&k, None), Ok(None));
    let big = vec![0u8; GUEST_RAM_SIZE - KERNEL_OFFSET];
    assert_eq!(plan_boot(&big, None), Err(BootError::KernelTooLarge));
    assert_eq!(plan_boot(&big[1..], None), Ok(None));
}

#[test]
fn boot_registers_follow_the_protocol() {
    assert_eq!(
        setup_cpu_for_linux(0x4008_0000, 0x5fff_c000),
        vec![
            VcpuAction::SetReg { reg: REG_PC, value: 0x4008_0000 },
            VcpuAction::SetReg { reg: REG_CPSR, value: 0x3c5 },
            VcpuAction::SetReg { reg: REG_X0, value: 0x5fff_c000 },
            VcpuAction::SetReg { reg: REG_X1, value: 0 },
            VcpuAction::SetReg { reg: REG_X2, value: 0 },
            VcpuAction::SetReg { reg: REG_X3, value: 0 },
            VcpuAction::SetSysReg { sys_reg: SysReg::SCTLR_EL1, value: 0x30d00800 },
            VcpuAction::SetSysReg { sys_reg: SysReg::CPACR_EL1, value: 3 << 20 },
            VcpuAction::SetSysReg { sys_reg: SysReg::MPIDR_EL1, value: 0x8000_0000 },
        ]
    );
}
