//! Linux kernel boot support.
//!
//! Places an ARM64 Linux kernel Image, an optional initramfs and the DTB in
//! guest memory, and says how the vCPU starts.

use crate::bytes;
use crate::dtb;
use crate::fdt;
use crate::layout;
use crate::layout::{DTB_MAX_SIZE, GUEST_RAM_BASE, GUEST_RAM_SIZE, KERNEL_OFFSET};
use crate::linux_loop::VmExitReason;
use crate::registers::SysReg;
use crate::registers::{REG_CPSR, REG_PC, REG_X0, REG_X1, REG_X2, REG_X3};
use crate::text;
use crate::timer_patch::TimerPatchMode;
use crate::vcpu;
use crate::vcpu::{Backend, VcpuAction};
use vstd::prelude::*;

verus! {

/// Why a kernel cannot be booted.
#[derive(Clone, Copy, Debug, PartialEq, Eq, Structural)]
pub enum BootError {
    /// The kernel file does not fit in guest RAM.
    KernelTooLarge,
    /// The initramfs does not fit between the kernel and the DTB.
    InitrdTooLarge,
}

/// Where the initramfs goes.
#[derive(Clone, Copy, Debug, PartialEq, Eq, Structural)]
pub struct InitrdPlacement {
    /// Offset into guest RAM.
    pub offset: usize,
    /// Guest physical address of the first byte.
    pub start: u64,
    /// Guest physical address behind the last byte.
    pub end: u64,
}

/// A kernel, an initramfs and a DTB in guest memory.
#[derive(Clone, Copy, Debug, PartialEq, Eq, Structural)]
pub struct LoadedKernel {
    pub ram_size: usize,
    pub kernel_entry: u64,
    pub dtb_addr: u64,
    /// Kernel file size in bytes (used for timer patching).
    pub kernel_file_size: usize,
}

/// The memory that the kernel takes once it runs, BSS included: what its
/// header says, or the file's length if it is too short for a header.
pub open spec fn image_size(kernel: Seq<u8>) -> nat {
    if kernel.len() >= 0x18 {
        bytes::le_value(kernel.subrange(0x10, 0x18))
    } else {
        kernel.len()
    }
}

/// Offset of the initramfs: the first page behind the running kernel.
pub open spec fn initrd_offset(kernel: Seq<u8>) -> int {
    layout::page_ceil((KERNEL_OFFSET + image_size(kernel)) as int)
}

/// The kernel file fits in guest RAM.
pub open spec fn kernel_fits(kernel: Seq<u8>) -> bool {
    KERNEL_OFFSET + kernel.len() < GUEST_RAM_SIZE
}

/// The initramfs fits between the running kernel and the DTB.
pub open spec fn initrd_fits(kernel: Seq<u8>, initrd_len: int) -> bool {
    initrd_offset(kernel) + initrd_len < GUEST_RAM_SIZE - DTB_MAX_SIZE
}

/// Where an initramfs of `len` bytes goes.
pub open spec fn placement(kernel: Seq<u8>, len: int) -> InitrdPlacement {
    InitrdPlacement {
        offset: initrd_offset(kernel) as usize,
        start: (GUEST_RAM_BASE + initrd_offset(kernel)) as u64,
        end: (GUEST_RAM_BASE + initrd_offset(kernel) + len) as u64,
    }
}

/// Offset of a DTB of `len` bytes: it ends with guest RAM, on a page boundary.
pub open spec fn dtb_offset(len: int) -> int {
    GUEST_RAM_SIZE - layout::page_ceil(len)
}

/// Guest RAM once the kernel, the initramfs and the DTB are in it.
pub open spec fn loaded_ram(
    ram: Seq<u8>,
    kernel: Seq<u8>,
    initrd: Option<Seq<u8>>,
    blob: Seq<u8>,
) -> Seq<u8> {
    let with_kernel = bytes::overlay(ram, KERNEL_OFFSET as int, kernel);
    let with_initrd = match initrd {
        Some(data) => bytes::overlay(with_kernel, initrd_offset(kernel), data),
        None => with_kernel,
    };
    bytes::overlay(with_initrd, dtb_offset(blob.len() as int), blob)
}

/// The view of an optional slice.
pub open spec fn opt_bytes(s: Option<&[u8]>) -> Option<Seq<u8>> {
    match s {
        Some(data) => Some(data@),
        None => None,
    }
}

/// The device tree that the kernel is given.
pub open spec fn boot_tokens(kernel: Seq<u8>, initrd: Option<Seq<u8>>) -> Seq<
    (u32, Seq<char>, Seq<u8>),
> {
    match initrd {
        Some(data) => {
            let p = placement(kernel, data.len() as int);
            dtb::dtb_tokens(GUEST_RAM_BASE, GUEST_RAM_SIZE as u64, Some(p.start), Some(p.end))
        },
        None => dtb::dtb_tokens(GUEST_RAM_BASE, GUEST_RAM_SIZE as u64, None, None),
    }
}

/// The memory that the kernel takes once it runs.
pub fn kernel_image_size(kernel: &[u8]) -> (size: u64)
    ensures
        size == image_size(kernel@),
{
    if kernel.len() >= 0x18 {
        bytes::read_le(kernel, 0x10, 8)
    } else {
        kernel.len() as u64
    }
}

/// Decides where the initramfs goes, if there is one.
pub fn plan_boot(kernel: &[u8], initrd_len: Option<usize>) -> (r: Result<
    Option<InitrdPlacement>,
    BootError,
>)
    ensures
        r == (if !kernel_fits(kernel@) {
            Err::<Option<InitrdPlacement>, BootError>(BootError::KernelTooLarge)
        } else {
            match initrd_len {
                None => Ok(None),
                Some(len) => if initrd_fits(kernel@, len as int) {
                    Ok(Some(placement(kernel@, len as int)))
                } else {
                    Err(BootError::InitrdTooLarge)
                },
            }
        }),
{
    if kernel.len() >= GUEST_RAM_SIZE - KERNEL_OFFSET {
        return Err(BootError::KernelTooLarge);
    }
    match initrd_len {
        None => Ok(None),
        Some(len) => {
            let size: u64 = kernel_image_size(kernel);
            let top: u64 = (GUEST_RAM_SIZE - DTB_MAX_SIZE) as u64;
            if size >= top {
                return Err(BootError::InitrdTooLarge);
            }
            let offset: usize = layout::page_align(KERNEL_OFFSET + size as usize);
            if offset as u64 >= top || len as u64 >= top - offset as u64 {
                return Err(BootError::InitrdTooLarge);
            }
            let start: u64 = GUEST_RAM_BASE + offset as u64;
            Ok(Some(InitrdPlacement { offset, start, end: start + len as u64 }))
        },
    }
}

/// Copies the kernel, the initramfs and a DTB to their places in guest RAM.
pub fn install(
    mem: &mut [u8],
    kernel: &[u8],
    initrd: Option<&[u8]>,
    blob: &[u8],
) -> (loaded: LoadedKernel)
    requires
        old(mem)@.len() == GUEST_RAM_SIZE,
        kernel_fits(kernel@),
        initrd matches Some(data) ==> initrd_fits(kernel@, data@.len() as int),
        blob@.len() <= DTB_MAX_SIZE,
    ensures
        final(mem)@ == loaded_ram(old(mem)@, kernel@, opt_bytes(initrd), blob@),
        loaded == (LoadedKernel {
            ram_size: GUEST_RAM_SIZE,
            kernel_entry: (GUEST_RAM_BASE + KERNEL_OFFSET) as u64,
            dtb_addr: (GUEST_RAM_BASE + dtb_offset(blob@.len() as int)) as u64,
            kernel_file_size: kernel@.len() as usize,
        }),
{
    let kernel_file_size: usize = kernel.len();
    bytes::write_at(mem, KERNEL_OFFSET, kernel);
    if let Some(data) = initrd {
        let size: usize = kernel_image_size(kernel) as usize;
        let offset: usize = layout::page_align(KERNEL_OFFSET + size);
        bytes::write_at(mem, offset, data);
    }
    let at: usize = GUEST_RAM_SIZE - layout::page_align(blob.len());
    bytes::write_at(mem, at, blob);
    LoadedKernel {
        ram_size: GUEST_RAM_SIZE,
        kernel_entry: GUEST_RAM_BASE + KERNEL_OFFSET as u64,
        dtb_addr: GUEST_RAM_BASE + at as u64,
        kernel_file_size,
    }
}

/// Load kernel image, optional initrd, and generated DTB into guest RAM.
pub fn load_kernel_and_initrd(mem: &mut [u8], kernel: &[u8], initrd: Option<&[u8]>) -> (r: Result<
    LoadedKernel,
    BootError,
>)
    requires
        old(mem)@.len() == GUEST_RAM_SIZE,
    ensures
        r == Err::<LoadedKernel, BootError>(BootError::KernelTooLarge) <==> !kernel_fits(kernel@),
        r == Err::<LoadedKernel, BootError>(BootError::InitrdTooLarge) <==> kernel_fits(kernel@)
            && (initrd matches Some(data) && !initrd_fits(kernel@, data@.len() as int)),
        r is Err ==> final(mem)@ == old(mem)@,
        r matches Ok(loaded) ==> {
            let blob = fdt::fdt_blob(boot_tokens(kernel@, opt_bytes(initrd)));
            &&& blob.len() <= DTB_MAX_SIZE
            &&& final(mem)@ == loaded_ram(old(mem)@, kernel@, opt_bytes(initrd), blob)
            &&& loaded == (LoadedKernel {
                ram_size: GUEST_RAM_SIZE,
                kernel_entry: (GUEST_RAM_BASE + KERNEL_OFFSET) as u64,
                dtb_addr: (GUEST_RAM_BASE + dtb_offset(blob.len() as int)) as u64,
                kernel_file_size: kernel@.len() as usize,
            })
        },
{
    let initrd_len: Option<usize> = match initrd {
        Some(data) => Some(data.len()),
        None => None,
    };
    let (start, end): (Option<u64>, Option<u64>) = match plan_boot(kernel, initrd_len) {
        Err(e) => {
            return Err(e);
        },
        Ok(None) => (None, None),
        Ok(Some(p)) => (Some(p.start), Some(p.end)),
    };
    let blob = dtb::build_dtb(GUEST_RAM_BASE, GUEST_RAM_SIZE as u64, start, end);
    Ok(install(mem, kernel, initrd, blob.as_slice()))
}

/// The register changes that start the kernel: PC at its entry, EL1h with all
/// interrupts masked, the DTB in x0 and x1-x3 zero (Linux boot protocol), MMU
/// and caches off, SIMD/FP enabled at EL1, CPU 0.
pub open spec fn boot_registers(kernel_entry: u64, dtb_addr: u64) -> Seq<VcpuAction> {
    seq![
        VcpuAction::SetReg { reg: REG_PC, value: kernel_entry },
        VcpuAction::SetReg { reg: REG_CPSR, value: 0x3c5 },
        VcpuAction::SetReg { reg: REG_X0, value: dtb_addr },
        VcpuAction::SetReg { reg: REG_X1, value: 0 },
        VcpuAction::SetReg { reg: REG_X2, value: 0 },
        VcpuAction::SetReg { reg: REG_X3, value: 0 },
        VcpuAction::SetSysReg { sys_reg: SysReg::SCTLR_EL1, value: 0x30d00800 },
        VcpuAction::SetSysReg { sys_reg: SysReg::CPACR_EL1, value: 0x30_0000 },
        VcpuAction::SetSysReg { sys_reg: SysReg::MPIDR_EL1, value: 0x8000_0000 },
    ]
}

/// Set up CPU state for Linux boot.
pub fn setup_cpu_for_linux(kernel_entry: u64, dtb_addr: u64) -> (actions: Vec<VcpuAction>)
    ensures
        actions@ == boot_registers(kernel_entry, dtb_addr),
{
    let mut actions: Vec<VcpuAction> = Vec::new();
    actions.push(VcpuAction::SetReg { reg: REG_PC, value: kernel_entry });
    actions.push(VcpuAction::SetReg { reg: REG_CPSR, value: 0x3c5 });
    actions.push(VcpuAction::SetReg { reg: REG_X0, value: dtb_addr });
    actions.push(VcpuAction::SetReg { reg: REG_X1, value: 0 });
    actions.push(VcpuAction::SetReg { reg: REG_X2, value: 0 });
    actions.push(VcpuAction::SetReg { reg: REG_X3, value: 0 });
    actions.push(VcpuAction::SetSysReg { sys_reg: SysReg::SCTLR_EL1, value: 0x30d00800 });
    actions.push(VcpuAction::SetSysReg { sys_reg: SysReg::CPACR_EL1, value: 0x30_0000 });
    actions.push(VcpuAction::SetSysReg { sys_reg: SysReg::MPIDR_EL1, value: 0x8000_0000 });
    assert(actions@ =~= boot_registers(kernel_entry, dtb_addr));
    actions
}

/// How the kernel of a snapshot is patched: not at all where the hardware
/// traps timer accesses, else with the trap that the hypervisor forwards.
pub fn patch_mode(backend: Backend, has_timer_trapping: bool) -> (mode: Option<TimerPatchMode>)
    ensures
        mode == (if has_timer_trapping {
            None
        } else if backend is Hvf {
            Some(TimerPatchMode::Hvc)
        } else {
            Some(TimerPatchMode::Brk)
        }),
{
    if has_timer_trapping {
        None
    } else {
        match backend {
            Backend::Hvf => Some(TimerPatchMode::Hvc),
            Backend::Kvm => Some(TimerPatchMode::Brk),
        }
    }
}

/// What a template's `timer_patched` file holds.
pub open spec fn mark_text(patched: bool) -> Seq<char> {
    if patched {
        "brk"@
    } else {
        "none"@
    }
}

/// What to write to a template's `timer_patched` file.
pub fn timer_mark(patched: bool) -> (s: &'static str)
    ensures
        s@ == mark_text(patched),
{
    if patched {
        "brk"
    } else {
        "none"
    }
}

/// Unicode white space.
pub open spec fn is_white(c: char) -> bool {
    ||| 0x09 <= c as u32 <= 0x0d
    ||| c == ' '
    ||| c as u32 == 0x85
    ||| c as u32 == 0xa0
    ||| c as u32 == 0x1680
    ||| 0x2000 <= c as u32 <= 0x200a
    ||| c as u32 == 0x2028
    ||| c as u32 == 0x2029
    ||| c as u32 == 0x202f
    ||| c as u32 == 0x205f
    ||| c as u32 == 0x3000
}

/// `s` is `word` with white space around it.
pub open spec fn is_padded(s: Seq<char>, word: Seq<char>, k: int) -> bool {
    &&& 0 <= k
    &&& k + word.len() <= s.len()
    &&& s.subrange(k, k + word.len()) == word
    &&& forall|i: int| 0 <= i < k ==> is_white(#[trigger] s[i])
    &&& forall|i: int| k + word.len() <= i < s.len() ==> is_white(#[trigger] s[i])
}

/// The content of a `timer_patched` file calls for guest debug.
pub open spec fn wants_debug(mark: Seq<char>) -> bool {
    exists|k: int| is_padded(mark, "brk"@, k)
}

/// Is `c` white space?
fn white(c: char) -> (b: bool)
    ensures
        b == is_white(c),
{
    let n: u32 = c as u32;
    (0x09 <= n && n <= 0x0d) || n == 0x20 || n == 0x85 || n == 0xa0 || n == 0x1680 || (0x2000 <= n
        && n <= 0x200a) || n == 0x2028 || n == 0x2029 || n == 0x202f || n == 0x205f || n == 0x3000
}

/// Does a template whose `timer_patched` file holds `mark` need guest debug?
pub fn needs_guest_debug(mark: &str) -> (b: bool)
    ensures
        b == wants_debug(mark@),
{
    proof {
        reveal_strlit("brk");
    }
    let s = text::chars_of(mark);
    let n: usize = s.len();
    let mut k: usize = 0;
    while k < n && white(s[k])
        invariant
            k <= n,
            n == s@.len(),
            forall|i: int| 0 <= i < k ==> is_white(#[trigger] s@[i]),
        decreases n - k,
    {
        k = k + 1;
    }
    if n - k < 3 || s[k] != 'b' || s[k + 1] != 'r' || s[k + 2] != 'k' {
        proof {
            assert forall|j: int| !is_padded(mark@, "brk"@, j) by {
                if is_padded(mark@, "brk"@, j) {
                    let word = s@.subrange(j, j + 3);
                    assert(word[0] == 'b' && word[1] == 'r' && word[2] == 'k');
                    assert(s@[j] == 'b' && s@[j + 1] == 'r' && s@[j + 2] == 'k');
                    assert(j >= k);
                    if j > k {
                        assert(is_white(s@[k as int]));
                    }
                }
            }
        }
        return false;
    }
    let mut i: usize = k + 3;
    while i < n && white(s[i])
        invariant
            k + 3 <= i <= n,
            n == s@.len(),
            forall|j: int| k + 3 <= j < i ==> is_white(#[trigger] s@[j]),
        decreases n - i,
    {
        i = i + 1;
    }
    proof {
        if i == n {
            assert(s@.subrange(k as int, k + 3) =~= "brk"@);
            assert(is_padded(mark@, "brk"@, k as int));
        } else {
            assert forall|j: int| !is_padded(mark@, "brk"@, j) by {
                if is_padded(mark@, "brk"@, j) {
                    let word = s@.subrange(j, j + 3);
                    assert(word[0] == 'b' && s@[j] == 'b');
                    if j > k {
                        assert(is_white(s@[k as int]));
                    } else if j < k {
                        assert(is_white(s@[j]));
                    }
                    assert(is_white(s@[i as int]));
                }
            }
        }
    }
    i == n
}

/// What is reported of a VM that was only booted.
pub fn boot_report(reason: &VmExitReason) -> (line: String)
    ensures
        line@ == (match *reason {
            VmExitReason::Ready => "VM reached HC_READY (use snapshot-linux to save)"@,
            VmExitReason::Exit(code) => "VM exited with code "@ + text::decimal(code as nat),
            VmExitReason::SystemOff => "VM powered off"@,
            VmExitReason::Error(e) => "VM error: "@ + e@,
        }),
{
    match reason {
        VmExitReason::Ready => String::from_str("VM reached HC_READY (use snapshot-linux to save)"),
        VmExitReason::Exit(code) => text::with_decimal("VM exited with code ", *code),
        VmExitReason::SystemOff => String::from_str("VM powered off"),
        VmExitReason::Error(e) => String::from_str("VM error: ").concat(e.as_str()),
    }
}

/// A snapshot is taken of a VM that signaled READY, and of no other.
pub fn snapshot_verdict(reason: &VmExitReason) -> (r: Result<(), String>)
    ensures
        r is Ok <==> *reason is Ready,
        r matches Err(line) ==> line@ == (match *reason {
            VmExitReason::Exit(code) => "VM exited with code "@ + text::decimal(code as nat)
                + " before READY"@,
            VmExitReason::Error(e) => "VM error before READY: "@ + e@,
            _ => "VM halted before signaling READY"@,
        }),
{
    match reason {
        VmExitReason::Ready => Ok(()),
        VmExitReason::SystemOff => Err(String::from_str("VM halted before signaling READY")),
        VmExitReason::Exit(code) => Err(
            text::with_decimal("VM exited with code ", *code).concat(" before READY"),
        ),
        VmExitReason::Error(e) => Err(String::from_str("VM error before READY: ").concat(e.as_str())),
    }
}

/// What is reported of a forked VM: nothing if it ended as it should.
pub fn fork_report(reason: &VmExitReason) -> (line: Option<String>)
    ensures
        line is None <==> (*reason is SystemOff || *reason == VmExitReason::Exit(0)),
        line matches Some(l) ==> l@ == (match *reason {
            VmExitReason::Exit(code) => "VM exited with code "@ + text::decimal(code as nat),
            VmExitReason::Error(e) => "VM error: "@ + e@,
            _ => "Unexpected HC_READY in forked VM"@,
        }),
{
    match reason {
        VmExitReason::Exit(code) => if *code != 0 {
            Some(text::with_decimal("VM exited with code ", *code))
        } else {
            None
        },
        VmExitReason::SystemOff => None,
        VmExitReason::Ready => Some(String::from_str("Unexpected HC_READY in forked VM")),
        VmExitReason::Error(e) => Some(String::from_str("VM error: ").concat(e.as_str())),
    }
}

// Laws

/// The initramfs lies on a page boundary behind everything the running kernel
/// takes, and ends before the last 2 MiB, where the DTB is.
pub proof fn law_initrd_lies_between_kernel_and_dtb(kernel: Seq<u8>, initrd_len: int, dtb_len: int)
    requires
        0 <= initrd_len,
        initrd_fits(kernel, initrd_len),
        0 <= dtb_len <= DTB_MAX_SIZE,
    ensures
        initrd_offset(kernel) % 0x4000 == 0,
        KERNEL_OFFSET + image_size(kernel) <= initrd_offset(kernel),
        initrd_offset(kernel) + initrd_len < dtb_offset(dtb_len),
        dtb_offset(dtb_len) + dtb_len <= GUEST_RAM_SIZE,
        dtb_offset(dtb_len) % 0x4000 == 0,
{
}

/// After loading, guest RAM holds the kernel file, the initramfs and the DTB
/// unharmed, each at the place the guest is told, provided that the kernel file
/// ends before both: a header that announces less than the file holds lets the
/// initramfs overwrite the kernel's end.
pub proof fn law_loaded_images_are_intact(
    ram: Seq<u8>,
    kernel: Seq<u8>,
    initrd: Option<Seq<u8>>,
    blob: Seq<u8>,
)
    requires
        ram.len() == GUEST_RAM_SIZE,
        kernel_fits(kernel),
        initrd matches Some(data) ==> initrd_fits(kernel, data.len() as int) && KERNEL_OFFSET
            + kernel.len() <= initrd_offset(kernel),
        blob.len() <= DTB_MAX_SIZE,
        KERNEL_OFFSET + kernel.len() <= dtb_offset(blob.len() as int),
    ensures
        ({
            let m = loaded_ram(ram, kernel, initrd, blob);
            let at = dtb_offset(blob.len() as int);
            &&& m.len() == ram.len()
            &&& m.subrange(KERNEL_OFFSET as int, KERNEL_OFFSET + kernel.len()) == kernel
            &&& m.subrange(at, at + blob.len()) == blob
            &&& initrd matches Some(data) ==> m.subrange(
                initrd_offset(kernel),
                initrd_offset(kernel) + data.len(),
            ) == data
        }),
{
    let m = loaded_ram(ram, kernel, initrd, blob);
    let at = dtb_offset(blob.len() as int);
    if let Some(data) = initrd {
        law_initrd_lies_between_kernel_and_dtb(kernel, data.len() as int, blob.len() as int);
        assert(m.subrange(initrd_offset(kernel), initrd_offset(kernel) + data.len()) =~= data);
    }
    assert(m.subrange(KERNEL_OFFSET as int, KERNEL_OFFSET + kernel.len()) =~= kernel);
    assert(m.subrange(at, at + blob.len()) =~= blob);
}

/// A fork enables guest debug exactly when its template was patched.
pub proof fn law_timer_mark_round_trip(patched: bool)
    ensures
        wants_debug(mark_text(patched)) <==> patched,
{
    reveal_strlit("brk");
    reveal_strlit("none");
    if patched {
        assert("brk"@.subrange(0, 3) =~= "brk"@);
        assert(is_padded("brk"@, "brk"@, 0));
    } else {
        assert forall|k: int| !is_padded("none"@, "brk"@, k) by {
            if is_padded("none"@, "brk"@, k) {
                let word = "none"@.subrange(k, k + 3);
                assert(word[0] == 'b');
                assert("none"@[k] == 'b');
            }
        }
    }
}

/// How the kernel starts, by the boot protocol of ARM64 Linux: PC at the
/// kernel's entry, x0 with the address of the DTB and x1 to x3 zero, at EL1 on
/// its own stack pointer with all interrupts masked, MMU and caches off,
/// floating point not trapped, as CPU 0. The other registers keep what they
/// held.
pub proof fn law_boot_protocol(
    kernel_entry: u64,
    dtb_addr: u64,
    reg: u32,
    sys_reg: SysReg,
    before: u64,
)
    ensures
        ({
            let acts = boot_registers(kernel_entry, dtb_addr);
            let cpsr = vcpu::reg_after(acts, 34, before);
            let sctlr = vcpu::sys_reg_after(acts, SysReg::SCTLR_EL1, before);
            let cpacr = vcpu::sys_reg_after(acts, SysReg::CPACR_EL1, before);
            &&& vcpu::reg_after(acts, 31, before) == kernel_entry
            &&& vcpu::reg_after(acts, 0, before) == dtb_addr
            &&& 1 <= reg <= 3 ==> vcpu::reg_after(acts, reg, before) == 0
            &&& 4 <= reg && reg != 31 && reg != 34 ==> vcpu::reg_after(acts, reg, before) == before
            // mode EL1h, AArch64
            &&& cpsr % 32 == 0b0101
            // D, A, I and F
            &&& (cpsr / 64) % 16 == 0b1111
            &&& cpsr < 1024 && (cpsr / 32) % 2 == 0
            // M, C and I
            &&& sctlr % 2 == 0
            &&& (sctlr / 4) % 2 == 0
            &&& (sctlr / 0x1000) % 2 == 0
            &&& sctlr == 0x30d0_0800
            // FPEN
            &&& cpacr == 3 * 0x10_0000
            &&& vcpu::sys_reg_after(acts, SysReg::MPIDR_EL1, before) == 0x8000_0000
            &&& sys_reg != SysReg::SCTLR_EL1 && sys_reg != SysReg::CPACR_EL1 && sys_reg
                != SysReg::MPIDR_EL1 ==> vcpu::sys_reg_after(acts, sys_reg, before) == before
            &&& forall|i: int|
                0 <= i < acts.len() ==> (#[trigger] acts[i]) is SetReg || acts[i] is SetSysReg
        }),
{
    let a9 = boot_registers(kernel_entry, dtb_addr);
    let a8 = a9.drop_last();
    let a7 = a8.drop_last();
    let a6 = a7.drop_last();
    let a5 = a6.drop_last();
    let a4 = a5.drop_last();
    let a3 = a4.drop_last();
    let a2 = a3.drop_last();
    let a1 = a2.drop_last();
    assert(a1.drop_last().len() == 0);
    reveal_with_fuel(vcpu::reg_after, 10);
    reveal_with_fuel(vcpu::sys_reg_after, 10);
}

/// The kernel's header says at byte 16, in eight little-endian bytes, how much
/// memory the kernel takes; a file without a header takes what it is long.
pub proof fn law_image_size(head: Seq<u8>, size: u64, rest: Seq<u8>, short: Seq<u8>)
    requires
        head.len() == 16,
        short.len() < 24,
    ensures
        image_size(head + bytes::le_bytes(size as nat, 8) + rest) == size,
        image_size(short) == short.len(),
{
    bytes::lemma_pow256_values();
    bytes::lemma_le_round_trip(size as nat, 8);
    let kernel = head + bytes::le_bytes(size as nat, 8) + rest;
    assert(kernel.subrange(0x10, 0x18) =~= bytes::le_bytes(size as nat, 8));
}

/// A kernel is refused exactly if it would reach the end of RAM, an initramfs
/// exactly if it would reach the last 2 MiB.
pub proof fn law_what_fits(kernel: Seq<u8>, initrd_len: int)
    ensures
        kernel_fits(kernel) <==> kernel.len() < 0x1FF8_0000,
        initrd_fits(kernel, initrd_len) <==> initrd_offset(kernel) + initrd_len < 0x1FE0_0000,
        0x8_0000 + image_size(kernel) <= initrd_offset(kernel) < 0x8_0000 + image_size(kernel)
            + 0x4000,
        initrd_offset(kernel) % 0x4000 == 0,
{
}

/// What the device tree tells the kernel is true of its memory: RAM is where it
/// is, and the range that is given for the initramfs holds exactly the
/// initramfs. Without an initramfs none is announced. The law gives the tokens
/// at which the memory node and the chosen node begin.
pub proof fn law_tree_describes_memory(
    ram: Seq<u8>,
    kernel: Seq<u8>,
    initrd: Option<Seq<u8>>,
    blob: Seq<u8>,
) -> (at: (int, int))
    requires
        ram.len() == GUEST_RAM_SIZE,
        kernel_fits(kernel),
        initrd matches Some(data) ==> initrd_fits(kernel, data.len() as int),
        blob.len() <= DTB_MAX_SIZE,
    ensures
        ({
            let t = boot_tokens(kernel, initrd);
            let m = loaded_ram(ram, kernel, initrd, blob);
            let start = dtb::number(t, at.1, "linux,initrd-start"@);
            let end = dtb::number(t, at.1, "linux,initrd-end"@);
            &&& dtb::node_begins(t, at.0, 1, "memory@"@ + text::hex(0x4000_0000))
            &&& dtb::regions_of(t, 0, at.0) == Some(seq![(0x4000_0000nat, 0x2000_0000nat)])
            &&& dtb::node_begins(t, at.1, 1, "chosen"@)
            &&& initrd is None ==> start is None && end is None
            &&& initrd matches Some(data) ==> {
                &&& start is Some && end is Some
                &&& m.subrange(start->0 - 0x4000_0000, end->0 - 0x4000_0000) == data
                &&& start->0 % 0x4000 == 0
            }
            &&& m.len() == ram.len()
            &&& m.subrange(
                dtb_offset(blob.len() as int),
                dtb_offset(blob.len() as int) + blob.len(),
            ) == blob
        }),
{
    let m = loaded_ram(ram, kernel, initrd, blob);
    let at = dtb_offset(blob.len() as int);
    assert(m.subrange(at, at + blob.len()) =~= blob);
    match initrd {
        Some(data) => {
            let p = placement(kernel, data.len() as int);
            let off = initrd_offset(kernel);
            law_initrd_lies_between_kernel_and_dtb(kernel, data.len() as int, blob.len() as int);
            assert(m.subrange(off, off + data.len()) =~= data);
            let nodes = dtb::law_regions_are_read_back(
                GUEST_RAM_BASE,
                GUEST_RAM_SIZE as u64,
                Some(p.start),
                Some(p.end),
            );
            let chosen = dtb::law_boot_parameters(
                GUEST_RAM_BASE,
                GUEST_RAM_SIZE as u64,
                Some(p.start),
                Some(p.end),
            );
            (nodes.0, chosen)
        },
        None => {
            let nodes = dtb::law_regions_are_read_back(
                GUEST_RAM_BASE,
                GUEST_RAM_SIZE as u64,
                None,
                None,
            );
            let chosen = dtb::law_boot_parameters(
                GUEST_RAM_BASE,
                GUEST_RAM_SIZE as u64,
                None,
                None,
            );
            (nodes.0, chosen)
        },
    }
}

/// The address in x0 is where the DTB begins, on a page boundary of its own in
/// the last 2 MiB of RAM, with less than a page behind it.
pub proof fn law_dtb_lies_at_the_end(len: int)
    requires
        0 < len <= 0x20_0000,
    ensures
        dtb_offset(len) % 0x4000 == 0,
        0x1FE0_0000 <= dtb_offset(len),
        0x2000_0000 - 0x4000 < dtb_offset(len) + len <= 0x2000_0000,
{
}

/// White space around the word does not matter, anything else does.
pub proof fn law_mark_may_be_padded(a: Seq<char>, b: Seq<char>, c: char)
    requires
        forall|i: int| 0 <= i < a.len() ==> (a[i] == ' ' || a[i] == '\n' || a[i] == '\r' || a[i]
            == '\t'),
        forall|i: int| 0 <= i < b.len() ==> (b[i] == ' ' || b[i] == '\n' || b[i] == '\r' || b[i]
            == '\t'),
        '!' <= c <= '~',
    ensures
        wants_debug(a + seq!['b', 'r', 'k'] + b),
        !wants_debug(a + seq!['b', 'r', 'k'] + b.push(c)),
        !wants_debug(a),
{
    reveal_strlit("brk");
    let s = a + seq!['b', 'r', 'k'] + b;
    let n = a.len() as int;
    assert(s.subrange(n, n + 3) =~= "brk"@);
    assert forall|i: int| 0 <= i < n implies is_white(#[trigger] s[i]) by {
        assert(s[i] == a[i]);
    }
    assert forall|i: int| n + 3 <= i < s.len() implies is_white(#[trigger] s[i]) by {
        assert(s[i] == b[i - n - 3]);
    }
    assert(is_padded(s, "brk"@, n));
    let s2 = a + seq!['b', 'r', 'k'] + b.push(c);
    let last = s2.len() - 1;
    assert forall|k: int| !is_padded(s2, "brk"@, k) by {
        if is_padded(s2, "brk"@, k) {
            let word = s2.subrange(k, k + 3);
            assert(word[0] == 'b' && word[2] == 'k');
            assert(s2[k] == 'b' && s2[k + 2] == 'k');
            if k > n {
                assert(is_white(s2[n]));
            } else if k < n {
                assert(s2[k] == a[k]);
            }
            assert(is_white(s2[last]));
        }
    }
    assert forall|k: int| !is_padded(a, "brk"@, k) by {
        if is_padded(a, "brk"@, k) {
            let word = a.subrange(k, k + 3);
            assert(word[0] == 'b');
            assert(a[k] == 'b');
        }
    }
}

} // verus!
