//! Timer instruction patching.
//!
//! Where CNTHCTL_EL2 is unavailable (pKVM, M1 HVF without EL2), the kernel
//! image is binary-patched: timer MRS/MSR instructions become trap
//! instructions whose immediate names the operation and the register.
//!
//! - **HVC mode** (HVF): `HVC #imm`, which HVF forwards to userspace.
//! - **BRK mode** (KVM): `BRK #imm16`, which exits to userspace as a debug
//!   exit once guest debug is enabled.
//!
//! Both are 4 bytes per instruction, preserving code layout.

use crate::bytes;
use crate::registers;
use crate::registers::{SysReg, REG_PC};
use crate::vcpu;
use crate::vcpu::VcpuAction;
use crate::vtimer;
use crate::vtimer::{VirtualTimer, COUNTER_FREQ_HZ};
use vstd::prelude::*;

verus! {

pub const HVC_COUNTER_READ: u16 = 0x100;

pub const HVC_FREQ_READ: u16 = 0x140;

pub const HVC_CTL_READ: u16 = 0x180;

pub const HVC_CTL_WRITE: u16 = 0x1C0;

pub const HVC_CVAL_READ: u16 = 0x200;

pub const HVC_CVAL_WRITE: u16 = 0x240;

pub const HVC_TVAL_READ: u16 = 0x280;

pub const HVC_TVAL_WRITE: u16 = 0x2C0;

// BRK immediates use the 0xE1xx-0xE2xx range to avoid collision with
// kernel-reserved BRK immediates (BUG=0x800, KASAN=0x9xx, FAULT=0x100, etc.).
pub const BRK_COUNTER_READ: u16 = 0xE100;

pub const BRK_FREQ_READ: u16 = 0xE140;

pub const BRK_CTL_READ: u16 = 0xE180;

pub const BRK_CTL_WRITE: u16 = 0xE1C0;

pub const BRK_CVAL_READ: u16 = 0xE200;

pub const BRK_CVAL_WRITE: u16 = 0xE240;

pub const BRK_TVAL_READ: u16 = 0xE280;

pub const BRK_TVAL_WRITE: u16 = 0xE2C0;

/// Which trap mechanism to use for timer patching.
#[derive(Clone, Copy, Debug, PartialEq, Eq, Structural)]
pub enum TimerPatchMode {
    /// Replace with HVC #imm (HVF: exits to userspace).
    Hvc,
    /// Replace with BRK #imm16 (KVM: debug exit with KVM_SET_GUEST_DEBUG).
    Brk,
}

/// A timer register access.
#[derive(Clone, Copy, Debug, PartialEq, Eq, Structural)]
pub enum TimerOp {
    CounterRead,
    FreqRead,
    CtlRead,
    CtlWrite,
    CvalRead,
    CvalWrite,
    TvalRead,
    TvalWrite,
}

impl TimerOp {
    /// Position of the operation in the immediate encoding.
    pub open spec fn index(self) -> int {
        match self {
            TimerOp::CounterRead => 0,
            TimerOp::FreqRead => 1,
            TimerOp::CtlRead => 2,
            TimerOp::CtlWrite => 3,
            TimerOp::CvalRead => 4,
            TimerOp::CvalWrite => 5,
            TimerOp::TvalRead => 6,
            TimerOp::TvalWrite => 7,
        }
    }

    /// The operation reads the general register rather than writing it.
    pub open spec fn is_write(self) -> bool {
        self is CtlWrite || self is CvalWrite || self is TvalWrite
    }
}

impl TimerPatchMode {
    /// First immediate of the mode.
    pub open spec fn base(self) -> int {
        match self {
            TimerPatchMode::Hvc => 0x100,
            TimerPatchMode::Brk => 0xE100,
        }
    }
}

/// The immediate that stands for `op` on register `rt`.
pub open spec fn immediate(op: TimerOp, mode: TimerPatchMode, rt: int) -> int {
    mode.base() + 64 * op.index() + rt
}

/// The operation and register that an immediate stands for. Bit 5 is ignored.
pub open spec fn decode_immediate(imm: int, mode: TimerPatchMode) -> Option<(TimerOp, u32)> {
    let rt = (imm % 32) as u32;
    let k = (imm - mode.base()) / 64;
    if imm < mode.base() {
        None
    } else if k == 0 {
        Some((TimerOp::CounterRead, rt))
    } else if k == 1 {
        Some((TimerOp::FreqRead, rt))
    } else if k == 2 {
        Some((TimerOp::CtlRead, rt))
    } else if k == 3 {
        Some((TimerOp::CtlWrite, rt))
    } else if k == 4 {
        Some((TimerOp::CvalRead, rt))
    } else if k == 5 {
        Some((TimerOp::CvalWrite, rt))
    } else if k == 6 {
        Some((TimerOp::TvalRead, rt))
    } else if k == 7 {
        Some((TimerOp::TvalWrite, rt))
    } else {
        None
    }
}

/// The timer access that the instruction word `insn` performs, and its
/// register. The encodings are those of MRS/MSR on the timer registers.
pub open spec fn timer_access(insn: u32) -> Option<(TimerOp, u32)> {
    let rt = (insn % 32) as u32;
    let form = insn - insn % 32;
    if form == 0xd53b_e040 || form == 0xd53b_e020 {
        // CNTVCT_EL0, CNTPCT_EL0
        Some((TimerOp::CounterRead, rt))
    } else if form == 0xd53b_e000 {
        Some((TimerOp::FreqRead, rt))
    } else if form == 0xd53b_e320 {
        Some((TimerOp::CtlRead, rt))
    } else if form == 0xd53b_e340 {
        Some((TimerOp::CvalRead, rt))
    } else if form == 0xd53b_e300 {
        Some((TimerOp::TvalRead, rt))
    } else if form == 0xd51b_e320 {
        Some((TimerOp::CtlWrite, rt))
    } else if form == 0xd51b_e340 {
        Some((TimerOp::CvalWrite, rt))
    } else if form == 0xd51b_e300 {
        Some((TimerOp::TvalWrite, rt))
    } else {
        None
    }
}

/// The trap instruction with immediate `imm`.
pub open spec fn trap_insn(imm: int, mode: TimerPatchMode) -> u32 {
    match mode {
        TimerPatchMode::Hvc => (0xD400_0002 + 32 * imm) as u32,
        TimerPatchMode::Brk => (0xD420_0000 + 32 * imm) as u32,
    }
}

/// What the instruction word `insn` is replaced by; `None` leaves it alone.
pub open spec fn replacement(insn: u32, mode: TimerPatchMode) -> Option<u32> {
    match timer_access(insn) {
        Some((op, rt)) => Some(trap_insn(immediate(op, mode, rt as int), mode)),
        None => None,
    }
}

/// The instruction word at `p`.
pub open spec fn word_at(m: Seq<u8>, p: int) -> u32 {
    bytes::le_value(m.subrange(p, p + 4)) as u32
}

/// Number of instruction words that `size` bytes of code reach into.
pub open spec fn code_words(size: int) -> int {
    (size + 3) / 4
}

/// Memory `m` with every timer instruction of the code at `off` replaced.
pub open spec fn patched_image(m: Seq<u8>, off: int, size: int, mode: TimerPatchMode) -> Seq<u8> {
    patched_words(m, off, code_words(size), mode)
}

/// Memory `m` with the timer instructions among the first `words` words at
/// `off` replaced.
pub open spec fn patched_words(m: Seq<u8>, off: int, words: int, mode: TimerPatchMode) -> Seq<u8> {
    Seq::new(
        m.len(),
        |i: int|
            if off <= i < off + 4 * words {
                match replacement(word_at(m, off + (i - off) / 4 * 4), mode) {
                    Some(trap) => bytes::le_bytes(trap as nat, 4)[(i - off) % 4],
                    None => m[i],
                }
            } else {
                m[i]
            },
    )
}

/// How many of the first `words` words at `off` are timer instructions.
pub open spec fn timer_insn_count(m: Seq<u8>, off: int, words: int) -> nat
    decreases words,
{
    if words <= 0 {
        0
    } else {
        timer_insn_count(m, off, words - 1) + if timer_access(
            word_at(m, off + 4 * (words - 1)),
        ) is Some {
            1nat
        } else {
            0nat
        }
    }
}

/// Encode HVC #imm instruction.
pub fn encode_hvc(imm: u16) -> (insn: u32)
    ensures
        insn == trap_insn(imm as int, TimerPatchMode::Hvc),
{
    let wide: u32 = imm as u32;
    assert((0xD400_0002u32 | (wide << 5)) == 0xD400_0002u32 + 32 * wide) by (bit_vector)
        requires
            wide < 0x1_0000,
    ;
    0xD400_0002 | (wide << 5)
}

/// Encode BRK #imm16 instruction.
pub fn encode_brk(imm: u16) -> (insn: u32)
    ensures
        insn == trap_insn(imm as int, TimerPatchMode::Brk),
{
    let wide: u32 = imm as u32;
    assert((0xD420_0000u32 | (wide << 5)) == 0xD420_0000u32 + 32 * wide) by (bit_vector)
        requires
            wide < 0x1_0000,
    ;
    0xD420_0000 | (wide << 5)
}

/// The timer access that an instruction word performs.
fn classify(insn: u32) -> (r: Option<(TimerOp, u32)>)
    ensures
        r == timer_access(insn),
{
    assert(insn & 0x1F == insn % 32) by (bit_vector);
    assert(insn & 0xFFFF_FFE0 == insn - insn % 32) by (bit_vector);
    let rt: u32 = insn & 0x1F;
    match insn & 0xFFFF_FFE0 {
        0xd53b_e040 | 0xd53b_e020 => Some((TimerOp::CounterRead, rt)),
        0xd53b_e000 => Some((TimerOp::FreqRead, rt)),
        0xd53b_e320 => Some((TimerOp::CtlRead, rt)),
        0xd53b_e340 => Some((TimerOp::CvalRead, rt)),
        0xd53b_e300 => Some((TimerOp::TvalRead, rt)),
        0xd51b_e320 => Some((TimerOp::CtlWrite, rt)),
        0xd51b_e340 => Some((TimerOp::CvalWrite, rt)),
        0xd51b_e300 => Some((TimerOp::TvalWrite, rt)),
        _ => None,
    }
}

/// The trap instruction for `op` on `rt`.
fn trap_for(op: TimerOp, rt: u32, mode: TimerPatchMode) -> (insn: u32)
    requires
        rt < 32,
    ensures
        insn == trap_insn(immediate(op, mode, rt as int), mode),
{
    let r: u16 = rt as u16;
    match mode {
        TimerPatchMode::Hvc => {
            let base: u16 = match op {
                TimerOp::CounterRead => HVC_COUNTER_READ,
                TimerOp::FreqRead => HVC_FREQ_READ,
                TimerOp::CtlRead => HVC_CTL_READ,
                TimerOp::CtlWrite => HVC_CTL_WRITE,
                TimerOp::CvalRead => HVC_CVAL_READ,
                TimerOp::CvalWrite => HVC_CVAL_WRITE,
                TimerOp::TvalRead => HVC_TVAL_READ,
                TimerOp::TvalWrite => HVC_TVAL_WRITE,
            };
            encode_hvc(base + r)
        },
        TimerPatchMode::Brk => {
            let base: u16 = match op {
                TimerOp::CounterRead => BRK_COUNTER_READ,
                TimerOp::FreqRead => BRK_FREQ_READ,
                TimerOp::CtlRead => BRK_CTL_READ,
                TimerOp::CtlWrite => BRK_CTL_WRITE,
                TimerOp::CvalRead => BRK_CVAL_READ,
                TimerOp::CvalWrite => BRK_CVAL_WRITE,
                TimerOp::TvalRead => BRK_TVAL_READ,
                TimerOp::TvalWrite => BRK_TVAL_WRITE,
            };
            encode_brk(base + r)
        },
    }
}

/// Patch all timer register accesses in the kernel image that `mem` holds at
/// `kernel_offset`. Returns how many instructions were replaced. A last,
/// partial word of the image counts as a word.
#[verifier::spinoff_prover]
pub fn patch_timer_reads(
    mem: &mut [u8],
    kernel_offset: usize,
    kernel_file_size: usize,
    mode: TimerPatchMode,
) -> (patched: usize)
    requires
        kernel_offset + 4 * code_words(kernel_file_size as int) <= old(mem)@.len(),
    ensures
        final(mem)@ == patched_image(
            old(mem)@,
            kernel_offset as int,
            kernel_file_size as int,
            mode,
        ),
        patched == timer_insn_count(
            old(mem)@,
            kernel_offset as int,
            code_words(kernel_file_size as int),
        ),
{
    let ghost m0 = mem@;
    let ghost off = kernel_offset as int;
    let ghost total: usize = mem.len();
    let words: usize = kernel_file_size / 4 + if kernel_file_size % 4 == 0 {
        0
    } else {
        1
    };
    assert(words == code_words(kernel_file_size as int));
    let mut patched: usize = 0;
    let mut w: usize = 0;
    assert(mem@ =~= patched_words(m0, off, 0, mode));
    while w < words
        invariant
            total == m0.len(),
            off == kernel_offset,
            w <= words,
            off + 4 * words <= total,
            mem@ == patched_words(m0, off, w as int, mode),
            patched == timer_insn_count(m0, off, w as int),
            patched <= w,
        decreases words - w,
    {
        let p: usize = kernel_offset + 4 * w;
        proof {
            assert(mem@.subrange(p as int, p + 4) =~= m0.subrange(p as int, p + 4));
            bytes::lemma_le_value_round_trip(m0.subrange(p as int, p + 4));
            bytes::lemma_pow256_values();
        }
        let insn: u32 = bytes::read_le(mem, p, 4) as u32;
        if let Some((op, rt)) = classify(insn) {
            let trap: u32 = trap_for(op, rt, mode);
            let bytes: Vec<u8> = bytes::to_le(trap as u64, 4);
            proof {
                bytes::lemma_le_bytes_len(trap as nat, 4);
            }
            bytes::write_at(mem, p, bytes.as_slice());
            patched = patched + 1;
        }
        proof {
            lemma_patch_step(m0, off, w as int, mode);
        }
        w = w + 1;
    }
    patched
}

/// Patching one more word writes its trap over it, or leaves it alone.
proof fn lemma_patch_step(m: Seq<u8>, off: int, w: int, mode: TimerPatchMode)
    requires
        0 <= off,
        0 <= w,
        off + 4 * (w + 1) <= m.len(),
    ensures
        patched_words(m, off, w + 1, mode) == (match replacement(word_at(m, off + 4 * w), mode) {
            Some(trap) => bytes::overlay(
                patched_words(m, off, w, mode),
                off + 4 * w,
                bytes::le_bytes(trap as nat, 4),
            ),
            None => patched_words(m, off, w, mode),
        }),
{
    let p = off + 4 * w;
    let next = patched_words(m, off, w + 1, mode);
    let now = patched_words(m, off, w, mode);
    let over = match replacement(word_at(m, p), mode) {
        Some(trap) => bytes::overlay(now, p, bytes::le_bytes(trap as nat, 4)),
        None => now,
    };
    assert forall|k: int| 0 <= k < m.len() implies next[k] == over[k] by {
        if replacement(word_at(m, p), mode) is Some {
            bytes::lemma_le_bytes_len(replacement(word_at(m, p), mode)->0 as nat, 4);
        }
        if p <= k < p + 4 {
            assert((k - off) / 4 == w && (k - off) % 4 == k - p);
        }
    }
    assert(next =~= over);
}

/// What a trapped timer access does: the timer afterwards, the value it puts
/// in the register if it is a read, and whether an interrupt becomes pending.
pub open spec fn timer_effect(op: TimerOp, rt_value: u64, t: VirtualTimer) -> (
    VirtualTimer,
    Option<u64>,
    bool,
) {
    match op {
        TimerOp::CounterRead => {
            let after = t.after_counter_read();
            (after, Some(after.counter), after.pending())
        },
        TimerOp::FreqRead => (t, Some(COUNTER_FREQ_HZ), false),
        TimerOp::CtlRead => (t, Some(t.ctl_value()), false),
        TimerOp::CtlWrite => (VirtualTimer { ctl: rt_value, ..t }, None, false),
        TimerOp::CvalRead => (t, Some(t.cval), false),
        TimerOp::CvalWrite => (VirtualTimer { cval: rt_value, ..t }, None, false),
        TimerOp::TvalRead => (t, Some(t.tval_value()), false),
        TimerOp::TvalWrite => (t.after_tval_write(rt_value), None, false),
    }
}

/// The vCPU changes that a trapped timer access asks for.
pub open spec fn timer_actions(op: TimerOp, rt: u32, rt_value: u64, t: VirtualTimer) -> Seq<
    VcpuAction,
> {
    let (_, write, irq) = timer_effect(op, rt_value, t);
    let set = match write {
        Some(value) => seq![VcpuAction::SetReg { reg: rt, value }],
        None => Seq::empty(),
    };
    if irq {
        set.push(VcpuAction::RaiseInterrupt)
    } else {
        set
    }
}

/// Register 31 is PC: a read into it is where execution goes on.
pub open spec fn pc_after_access(op: TimerOp, rt: u32, rt_value: u64, t: VirtualTimer, pc: u64) -> u64 {
    match timer_effect(op, rt_value, t).1 {
        Some(value) => if rt == REG_PC {
            value
        } else {
            pc
        },
        None => pc,
    }
}

/// Performs one timer access.
fn emulate(op: TimerOp, rt: u32, rt_value: u64, vtimer: &mut VirtualTimer) -> (r: (
    Vec<VcpuAction>,
    Option<u64>,
))
    ensures
        *final(vtimer) == timer_effect(op, rt_value, *old(vtimer)).0,
        r.0@ == timer_actions(op, rt, rt_value, *old(vtimer)),
        r.1 == timer_effect(op, rt_value, *old(vtimer)).1,
{
    let mut actions: Vec<VcpuAction> = Vec::new();
    let mut irq = false;
    let write: Option<u64> = match op {
        TimerOp::CounterRead => {
            let val: u64 = vtimer.read_counter();
            irq = vtimer.check_pending();
            Some(val)
        },
        TimerOp::FreqRead => Some(COUNTER_FREQ_HZ),
        TimerOp::CtlRead => Some(vtimer.read_ctl()),
        TimerOp::CtlWrite => {
            vtimer.write_ctl(rt_value);
            None
        },
        TimerOp::CvalRead => Some(vtimer.read_cval()),
        TimerOp::CvalWrite => {
            vtimer.write_cval(rt_value);
            None
        },
        TimerOp::TvalRead => Some(vtimer.read_tval()),
        TimerOp::TvalWrite => {
            vtimer.write_tval(rt_value);
            None
        },
    };
    if let Some(value) = write {
        actions.push(VcpuAction::SetReg { reg: rt, value });
    }
    if irq {
        actions.push(VcpuAction::RaiseInterrupt);
    }
    assert(actions@ =~= timer_actions(op, rt, rt_value, *old(vtimer)));
    (actions, write)
}

/// The operation and register that a trap immediate stands for.
fn decode(imm: u16, mode: TimerPatchMode) -> (r: Option<(TimerOp, u32)>)
    ensures
        r == decode_immediate(imm as int, mode),
{
    let base: u16 = match mode {
        TimerPatchMode::Hvc => HVC_COUNTER_READ,
        TimerPatchMode::Brk => BRK_COUNTER_READ,
    };
    if imm < base {
        return None;
    }
    let rt: u32 = (imm % 32) as u32;
    match (imm - base) / 64 {
        0 => Some((TimerOp::CounterRead, rt)),
        1 => Some((TimerOp::FreqRead, rt)),
        2 => Some((TimerOp::CtlRead, rt)),
        3 => Some((TimerOp::CtlWrite, rt)),
        4 => Some((TimerOp::CvalRead, rt)),
        5 => Some((TimerOp::CvalWrite, rt)),
        6 => Some((TimerOp::TvalRead, rt)),
        7 => Some((TimerOp::TvalWrite, rt)),
        _ => None,
    }
}

/// The general register whose value [`handle_patched_timer_brk`] needs.
pub fn patched_brk_source(hsr: u32) -> (reg: Option<u32>)
    ensures
        reg == (match decode_immediate(hsr as int % 0x1_0000, TimerPatchMode::Brk) {
            Some((op, rt)) => if op.is_write() {
                Some(rt)
            } else {
                None
            },
            None => None,
        }),
{
    source(decode((hsr % 0x1_0000) as u16, TimerPatchMode::Brk))
}

/// The general register whose value [`handle_patched_timer_hvc`] needs.
pub fn patched_hvc_source(syndrome: u64) -> (reg: Option<u32>)
    ensures
        reg == (match decode_immediate(syndrome as int % 0x1_0000, TimerPatchMode::Hvc) {
            Some((op, rt)) => if op.is_write() {
                Some(rt)
            } else {
                None
            },
            None => None,
        }),
{
    source(decode((syndrome % 0x1_0000) as u16, TimerPatchMode::Hvc))
}

/// Is the immediate in an HVC's syndrome a patched timer access?
pub fn is_patched_hvc(syndrome: u64) -> (b: bool)
    ensures
        b == decode_immediate(syndrome as int % 0x1_0000, TimerPatchMode::Hvc) is Some,
{
    decode((syndrome % 0x1_0000) as u16, TimerPatchMode::Hvc).is_some()
}

/// Is the immediate in a BRK's syndrome a patched timer access?
pub fn is_patched_brk(hsr: u32) -> (b: bool)
    ensures
        b == decode_immediate(hsr as int % 0x1_0000, TimerPatchMode::Brk) is Some,
{
    decode((hsr % 0x1_0000) as u16, TimerPatchMode::Brk).is_some()
}

/// The register that a decoded access reads.
fn source(access: Option<(TimerOp, u32)>) -> (reg: Option<u32>)
    ensures
        reg == (match access {
            Some((op, rt)) => if op.is_write() {
                Some(rt)
            } else {
                None
            },
            None => None,
        }),
{
    match access {
        Some((TimerOp::CtlWrite, rt)) => Some(rt),
        Some((TimerOp::CvalWrite, rt)) => Some(rt),
        Some((TimerOp::TvalWrite, rt)) => Some(rt),
        _ => None,
    }
}

/// Handle a BRK debug exit for patched timer instructions (KVM).
/// The HSR (exception syndrome register) contains the BRK immediate in bits
/// 15:0; the immediate encodes the operation type + register, same scheme as
/// HVC. `rt_value` is the value of the register that
/// [`patched_brk_source`] names. Returns `None` if this was no patched timer
/// BRK; a debug exit does not advance PC by itself, so the last change does.
pub fn handle_patched_timer_brk(
    hsr: u32,
    rt_value: u64,
    pc: u64,
    vtimer: &mut VirtualTimer,
) -> (r: Option<Vec<VcpuAction>>)
    ensures
        match decode_immediate(hsr as int % 0x1_0000, TimerPatchMode::Brk) {
            None => r is None && *final(vtimer) == *old(vtimer),
            Some((op, rt)) => {
                &&& r is Some
                &&& r->0@ == timer_actions(op, rt, rt_value, *old(vtimer)).push(
                    VcpuAction::SetReg {
                        reg: REG_PC,
                        value: vcpu::next_pc(pc_after_access(op, rt, rt_value, *old(vtimer), pc)),
                    },
                )
                &&& *final(vtimer) == timer_effect(op, rt_value, *old(vtimer)).0
            },
        },
{
    match decode((hsr % 0x1_0000) as u16, TimerPatchMode::Brk) {
        None => None,
        Some((op, rt)) => {
            let (mut actions, write) = emulate(op, rt, rt_value, vtimer);
            let mut at: u64 = pc;
            if let Some(value) = write {
                if rt == REG_PC {
                    at = value;
                }
            }
            actions.push(VcpuAction::SetReg { reg: REG_PC, value: vcpu::advance_pc(at) });
            Some(actions)
        },
    }
}

/// Check if an HVC immediate is a patched timer access, and handle it.
/// Only used on HVF where timer instructions are patched to HVC, which
/// advances PC by itself. `rt_value` is the value of the register that
/// [`patched_hvc_source`] names.
pub fn handle_patched_timer_hvc(
    syndrome: u64,
    rt_value: u64,
    vtimer: &mut VirtualTimer,
) -> (r: Option<Vec<VcpuAction>>)
    ensures
        match decode_immediate(syndrome as int % 0x1_0000, TimerPatchMode::Hvc) {
            None => r is None && *final(vtimer) == *old(vtimer),
            Some((op, rt)) => {
                &&& r is Some
                &&& r->0@ == timer_actions(op, rt, rt_value, *old(vtimer))
                &&& *final(vtimer) == timer_effect(op, rt_value, *old(vtimer)).0
            },
        },
{
    match decode((syndrome % 0x1_0000) as u16, TimerPatchMode::Hvc) {
        None => None,
        Some((op, rt)) => {
            let (actions, _) = emulate(op, rt, rt_value, vtimer);
            Some(actions)
        },
    }
}

/// Immediates decode to what they were made of.
proof fn lemma_decode_immediate(op: TimerOp, mode: TimerPatchMode, rt: u32)
    requires
        rt < 32,
    ensures
        decode_immediate(immediate(op, mode, rt as int), mode) == Some((op, rt)),
        0x100 <= immediate(op, mode, rt as int) < 0xE300,
{
    let k = op.index();
    let imm = immediate(op, mode, rt as int);
    assert(0 <= k < 8);
    assert((64 * k + rt) / 64 == k);
    assert(imm == 32 * (mode.base() / 32 + 2 * k) + rt);
    assert(imm % 32 == rt);
}

// Laws

/// The trap that replaces a timer instruction carries, in the 16 bits that
/// the exit syndrome reports, exactly the operation and the register of the
/// instruction it replaced, and on x0 to x30 the handler does what the
/// instruction did: a read sets that register and nothing moves PC.
///
/// With register 31 the handler does not keep the instruction's meaning. The
/// instruction means the zero register, which discards what is read; the
/// handler means PC, so that what is read becomes the address at which the
/// guest goes on.
pub proof fn law_patched_instruction_keeps_its_meaning(
    insn: u32,
    mode: TimerPatchMode,
    rt_value: u64,
    t: VirtualTimer,
    pc: u64,
)
    requires
        timer_access(insn) is Some,
    ensures
        ({
            let (op, rt) = timer_access(insn)->0;
            let imm = immediate(op, mode, rt as int);
            let read = timer_effect(op, rt_value, t).1;
            &&& 0 <= imm < 0x1_0000
            &&& decode_immediate(imm, mode) == timer_access(insn)
            &&& replacement(insn, mode) == Some(trap_insn(imm, mode))
            &&& (trap_insn(imm, mode) as int / 32) % 0x1_0000 == imm
            &&& read is None <==> op.is_write()
            &&& read matches Some(value) ==> timer_actions(op, rt, rt_value, t)[0]
                == (VcpuAction::SetReg { reg: rt, value })
            &&& rt != 31 ==> pc_after_access(op, rt, rt_value, t, pc) == pc
            &&& rt == 31 && !op.is_write() ==> pc_after_access(op, rt, rt_value, t, pc) == read->0
        }),
{
    let (op, rt) = timer_access(insn)->0;
    lemma_decode_immediate(op, mode, rt);
    let imm = immediate(op, mode, rt as int);
    assert((0xD400_0002 + 32 * imm) / 32 == 0x6A0_0000 + imm);
    assert((0xD420_0000 + 32 * imm) / 32 == 0x6A1_0000 + imm);
    assert((0x6A0_0000 + imm) % 0x1_0000 == imm && (0x6A1_0000 + imm) % 0x1_0000 == imm);
}

/// Patching leaves every byte outside the image's timer instructions as it
/// was, and the image's length too.
pub proof fn law_patching_touches_only_timer_instructions(
    m: Seq<u8>,
    off: int,
    size: int,
    mode: TimerPatchMode,
    i: int,
)
    requires
        0 <= off,
        0 <= size,
        off + 4 * code_words(size) <= m.len(),
        0 <= i < m.len(),
        i < off || off + 4 * code_words(size) <= i || timer_access(
            word_at(m, off + (i - off) / 4 * 4),
        ) is None,
    ensures
        patched_image(m, off, size, mode).len() == m.len(),
        patched_image(m, off, size, mode)[i] == m[i],
{
}

/// The patched image holds no timer instruction among its first `words` words.
proof fn lemma_no_timer_instruction_left(
    m: Seq<u8>,
    off: int,
    size: int,
    mode: TimerPatchMode,
    words: int,
)
    requires
        0 <= off,
        0 <= size,
        off + 4 * code_words(size) <= m.len(),
        words <= code_words(size),
    ensures
        timer_insn_count(patched_image(m, off, size, mode), off, words) == 0,
    decreases words,
{
    if words > 0 {
        lemma_no_timer_instruction_left(m, off, size, mode, words - 1);
        lemma_patched_word(m, off, size, mode, words - 1);
    }
}

/// Word `w` of the patched image: the trap that replaced a timer instruction,
/// or the word that was there. Neither is a timer instruction.
proof fn lemma_patched_word(m: Seq<u8>, off: int, size: int, mode: TimerPatchMode, w: int)
    requires
        0 <= off,
        0 <= w < code_words(size),
        off + 4 * code_words(size) <= m.len(),
    ensures
        timer_access(word_at(patched_image(m, off, size, mode), off + 4 * w)) is None,
        word_at(patched_image(m, off, size, mode), off + 4 * w) == (match replacement(
            word_at(m, off + 4 * w),
            mode,
        ) {
            Some(trap) => trap,
            None => word_at(m, off + 4 * w),
        }),
{
    let once = patched_image(m, off, size, mode);
    let p = off + 4 * w;
    let word = word_at(m, p);
    bytes::lemma_pow256_values();
    match replacement(word, mode) {
        Some(trap) => {
            bytes::lemma_le_bytes_len(trap as nat, 4);
            assert forall|k: int| 0 <= k < 4 implies once.subrange(p, p + 4)[k]
                == bytes::le_bytes(trap as nat, 4)[k] by {
                let j = p + k;
                assert((j - off) / 4 * 4 == 4 * w && (j - off) % 4 == k);
            }
            assert(once.subrange(p, p + 4) =~= bytes::le_bytes(trap as nat, 4));
            bytes::lemma_le_round_trip(trap as nat, 4);
            assert(word_at(once, p) == trap);
        },
        None => {
            assert forall|j: int| p <= j < p + 4 implies once[j] == m[j] by {
                assert((j - off) / 4 * 4 == 4 * w);
            }
            assert(once.subrange(p, p + 4) =~= m.subrange(p, p + 4));
        },
    }
}

/// No trap instruction is itself a timer instruction, so after patching the
/// image holds none: patching it again finds nothing and changes nothing.
pub proof fn law_patching_is_idempotent(m: Seq<u8>, off: int, size: int, mode: TimerPatchMode)
    requires
        0 <= off,
        0 <= size,
        off + 4 * code_words(size) <= m.len(),
    ensures
        timer_insn_count(patched_image(m, off, size, mode), off, code_words(size)) == 0,
        patched_image(patched_image(m, off, size, mode), off, size, mode) == patched_image(
            m,
            off,
            size,
            mode,
        ),
{
    let once = patched_image(m, off, size, mode);
    let twice = patched_image(once, off, size, mode);
    lemma_no_timer_instruction_left(m, off, size, mode, code_words(size));
    assert forall|i: int| 0 <= i < m.len() implies twice[i] == once[i] by {
        if off <= i < off + 4 * code_words(size) {
            lemma_patched_word(m, off, size, mode, (i - off) / 4);
        }
    }
    assert(twice =~= once);
}

/// The instruction `MRS Xrt, <reg>` for the system register with the encoding
/// `reg`: bit 21 is set, the encoding stands in bits 20 to 5.
pub open spec fn mrs(reg: int, rt: int) -> int {
    0xd520_0000 + 32 * reg + rt
}

/// The instruction `MSR <reg>, Xrt`.
pub open spec fn msr(reg: int, rt: int) -> int {
    0xd500_0000 + 32 * reg + rt
}

/// The architecture's timer registers: op0 = 3, op1 = 3, CRn = 14, told apart
/// by CRm and op2.
pub open spec fn timer_reg(crm: int, op2: int) -> int {
    registers::encoding(3, 3, 14, crm, op2)
}

/// Which words access the timer is the architecture's matter: reads of the
/// virtual and physical counters (CRm 0, op2 2 and 1) and of the frequency
/// (CRm 0, op2 0), and reads and writes of the virtual timer's control,
/// compare and timer value registers (CRm 3, op2 1, 2 and 0), with any of the
/// 32 register numbers; and no other word.
pub proof fn law_timer_instructions_are_the_architectures(insn: u32, rt: u32)
    requires
        rt < 32,
    ensures
        timer_access(insn) == Some((TimerOp::CounterRead, rt)) <==> (insn == mrs(
            timer_reg(0, 2),
            rt as int,
        ) || insn == mrs(timer_reg(0, 1), rt as int)),
        timer_access(insn) == Some((TimerOp::FreqRead, rt)) <==> insn == mrs(
            timer_reg(0, 0),
            rt as int,
        ),
        timer_access(insn) == Some((TimerOp::CtlRead, rt)) <==> insn == mrs(
            timer_reg(3, 1),
            rt as int,
        ),
        timer_access(insn) == Some((TimerOp::CvalRead, rt)) <==> insn == mrs(
            timer_reg(3, 2),
            rt as int,
        ),
        timer_access(insn) == Some((TimerOp::TvalRead, rt)) <==> insn == mrs(
            timer_reg(3, 0),
            rt as int,
        ),
        timer_access(insn) == Some((TimerOp::CtlWrite, rt)) <==> insn == msr(
            timer_reg(3, 1),
            rt as int,
        ),
        timer_access(insn) == Some((TimerOp::CvalWrite, rt)) <==> insn == msr(
            timer_reg(3, 2),
            rt as int,
        ),
        timer_access(insn) == Some((TimerOp::TvalWrite, rt)) <==> insn == msr(
            timer_reg(3, 0),
            rt as int,
        ),
        timer_reg(3, 1) == registers::sys_reg_encoding(SysReg::CNTV_CTL_EL0),
        timer_reg(3, 2) == registers::sys_reg_encoding(SysReg::CNTV_CVAL_EL0),
{
}

/// A timer instruction names one of the 32 registers.
pub proof fn law_timer_instructions_name_a_register(insn: u32)
    requires
        timer_access(insn) is Some,
    ensures
        (timer_access(insn)->0).1 < 32,
        (timer_access(insn)->0).1 == insn % 32,
{
}

/// The replacement is a trap instruction of the architecture, HVC (0b11010100
/// 000 imm16 00010) or BRK (0b11010100 001 imm16 00000), with any 16-bit
/// immediate.
pub proof fn law_traps_are_the_architectures(imm: int)
    requires
        0 <= imm < 0x1_0000,
    ensures
        trap_insn(imm, TimerPatchMode::Hvc) == 0b1101_0100_000 * 0x20_0000 + imm * 32 + 0b00010,
        trap_insn(imm, TimerPatchMode::Brk) == 0b1101_0100_001 * 0x20_0000 + imm * 32 + 0b00000,
{
}

/// The immediates that stand for timer accesses keep clear of those that mean
/// something else: of small HVC immediates, and of the kernel's own BRKs below
/// 0xE100. There are eight operations of 64 immediates each.
pub proof fn law_immediates_keep_clear(imm: int)
    requires
        0 <= imm < 0x1_0000,
    ensures
        decode_immediate(imm, TimerPatchMode::Hvc) is Some <==> 0x100 <= imm < 0x300,
        decode_immediate(imm, TimerPatchMode::Brk) is Some <==> 0xE100 <= imm < 0xE300,
        decode_immediate(imm, TimerPatchMode::Hvc) matches Some((op, rt)) ==> rt == imm % 32,
        decode_immediate(imm, TimerPatchMode::Brk) matches Some((op, rt)) ==> rt == imm % 32,
{
}

/// The timer registers behave as registers: what the guest writes it reads
/// back, and a write touches that register alone. The compare register is
/// absolute, the timer value register relative to the counter, and both are
/// the same deadline.
pub proof fn law_timer_registers_read_back(t: VirtualTimer, v: u64, w: u64)
    ensures
        ({
            let cval = timer_effect(TimerOp::CvalWrite, v, t).0;
            &&& cval.cval == v && cval.counter == t.counter && cval.ctl == t.ctl
            &&& timer_effect(TimerOp::CvalRead, w, cval).1 == Some(v)
        }),
        ({
            let ctl = timer_effect(TimerOp::CtlWrite, v, t).0;
            &&& ctl.ctl == v && ctl.counter == t.counter && ctl.cval == t.cval
            &&& t.counter < t.cval ==> timer_effect(TimerOp::CtlRead, w, ctl).1 == Some(v)
            &&& timer_effect(TimerOp::CtlRead, w, ctl).1 is Some
            &&& timer_effect(TimerOp::CtlRead, w, ctl).1->0 % 4 == v % 4
        }),
        ({
            let tval = timer_effect(TimerOp::TvalWrite, v, t).0;
            let low = v as int % 0x1_0000_0000;
            let ticks = if low < 0x8000_0000 {
                low
            } else {
                low - 0x1_0000_0000
            };
            &&& tval.counter == t.counter && tval.ctl == t.ctl
            &&& (tval.cval - t.counter - ticks) % 0x1_0000_0000_0000_0000 == 0
            &&& timer_effect(TimerOp::CvalRead, w, tval).1 == Some(tval.cval)
            &&& timer_effect(TimerOp::TvalRead, w, tval).1 == Some(
                (if ticks >= 0 {
                    ticks
                } else {
                    ticks + 0x1_0000_0000_0000_0000
                }) as u64,
            )
        }),
{
    vtimer::law_tval_counts_from_now(t, v);
    vtimer::law_istatus_reflects_expiry(VirtualTimer { ctl: v, ..t });
}

/// Reads answer and writes do not; only a counter read changes the timer by
/// reading it, and it answers with the time it has moved to, 24 ticks on. The
/// frequency is 24 MHz.
pub proof fn law_timer_reads(op: TimerOp, v: u64, t: VirtualTimer)
    ensures
        timer_effect(op, v, t).1 is None <==> (op is CtlWrite || op is CvalWrite || op is TvalWrite),
        op is FreqRead || op is CtlRead || op is CvalRead || op is TvalRead ==> timer_effect(
            op,
            v,
            t,
        ).0 == t,
        op is FreqRead ==> timer_effect(op, v, t).1 == Some(24_000_000u64),
        op is CvalRead ==> timer_effect(op, v, t).1 == Some(t.cval),
        op is TvalRead && t.counter <= t.cval < t.counter + 0x8000_0000 ==> timer_effect(
            op,
            v,
            t,
        ).1 == Some((t.cval - t.counter) as u64),
        op is CtlRead && t.counter < t.cval ==> timer_effect(op, v, t).1 == Some(t.ctl),
        op is CtlRead && t.counter >= t.cval ==> (timer_effect(op, v, t).1->0 / 4) % 2 == 1,
        op is CounterRead && t.counter + 24 <= u64::MAX ==> timer_effect(op, v, t).1 == Some(
            (t.counter + 24) as u64,
        ),
        op is CounterRead ==> timer_effect(op, v, t).1 == Some(timer_effect(op, v, t).0.counter)
            && timer_effect(op, v, t).0.cval == t.cval && timer_effect(op, v, t).0.ctl == t.ctl,
{
    vtimer::law_fires_at_the_deadline(t);
    if op is TvalRead && t.counter <= t.cval < t.counter + 0x8000_0000 {
        vtimer::law_tval_reads_the_distance(t);
    }
}

/// Of all timer accesses only a counter read can make the timer fire, and it
/// does exactly if the time it moves to has come to the deadline of an enabled
/// and unmasked timer.
pub proof fn law_only_time_raises_interrupts(op: TimerOp, rt: u32, v: u64, t: VirtualTimer)
    ensures
        timer_actions(op, rt, v, t).contains(VcpuAction::RaiseInterrupt) <==> op is CounterRead
            && t.ctl % 4 == 1 && timer_effect(op, v, t).0.counter >= t.cval,
        op is CtlWrite || op is CvalWrite || op is TvalWrite ==> timer_actions(op, rt, v, t).len()
            == 0,
        !(op is CtlWrite || op is CvalWrite || op is TvalWrite) ==> {
            let acts = timer_actions(op, rt, v, t);
            &&& 1 <= acts.len() <= 2
            &&& acts[0] == (VcpuAction::SetReg { reg: rt, value: timer_effect(op, v, t).1->0 })
            &&& acts.len() == 2 ==> acts[1] == VcpuAction::RaiseInterrupt
        },
{
    let acts = timer_actions(op, rt, v, t);
    let after = timer_effect(op, v, t).0;
    vtimer::law_fires_at_the_deadline(after);
    if op is CounterRead && after.pending() {
        assert(acts[1] == VcpuAction::RaiseInterrupt);
    }
}

/// The fields of a trap instruction: its opcode and its immediate.
proof fn lemma_trap_fields(imm: int, mode: TimerPatchMode)
    requires
        0 <= imm < 0x1_0000,
    ensures
        trap_insn(imm, mode) as int / 0x20_0000 == (if mode is Hvc {
            0b1101_0100_000int
        } else {
            0b1101_0100_001
        }),
        (trap_insn(imm, mode) as int / 32) % 0x1_0000 == imm,
{
    match mode {
        TimerPatchMode::Hvc => {
            assert(trap_insn(imm, mode) as int == 0xD400_0002 + 32 * imm);
            assert((0xD400_0002 + 32 * imm) / 32 == 0x6A0_0000 + imm);
        },
        TimerPatchMode::Brk => {
            assert(trap_insn(imm, mode) as int == 0xD420_0000 + 32 * imm);
            assert((0xD420_0000 + 32 * imm) / 32 == 0x6A1_0000 + imm);
        },
    }
}

/// Every timer instruction of the image is replaced by the trap that stands for
/// it, and every other word stays as it was.
pub proof fn law_every_timer_instruction_is_replaced(
    m: Seq<u8>,
    off: int,
    size: int,
    mode: TimerPatchMode,
    w: int,
)
    requires
        0 <= off,
        0 <= w < code_words(size),
        off + 4 * code_words(size) <= m.len(),
    ensures
        ({
            let old_word = word_at(m, off + 4 * w);
            let new_word = word_at(patched_image(m, off, size, mode), off + 4 * w);
            match timer_access(old_word) {
                Some((op, rt)) => {
                    &&& new_word as int / 0x20_0000 == (if mode is Hvc {
                        0b1101_0100_000int
                    } else {
                        0b1101_0100_001
                    })
                    &&& decode_immediate((new_word as int / 32) % 0x1_0000, mode) == Some((op, rt))
                },
                None => new_word == old_word,
            }
        }),
{
    let once = patched_image(m, off, size, mode);
    let p = off + 4 * w;
    let word = word_at(m, p);
    lemma_patched_word(m, off, size, mode, w);
    if let Some((op, rt)) = timer_access(word) {
        assert(rt < 32);
        let imm = immediate(op, mode, rt as int);
        lemma_decode_immediate(op, mode, rt);
        lemma_trap_fields(imm, mode);
    }
}

/// The image is looked at to its last byte, a partial word included, and no
/// word further.
pub proof fn law_the_whole_image_is_looked_at(size: int)
    requires
        0 <= size,
    ensures
        size <= 4 * code_words(size) < size + 4,
{
}

/// The count is the number of timer instructions: one for a word that is one,
/// none for a word that is not, and over two stretches their sum.
pub proof fn law_count_of_patched_instructions(m: Seq<u8>, off: int, a: int, b: int)
    requires
        0 <= a,
        0 <= b,
    ensures
        timer_insn_count(m, off, 1) == (if timer_access(word_at(m, off)) is Some {
            1nat
        } else {
            0nat
        }),
        timer_insn_count(m, off, a + b) == timer_insn_count(m, off, a) + timer_insn_count(
            m,
            off + 4 * a,
            b,
        ),
        timer_insn_count(m, off, a) <= a,
    decreases b, a,
{
    reveal_with_fuel(timer_insn_count, 2);
    if b > 0 {
        law_count_of_patched_instructions(m, off, a, b - 1);
    } else if a > 0 {
        law_count_of_patched_instructions(m, off, a - 1, 0);
    }
}

/// No word of a patched image is a timer instruction.
pub proof fn law_patching_leaves_no_timer_instruction(
    m: Seq<u8>,
    off: int,
    size: int,
    mode: TimerPatchMode,
    w: int,
)
    requires
        0 <= off,
        0 <= w < code_words(size),
        off + 4 * code_words(size) <= m.len(),
    ensures
        timer_access(word_at(patched_image(m, off, size, mode), off + 4 * w)) is None,
{
    lemma_patched_word(m, off, size, mode, w);
}

/// The immediates by number: from 0x100 with HVC and from 0xE100 with BRK on,
/// 64 for each operation, of which the first 32 name the register.
pub proof fn law_immediates_by_number(rt: int)
    requires
        0 <= rt < 32,
    ensures
        immediate(TimerOp::CounterRead, TimerPatchMode::Hvc, rt) == 0x100 + rt,
        immediate(TimerOp::FreqRead, TimerPatchMode::Hvc, rt) == 0x140 + rt,
        immediate(TimerOp::CtlRead, TimerPatchMode::Hvc, rt) == 0x180 + rt,
        immediate(TimerOp::CtlWrite, TimerPatchMode::Hvc, rt) == 0x1C0 + rt,
        immediate(TimerOp::CvalRead, TimerPatchMode::Hvc, rt) == 0x200 + rt,
        immediate(TimerOp::CvalWrite, TimerPatchMode::Hvc, rt) == 0x240 + rt,
        immediate(TimerOp::TvalRead, TimerPatchMode::Hvc, rt) == 0x280 + rt,
        immediate(TimerOp::TvalWrite, TimerPatchMode::Hvc, rt) == 0x2C0 + rt,
        forall|op: TimerOp| #[trigger]
            immediate(op, TimerPatchMode::Brk, rt) == 0xE000 + immediate(
                op,
                TimerPatchMode::Hvc,
                rt,
            ),
{
}

} // verus!
