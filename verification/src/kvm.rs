//! Linux KVM: the IDs it gives to registers, and what its exits mean.
//!
//! KVM names a register by a 64-bit ID: the architecture, the size of the
//! value, and either the encoding of a system register or an offset into
//! `struct kvm_regs`:
//!
//! ```text
//! struct kvm_regs {
//!     struct user_pt_regs { u64 regs[31]; u64 sp; u64 pc; u64 pstate; };
//!     u64 sp_el1;
//!     u64 elr_el1;
//!     u64 spsr[5];
//!     struct user_fpsimd_state { __uint128_t vregs[32]; u32 fpsr; u32 fpcr; };
//! };
//! ```

use crate::bytes;
use crate::registers;
use crate::registers::{MmioAccess, SysReg, VcpuExit, REG_FPCR, REG_FPSR, REG_PC};
use vstd::prelude::*;

verus! {

pub const KVM_REG_ARM64: u64 = 0x6000_0000_0000_0000;

pub const KVM_REG_SIZE_U32: u64 = 0x0020_0000_0000_0000;

pub const KVM_REG_SIZE_U64: u64 = 0x0030_0000_0000_0000;

pub const KVM_REG_SIZE_U128: u64 = 0x0040_0000_0000_0000;

pub const KVM_REG_ARM_CORE: u64 = 0x0010_0000;

pub const KVM_REG_ARM64_SYSREG: u64 = 0x0013_0000;

/// `user_pt_regs.sp`
pub const SP_OFFSET: u64 = 31 * 8;

/// `user_pt_regs.pc`
pub const PC_OFFSET: u64 = 32 * 8;

/// `user_pt_regs.pstate`
pub const PSTATE_OFFSET: u64 = 33 * 8;

pub const SP_EL1_OFFSET: u64 = 34 * 8;

pub const ELR_EL1_OFFSET: u64 = 35 * 8;

/// `spsr[0]` of the array that follows `elr_el1`.
pub const SPSR_EL1_OFFSET: u64 = 36 * 8;

/// `user_fpsimd_state`, after `spsr[5]` and padding.
pub const FP_REGS_OFFSET: u64 = 42 * 8;

/// `u32 fpsr`, after 32 registers of 16 bytes.
pub const FPSR_OFFSET: u64 = 42 * 8 + 32 * 16;

/// `u32 fpcr`
pub const FPCR_OFFSET: u64 = 42 * 8 + 32 * 16 + 4;

/// "No such file or directory": a register that this KVM does not offer.
pub const ENOENT: i32 = 2;

/// "Interrupted system call".
pub const EINTR: i32 = 4;

/// "Try again".
pub const EAGAIN: i32 = 11;

/// The ID of a system register with the encoding `e`.
pub open spec fn sysreg_id(e: int) -> int {
    KVM_REG_ARM64 + KVM_REG_SIZE_U64 + KVM_REG_ARM64_SYSREG + e
}

/// The ID of the register at `byte_offset` in `struct kvm_regs`.
pub open spec fn core_id(size: u64, byte_offset: int) -> int {
    KVM_REG_ARM64 + KVM_REG_ARM_CORE + size + byte_offset / 4
}

/// Where a system register stands in `struct kvm_regs`, if it does.
pub open spec fn core_offset(reg: SysReg) -> Option<u64> {
    match reg {
        SysReg::SPSR_EL1 => Some(SPSR_EL1_OFFSET),
        SysReg::ELR_EL1 => Some(ELR_EL1_OFFSET),
        // The user-mode stack pointer is `user_pt_regs.sp`.
        SysReg::SP_EL0 => Some(SP_OFFSET),
        SysReg::SP_EL1 => Some(SP_EL1_OFFSET),
        _ => None,
    }
}

/// The ID of a system register.
pub open spec fn sys_reg_id(reg: SysReg) -> int {
    match core_offset(reg) {
        Some(offset) => core_id(KVM_REG_SIZE_U64, offset as int),
        None => sysreg_id(registers::sys_reg_encoding(reg)),
    }
}

/// The ID of a general register (0-34).
pub open spec fn gpr_id(reg: u32) -> int {
    if reg <= 30 {
        core_id(KVM_REG_SIZE_U64, reg * 8)
    } else if reg == REG_PC {
        core_id(KVM_REG_SIZE_U64, PC_OFFSET as int)
    } else if reg == REG_FPCR {
        core_id(KVM_REG_SIZE_U32, FPCR_OFFSET as int)
    } else if reg == REG_FPSR {
        core_id(KVM_REG_SIZE_U32, FPSR_OFFSET as int)
    } else {
        core_id(KVM_REG_SIZE_U64, PSTATE_OFFSET as int)
    }
}

/// The ID of the system register with the given encoding fields.
pub fn kvm_sys_reg_id(op0: u64, op1: u64, crn: u64, crm: u64, op2: u64) -> (id: u64)
    requires
        op0 < 4,
        op1 < 8,
        crn < 16,
        crm < 16,
        op2 < 8,
    ensures
        id == sysreg_id(
            registers::encoding(op0 as int, op1 as int, crn as int, crm as int, op2 as int),
        ),
{
    proof {
        assert(0x6000_0000_0000_0000u64 | 0x0030_0000_0000_0000u64 | 0x0013_0000u64 | (op0 << 14)
            | (op1 << 11) | (crn << 7) | (crm << 3) | op2 == 0x6030_0000_0013_0000u64 + op0 * 0x4000
            + op1 * 0x800 + crn * 0x80 + crm * 8 + op2) by (bit_vector)
            requires
                op0 < 4,
                op1 < 8,
                crn < 16,
                crm < 16,
                op2 < 8,
        ;
    }
    KVM_REG_ARM64 | KVM_REG_SIZE_U64 | KVM_REG_ARM64_SYSREG | (op0 << 14) | (op1 << 11) | (crn << 7)
        | (crm << 3) | op2
}

/// The ID of the register of the given size at `byte_offset` in
/// `struct kvm_regs`; KVM counts in units of 4 bytes.
pub fn kvm_core_reg_id(size: u64, byte_offset: u64) -> (id: u64)
    requires
        size == KVM_REG_SIZE_U32 || size == KVM_REG_SIZE_U64 || size == KVM_REG_SIZE_U128,
        byte_offset < 0x4_0000,
    ensures
        id == core_id(size, byte_offset as int),
{
    proof {
        assert(0x6000_0000_0000_0000u64 | 0x0010_0000u64 | size | (byte_offset / 4)
            == 0x6000_0000_0010_0000u64 + size + byte_offset / 4) by (bit_vector)
            requires
                size == 0x0020_0000_0000_0000u64 || size == 0x0030_0000_0000_0000u64 || size
                    == 0x0040_0000_0000_0000u64,
                byte_offset < 0x4_0000,
        ;
    }
    KVM_REG_ARM64 | KVM_REG_ARM_CORE | size | (byte_offset / 4)
}

/// The ID of a system register. `SPSR_EL1`, `ELR_EL1` and the two stack
/// pointers are core registers on KVM, not reachable as system registers.
pub fn sys_reg_to_kvm(reg: SysReg) -> (id: u64)
    ensures
        id == sys_reg_id(reg),
{
    match reg {
        SysReg::MDSCR_EL1 => kvm_sys_reg_id(2, 0, 0, 2, 2),
        SysReg::MPIDR_EL1 => kvm_sys_reg_id(3, 0, 0, 0, 5),
        SysReg::SCTLR_EL1 => kvm_sys_reg_id(3, 0, 1, 0, 0),
        SysReg::CPACR_EL1 => kvm_sys_reg_id(3, 0, 1, 0, 2),
        SysReg::TTBR0_EL1 => kvm_sys_reg_id(3, 0, 2, 0, 0),
        SysReg::TTBR1_EL1 => kvm_sys_reg_id(3, 0, 2, 0, 1),
        SysReg::TCR_EL1 => kvm_sys_reg_id(3, 0, 2, 0, 2),
        SysReg::SPSR_EL1 => kvm_core_reg_id(KVM_REG_SIZE_U64, SPSR_EL1_OFFSET),
        SysReg::ELR_EL1 => kvm_core_reg_id(KVM_REG_SIZE_U64, ELR_EL1_OFFSET),
        SysReg::AFSR0_EL1 => kvm_sys_reg_id(3, 0, 5, 1, 0),
        SysReg::AFSR1_EL1 => kvm_sys_reg_id(3, 0, 5, 1, 1),
        SysReg::ESR_EL1 => kvm_sys_reg_id(3, 0, 5, 2, 0),
        SysReg::FAR_EL1 => kvm_sys_reg_id(3, 0, 6, 0, 0),
        SysReg::PAR_EL1 => kvm_sys_reg_id(3, 0, 7, 4, 0),
        SysReg::MAIR_EL1 => kvm_sys_reg_id(3, 0, 10, 2, 0),
        SysReg::AMAIR_EL1 => kvm_sys_reg_id(3, 0, 10, 3, 0),
        SysReg::VBAR_EL1 => kvm_sys_reg_id(3, 0, 12, 0, 0),
        SysReg::CONTEXTIDR_EL1 => kvm_sys_reg_id(3, 0, 13, 0, 1),
        SysReg::TPIDR_EL1 => kvm_sys_reg_id(3, 0, 13, 0, 4),
        SysReg::CNTKCTL_EL1 => kvm_sys_reg_id(3, 0, 14, 1, 0),
        SysReg::CSSELR_EL1 => kvm_sys_reg_id(3, 2, 0, 0, 0),
        SysReg::SP_EL0 => kvm_core_reg_id(KVM_REG_SIZE_U64, SP_OFFSET),
        SysReg::TPIDR_EL0 => kvm_sys_reg_id(3, 3, 13, 0, 2),
        SysReg::TPIDRRO_EL0 => kvm_sys_reg_id(3, 3, 13, 0, 3),
        SysReg::CNTV_CTL_EL0 => kvm_sys_reg_id(3, 3, 14, 3, 1),
        SysReg::CNTV_CVAL_EL0 => kvm_sys_reg_id(3, 3, 14, 3, 2),
        SysReg::CNTP_CTL_EL0 => kvm_sys_reg_id(3, 3, 14, 2, 1),
        SysReg::CNTP_CVAL_EL0 => kvm_sys_reg_id(3, 3, 14, 2, 2),
        SysReg::CNTHCTL_EL2 => kvm_sys_reg_id(3, 4, 14, 1, 0),
        SysReg::SP_EL1 => kvm_core_reg_id(KVM_REG_SIZE_U64, SP_EL1_OFFSET),
        SysReg::APIAKEYLO_EL1 => kvm_sys_reg_id(3, 0, 2, 1, 0),
        SysReg::APIAKEYHI_EL1 => kvm_sys_reg_id(3, 0, 2, 1, 1),
        SysReg::APIBKEYLO_EL1 => kvm_sys_reg_id(3, 0, 2, 1, 2),
        SysReg::APIBKEYHI_EL1 => kvm_sys_reg_id(3, 0, 2, 1, 3),
        SysReg::APDAKEYLO_EL1 => kvm_sys_reg_id(3, 0, 2, 2, 0),
        SysReg::APDAKEYHI_EL1 => kvm_sys_reg_id(3, 0, 2, 2, 1),
        SysReg::APDBKEYLO_EL1 => kvm_sys_reg_id(3, 0, 2, 2, 2),
        SysReg::APDBKEYHI_EL1 => kvm_sys_reg_id(3, 0, 2, 2, 3),
        SysReg::APGAKEYLO_EL1 => kvm_sys_reg_id(3, 0, 2, 3, 0),
        SysReg::APGAKEYHI_EL1 => kvm_sys_reg_id(3, 0, 2, 3, 1),
    }
}

/// The ID of a general register:
/// 0-30 = x0-x30, 31 = PC, 32 = FPCR, 33 = FPSR, 34 = CPSR/PSTATE.
pub fn gpr_to_kvm_id(reg: u32) -> (id: u64)
    requires
        reg <= 34,
    ensures
        id == gpr_id(reg),
{
    if reg <= 30 {
        kvm_core_reg_id(KVM_REG_SIZE_U64, reg as u64 * 8)
    } else if reg == REG_PC {
        kvm_core_reg_id(KVM_REG_SIZE_U64, PC_OFFSET)
    } else if reg == REG_FPCR {
        kvm_core_reg_id(KVM_REG_SIZE_U32, FPCR_OFFSET)
    } else if reg == REG_FPSR {
        kvm_core_reg_id(KVM_REG_SIZE_U32, FPSR_OFFSET)
    } else {
        kvm_core_reg_id(KVM_REG_SIZE_U64, PSTATE_OFFSET)
    }
}

/// The ID of SIMD/FP register `reg` (Q0-Q31, 128-bit).
pub fn simd_to_kvm_id(reg: u32) -> (id: u64)
    requires
        reg < 32,
    ensures
        id == core_id(KVM_REG_SIZE_U128, FP_REGS_OFFSET + reg * 16),
{
    kvm_core_reg_id(KVM_REG_SIZE_U128, FP_REGS_OFFSET + reg as u64 * 16)
}

/// Bytes of a general register: FPCR and FPSR are 32-bit registers.
pub open spec fn gpr_width(reg: u32) -> nat {
    if reg == REG_FPCR || reg == REG_FPSR {
        4
    } else {
        8
    }
}

/// How many bytes general register `reg` is read into.
pub fn gpr_size(reg: u32) -> (n: usize)
    ensures
        n == gpr_width(reg),
{
    if reg == REG_FPCR || reg == REG_FPSR {
        4
    } else {
        8
    }
}

/// The bytes that set general register `reg` to `val`.
pub fn gpr_bytes(reg: u32, val: u64) -> (b: Vec<u8>)
    ensures
        b@ == bytes::le_bytes(val as nat, gpr_width(reg)),
{
    bytes::to_le(val, gpr_size(reg))
}

/// The value that the bytes of a register hold.
pub fn reg_value(b: &[u8]) -> (val: u64)
    requires
        b@.len() <= 8,
    ensures
        val == bytes::le_value(b@),
{
    assert(b@.subrange(0, b@.len() as int) =~= b@);
    bytes::read_le(b, 0, b.len())
}

/// What a system register is taken to hold, from its value or from the error
/// of reading it: 0 where this KVM does not offer it (pKVM restricts some
/// registers). `None` on any other error.
pub fn sys_reg_read(result: Result<u64, i32>) -> (val: Option<u64>)
    ensures
        val == (match result {
            Ok(v) => Some(v),
            Err(errno) => if errno == ENOENT {
                Some(0u64)
            } else {
                None
            },
        }),
{
    match result {
        Ok(v) => Some(v),
        Err(errno) => if errno == ENOENT {
            Some(0)
        } else {
            None
        },
    }
}

/// Whether a write of a system register may be passed over in silence: it
/// succeeded, or this KVM does not offer the register.
pub fn sys_reg_write_accepted(result: Result<(), i32>) -> (ok: bool)
    ensures
        ok == (result is Ok || result->Err_0 == ENOENT),
{
    match result {
        Ok(()) => true,
        Err(errno) => errno == ENOENT,
    }
}

/// A VM exit as KVM reports it, or the error number of the run.
pub enum KvmExit {
    MmioRead { addr: u64, len: usize },
    MmioWrite { addr: u64, data: Vec<u8> },
    SystemEvent { event_type: u32 },
    Hlt,
    /// Guest debug exception, with its syndrome.
    Debug { hsr: u32 },
    Other,
    Failed { errno: i32 },
}

/// What an exit means; `None` if the run failed for good.
pub open spec fn exit_meaning(exit: KvmExit) -> Option<VcpuExit> {
    match exit {
        KvmExit::MmioRead { addr, len } => Some(
            VcpuExit::Mmio(
                MmioAccess { addr, is_write: false, len, reg: 0, sign_extend: false, data: 0 },
            ),
        ),
        KvmExit::MmioWrite { addr, data } => Some(
            VcpuExit::Mmio(
                MmioAccess {
                    addr,
                    is_write: true,
                    len: data@.len() as usize,
                    reg: 0,
                    sign_extend: false,
                    data: bytes::le_value(data@) as u64,
                },
            ),
        ),
        KvmExit::SystemEvent { event_type } => Some(VcpuExit::SystemEvent { event_type }),
        KvmExit::Hlt => Some(VcpuExit::Wfi),
        KvmExit::Debug { hsr } => Some(VcpuExit::Debug { hsr }),
        KvmExit::Other => Some(VcpuExit::Unknown(0)),
        KvmExit::Failed { errno } => if errno == EAGAIN || errno == EINTR {
            Some(VcpuExit::Canceled)
        } else {
            None
        },
    }
}

/// Decodes the exit that a run of the vCPU ended with. An interrupted run is a
/// canceled one; any other failure gives `None`.
pub fn decode_exit(exit: &KvmExit) -> (r: Option<VcpuExit>)
    requires
        exit matches KvmExit::MmioWrite { addr, data } ==> data@.len() <= 8,
    ensures
        r == exit_meaning(*exit),
{
    match exit {
        KvmExit::MmioRead { addr, len } => Some(
            VcpuExit::Mmio(
                MmioAccess {
                    addr: *addr,
                    is_write: false,
                    len: *len,
                    reg: 0,
                    sign_extend: false,
                    data: 0,
                },
            ),
        ),
        KvmExit::MmioWrite { addr, data } => Some(
            VcpuExit::Mmio(
                MmioAccess {
                    addr: *addr,
                    is_write: true,
                    len: data.len(),
                    reg: 0,
                    sign_extend: false,
                    data: reg_value(data.as_slice()),
                },
            ),
        ),
        KvmExit::SystemEvent { event_type } => Some(
            VcpuExit::SystemEvent { event_type: *event_type },
        ),
        KvmExit::Hlt => Some(VcpuExit::Wfi),
        KvmExit::Debug { hsr } => Some(VcpuExit::Debug { hsr: *hsr }),
        KvmExit::Other => Some(VcpuExit::Unknown(0)),
        KvmExit::Failed { errno } => if *errno == EAGAIN || *errno == EINTR {
            Some(VcpuExit::Canceled)
        } else {
            None
        },
    }
}

/// The bytes of `data` that answer an MMIO read of `len` bytes.
pub open spec fn mmio_answer(len: int, data: Seq<u8>) -> Seq<u8> {
    if len < data.len() {
        data.take(len)
    } else {
        data
    }
}

/// Completes an MMIO read of `len` bytes: the response goes to the front of
/// the run's data buffer, cut to what was asked for.
pub fn complete_mmio_read(buffer: &mut [u8], len: usize, data: &[u8])
    requires
        len <= old(buffer)@.len(),
    ensures
        final(buffer)@ == bytes::overlay(old(buffer)@, 0, mmio_answer(len as int, data@)),
{
    let n: usize = if len < data.len() {
        len
    } else {
        data.len()
    };
    assert(data@.subrange(0, n as int) =~= mmio_answer(len as int, data@));
    bytes::write_at(buffer, 0, vstd::slice::slice_subrange(data, 0, n));
}

// Laws

/// Both hypervisors go by the architectural encoding: the KVM ID of a register
/// other than the core registers is a fixed prefix followed by the ID that HVF
/// gives the register.
pub proof fn law_backends_agree(reg: SysReg)
    requires
        core_offset(reg) is None,
    ensures
        sys_reg_id(reg) == KVM_REG_ARM64 + KVM_REG_SIZE_U64 + KVM_REG_ARM64_SYSREG
            + registers::sys_reg_encoding(reg),
{
}

/// No two system registers share an ID.
pub proof fn law_sys_reg_ids_differ(a: SysReg, b: SysReg)
    ensures
        sys_reg_id(a) == sys_reg_id(b) <==> a == b,
{
    registers::law_encodings_differ(a, b);
}

/// No two general registers share an ID, nor does a general register share
/// one with a system register.
pub proof fn law_gpr_ids_differ(a: u32, b: u32, reg: SysReg)
    requires
        a <= 34,
        b <= 34,
    ensures
        gpr_id(a) == gpr_id(b) <==> a == b,
        gpr_id(a) != sys_reg_id(reg),
{
}

/// A general register reads back as it was set, FPCR and FPSR in their low 32
/// bits.
pub proof fn law_gpr_round_trip(reg: u32, val: u64)
    ensures
        bytes::le_value(bytes::le_bytes(val as nat, gpr_width(reg))) == if gpr_width(reg) == 4 {
            val as nat % 0x1_0000_0000
        } else {
            val as nat
        },
{
    bytes::lemma_pow256_values();
    if reg == REG_FPCR || reg == REG_FPSR {
        bytes::lemma_le_bytes_low(val as nat, 4);
    } else {
        bytes::lemma_le_bytes_low(val as nat, 8);
    }
}

/// Where KVM keeps the general registers: ID 0x6030_0000_0010_0000 and, in
/// units of four bytes, x0 to x30 eight bytes each, then SP, PC and PSTATE,
/// SP_EL1, ELR_EL1 and five SPSRs; from byte 336 on, which is divisible by 16,
/// 32 SIMD registers of 16 bytes, and behind them the 32-bit FPSR and FPCR.
pub proof fn law_core_register_ids(reg: u32)
    ensures
        reg <= 30 ==> gpr_id(reg) == 0x6030_0000_0010_0000 + 2 * reg,
        gpr_id(31) == 0x6030_0000_0010_0000 + 256int / 4,
        gpr_id(34) == 0x6030_0000_0010_0000 + 264int / 4,
        gpr_id(33) == 0x6020_0000_0010_0000 + (336 + 32 * 16) / 4,
        gpr_id(32) == 0x6020_0000_0010_0000 + (336 + 32 * 16 + 4) / 4,
        reg < 32 ==> core_id(KVM_REG_SIZE_U128, FP_REGS_OFFSET + reg * 16)
            == 0x6040_0000_0010_0000 + (336 + 16 * reg) / 4,
        sys_reg_id(SysReg::SP_EL0) == 0x6030_0000_0010_0000 + 248int / 4,
        sys_reg_id(SysReg::SP_EL1) == 0x6030_0000_0010_0000 + 272int / 4,
        sys_reg_id(SysReg::ELR_EL1) == 0x6030_0000_0010_0000 + 280int / 4,
        sys_reg_id(SysReg::SPSR_EL1) == 0x6030_0000_0010_0000 + 288int / 4,
        gpr_width(reg) == (if reg == 32 || reg == 33 {
            4nat
        } else {
            8nat
        }),
{
}

/// Every other system register goes by 0x6030_0000_0013_0000 and its encoding.
pub proof fn law_system_register_ids(reg: SysReg)
    requires
        reg != SysReg::SP_EL0,
        reg != SysReg::SP_EL1,
        reg != SysReg::ELR_EL1,
        reg != SysReg::SPSR_EL1,
    ensures
        sys_reg_id(reg) == 0x6030_0000_0013_0000 + registers::sys_reg_encoding(reg),
{
}

/// What KVM's exits mean: a load asks for an answer of its length, a store
/// carries the little-endian number in its bytes, HLT is idling, an interrupted
/// run (EINTR, EAGAIN) is a forced exit, and any other error ends the run.
pub proof fn law_exits_mean(exit: KvmExit)
    ensures
        exit matches KvmExit::MmioRead { addr, len } ==> ({
            &&& exit_meaning(exit) matches Some(VcpuExit::Mmio(access))
            &&& access.addr == addr && access.len == len && !access.is_write
        }),
        exit matches KvmExit::MmioWrite { addr, data } ==> data@.len() <= 8 ==> ({
            &&& exit_meaning(exit) matches Some(VcpuExit::Mmio(access))
            &&& access.addr == addr && access.len == data@.len() && access.is_write
            &&& bytes::le_bytes(access.data as nat, data@.len()) == data@
        }),
        exit matches KvmExit::SystemEvent { event_type } ==> exit_meaning(exit) == Some(
            (VcpuExit::SystemEvent { event_type }),
        ),
        exit is Hlt ==> exit_meaning(exit) == Some(VcpuExit::Wfi),
        exit matches KvmExit::Debug { hsr } ==> exit_meaning(exit) == Some(
            (VcpuExit::Debug { hsr }),
        ),
        exit is Other ==> exit_meaning(exit) is Some && exit_meaning(exit)->0 is Unknown,
        exit matches KvmExit::Failed { errno } ==> (exit_meaning(exit) == (if errno == 4 || errno
            == 11 {
            Some(VcpuExit::Canceled)
        } else {
            None
        })),
{
    if let KvmExit::MmioWrite { addr, data } = exit {
        if data@.len() <= 8 {
            bytes::lemma_le_value_round_trip(data@);
            bytes::lemma_pow256_values();
            bytes::lemma_pow256_le(data@.len(), 8);
        }
    }
}

/// The first bytes of a number's bytes are the bytes of its low part.
proof fn lemma_le_bytes_take(x: nat, n: nat, k: nat)
    requires
        k <= n,
    ensures
        bytes::le_bytes(x, n).take(k as int) == bytes::le_bytes(x, k),
    decreases k,
{
    bytes::lemma_le_bytes_len(x, n);
    bytes::lemma_le_bytes_len(x, k);
    if k == 0 {
        assert(bytes::le_bytes(x, n).take(0) =~= Seq::empty());
    } else {
        lemma_le_bytes_take(x / 256, (n - 1) as nat, (k - 1) as nat);
        let rest = bytes::le_bytes(x / 256, (n - 1) as nat);
        bytes::lemma_le_bytes_len(x / 256, (n - 1) as nat);
        assert(bytes::le_bytes(x, n).take(k as int) =~= seq![(x % 256) as u8] + rest.take(k - 1));
    }
}

/// A load of `len` bytes that is answered with a 64-bit number gets the low
/// `len` bytes of it, and bytes of the buffer behind them stay as they were.
pub proof fn law_loads_get_the_low_bytes(value: u64, len: nat, buffer: Seq<u8>)
    requires
        len <= 8,
        len <= buffer.len(),
    ensures
        ({
            let after = bytes::overlay(
                buffer,
                0,
                mmio_answer(len as int, bytes::le_bytes(value as nat, 8)),
            );
            &&& bytes::le_value(after.take(len as int)) == value as nat % bytes::pow256(len)
            &&& after.skip(len as int) == buffer.skip(len as int)
            &&& after.len() == buffer.len()
        }),
{
    let data = bytes::le_bytes(value as nat, 8);
    bytes::lemma_le_bytes_len(value as nat, 8);
    lemma_le_bytes_take(value as nat, 8, len);
    let answer = mmio_answer(len as int, data);
    assert(answer =~= data.take(len as int));
    let after = bytes::overlay(buffer, 0, answer);
    assert(after.take(len as int) =~= answer);
    assert(after.skip(len as int) =~= buffer.skip(len as int));
    bytes::lemma_le_bytes_low(value as nat, len);
}

/// KVM writes answers back by itself: no access that it reports names a
/// register or asks for sign extension, and a load carries no data.
pub proof fn law_kvm_needs_no_register(exit: KvmExit)
    requires
        exit_meaning(exit) is Some,
        exit_meaning(exit)->0 is Mmio,
    ensures
        exit_meaning(exit)->0->Mmio_0.reg == 0,
        !exit_meaning(exit)->0->Mmio_0.sign_extend,
        !exit_meaning(exit)->0->Mmio_0.is_write ==> exit_meaning(exit)->0->Mmio_0.data == 0,
        exit is MmioRead || exit is MmioWrite,
{
}

} // verus!
