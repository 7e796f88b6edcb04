//! Apple Hypervisor.framework (HVF): its numbers, and what its exits mean.
//!
//! The framework reports a VM exit as a reason and an exception syndrome. This
//! module decodes them, and keeps what the answer to a trapped MMIO read needs.

use crate::bytes;
use crate::registers;
use crate::registers::{IccReg, MmioAccess, SysReg, VcpuExit, REG_PC};
use crate::text;
use crate::vcpu;
use crate::vcpu::{advance_pc, VcpuAction};
use vstd::prelude::*;

verus! {

pub type HvReturn = i32;

pub type HvVcpu = u64;

pub type HvIpa = u64;

pub type HvMemoryFlags = u64;

/// SIMD/FP register value as the framework has it (128-bit, 16-byte aligned:
/// the second field holds nothing and gives the alignment).
#[derive(Clone, Copy, Debug, Default, PartialEq)]
pub struct HvSimdFpUchar16(pub [u8; 16], pub [u128; 0]);

pub const HV_SUCCESS: HvReturn = 0;

pub const HV_MEMORY_READ: HvMemoryFlags = 1;

pub const HV_MEMORY_WRITE: HvMemoryFlags = 2;

pub const HV_MEMORY_EXEC: HvMemoryFlags = 4;

pub const HV_EXIT_REASON_CANCELED: u32 = 0;

pub const HV_EXIT_REASON_EXCEPTION: u32 = 1;

pub const HV_EXIT_REASON_VTIMER_ACTIVATED: u32 = 2;

pub const HV_EXIT_REASON_UNKNOWN: u32 = 3;

pub const HV_INTERRUPT_TYPE_IRQ: u32 = 0;

// System register IDs (from hv_vcpu_types.h)
pub const HV_SYS_REG_MDSCR_EL1: u16 = 0x8012;

pub const HV_SYS_REG_MPIDR_EL1: u16 = 0xc005;

pub const HV_SYS_REG_SCTLR_EL1: u16 = 0xc080;

pub const HV_SYS_REG_CPACR_EL1: u16 = 0xc082;

pub const HV_SYS_REG_TTBR0_EL1: u16 = 0xc100;

pub const HV_SYS_REG_TTBR1_EL1: u16 = 0xc101;

pub const HV_SYS_REG_TCR_EL1: u16 = 0xc102;

pub const HV_SYS_REG_APIAKEYLO_EL1: u16 = 0xc108;

pub const HV_SYS_REG_APIAKEYHI_EL1: u16 = 0xc109;

pub const HV_SYS_REG_APIBKEYLO_EL1: u16 = 0xc10a;

pub const HV_SYS_REG_APIBKEYHI_EL1: u16 = 0xc10b;

pub const HV_SYS_REG_APDAKEYLO_EL1: u16 = 0xc110;

pub const HV_SYS_REG_APDAKEYHI_EL1: u16 = 0xc111;

pub const HV_SYS_REG_APDBKEYLO_EL1: u16 = 0xc112;

pub const HV_SYS_REG_APDBKEYHI_EL1: u16 = 0xc113;

pub const HV_SYS_REG_APGAKEYLO_EL1: u16 = 0xc118;

pub const HV_SYS_REG_APGAKEYHI_EL1: u16 = 0xc119;

pub const HV_SYS_REG_SPSR_EL1: u16 = 0xc200;

pub const HV_SYS_REG_ELR_EL1: u16 = 0xc201;

pub const HV_SYS_REG_SP_EL0: u16 = 0xc208;

pub const HV_SYS_REG_AFSR0_EL1: u16 = 0xc288;

pub const HV_SYS_REG_AFSR1_EL1: u16 = 0xc289;

pub const HV_SYS_REG_ESR_EL1: u16 = 0xc290;

pub const HV_SYS_REG_FAR_EL1: u16 = 0xc300;

pub const HV_SYS_REG_PAR_EL1: u16 = 0xc3a0;

pub const HV_SYS_REG_MAIR_EL1: u16 = 0xc510;

pub const HV_SYS_REG_AMAIR_EL1: u16 = 0xc518;

pub const HV_SYS_REG_VBAR_EL1: u16 = 0xc600;

pub const HV_SYS_REG_CONTEXTIDR_EL1: u16 = 0xc681;

pub const HV_SYS_REG_TPIDR_EL1: u16 = 0xc684;

pub const HV_SYS_REG_CNTKCTL_EL1: u16 = 0xc708;

pub const HV_SYS_REG_CSSELR_EL1: u16 = 0xd000;

pub const HV_SYS_REG_TPIDR_EL0: u16 = 0xde82;

pub const HV_SYS_REG_TPIDRRO_EL0: u16 = 0xde83;

pub const HV_SYS_REG_CNTV_CTL_EL0: u16 = 0xdf19;

pub const HV_SYS_REG_CNTV_CVAL_EL0: u16 = 0xdf1a;

pub const HV_SYS_REG_CNTP_CTL_EL0: u16 = 0xdf11;

pub const HV_SYS_REG_CNTP_CVAL_EL0: u16 = 0xdf12;

pub const HV_SYS_REG_CNTHCTL_EL2: u16 = 0xe708;

pub const HV_SYS_REG_SP_EL1: u16 = 0xe208;

// GIC ICC register IDs
pub const HV_GIC_ICC_REG_PMR_EL1: u16 = 0xc230;

pub const HV_GIC_ICC_REG_BPR0_EL1: u16 = 0xc643;

pub const HV_GIC_ICC_REG_AP0R0_EL1: u16 = 0xc644;

pub const HV_GIC_ICC_REG_AP1R0_EL1: u16 = 0xc648;

pub const HV_GIC_ICC_REG_BPR1_EL1: u16 = 0xc663;

pub const HV_GIC_ICC_REG_CTLR_EL1: u16 = 0xc664;

pub const HV_GIC_ICC_REG_SRE_EL1: u16 = 0xc665;

pub const HV_GIC_ICC_REG_IGRPEN0_EL1: u16 = 0xc666;

pub const HV_GIC_ICC_REG_IGRPEN1_EL1: u16 = 0xc667;

/// The exception of a VM exit.
#[derive(Clone, Copy, Debug, PartialEq, Eq, Structural)]
pub struct HvVcpuExitException {
    pub syndrome: u64,
    pub virtual_address: u64,
    pub physical_address: u64,
}

/// A VM exit as the framework reports it.
#[derive(Clone, Copy, Debug, PartialEq, Eq, Structural)]
pub struct HvVcpuExit {
    pub reason: u32,
    pub exception: HvVcpuExitException,
}

/// A return code as an unsigned number.
pub open spec fn return_code(ret: HvReturn) -> nat {
    if ret < 0 {
        (ret + 0x1_0000_0000) as nat
    } else {
        ret as nat
    }
}

/// A return code as an unsigned number.
pub fn code_of(ret: HvReturn) -> (code: u32)
    ensures
        code == return_code(ret),
{
    proof {
        assert(ret < 0 ==> ret as u32 == ret + 0x1_0000_0000) by (bit_vector);
        assert(ret >= 0 ==> ret as u32 == ret) by (bit_vector);
    }
    ret as u32
}

/// Accepts a successful return code, and otherwise says which call failed and
/// with which code.
pub fn check_hv(ret: HvReturn, context: &str) -> (r: Result<(), String>)
    ensures
        r is Ok <==> ret == HV_SUCCESS,
        r matches Err(message) ==> message@ == context@ + ": HVF returned 0x"@ + text::hex(
            return_code(ret),
        ),
{
    if ret == HV_SUCCESS {
        return Ok(());
    }
    let mut message = String::from_str(context);
    message.append(": HVF returned 0x");
    text::push_hex(&mut message, code_of(ret) as u64);
    Err(message)
}

/// Permissions of a guest memory mapping: read and write, and execution where
/// asked for.
pub fn memory_flags(exec: bool) -> (flags: HvMemoryFlags)
    ensures
        flags == HV_MEMORY_READ + HV_MEMORY_WRITE + (if exec {
            HV_MEMORY_EXEC as int
        } else {
            0
        }),
{
    if exec {
        HV_MEMORY_READ + HV_MEMORY_WRITE + HV_MEMORY_EXEC
    } else {
        HV_MEMORY_READ + HV_MEMORY_WRITE
    }
}

/// The framework's ID of a system register, which is its encoding.
pub fn sys_reg_to_hvf(reg: SysReg) -> (id: u16)
    ensures
        id == registers::sys_reg_encoding(reg),
{
    match reg {
        SysReg::MDSCR_EL1 => HV_SYS_REG_MDSCR_EL1,
        SysReg::MPIDR_EL1 => HV_SYS_REG_MPIDR_EL1,
        SysReg::SCTLR_EL1 => HV_SYS_REG_SCTLR_EL1,
        SysReg::CPACR_EL1 => HV_SYS_REG_CPACR_EL1,
        SysReg::TTBR0_EL1 => HV_SYS_REG_TTBR0_EL1,
        SysReg::TTBR1_EL1 => HV_SYS_REG_TTBR1_EL1,
        SysReg::TCR_EL1 => HV_SYS_REG_TCR_EL1,
        SysReg::SPSR_EL1 => HV_SYS_REG_SPSR_EL1,
        SysReg::ELR_EL1 => HV_SYS_REG_ELR_EL1,
        SysReg::SP_EL0 => HV_SYS_REG_SP_EL0,
        SysReg::AFSR0_EL1 => HV_SYS_REG_AFSR0_EL1,
        SysReg::AFSR1_EL1 => HV_SYS_REG_AFSR1_EL1,
        SysReg::ESR_EL1 => HV_SYS_REG_ESR_EL1,
        SysReg::FAR_EL1 => HV_SYS_REG_FAR_EL1,
        SysReg::PAR_EL1 => HV_SYS_REG_PAR_EL1,
        SysReg::MAIR_EL1 => HV_SYS_REG_MAIR_EL1,
        SysReg::AMAIR_EL1 => HV_SYS_REG_AMAIR_EL1,
        SysReg::VBAR_EL1 => HV_SYS_REG_VBAR_EL1,
        SysReg::CONTEXTIDR_EL1 => HV_SYS_REG_CONTEXTIDR_EL1,
        SysReg::TPIDR_EL1 => HV_SYS_REG_TPIDR_EL1,
        SysReg::CNTKCTL_EL1 => HV_SYS_REG_CNTKCTL_EL1,
        SysReg::CSSELR_EL1 => HV_SYS_REG_CSSELR_EL1,
        SysReg::TPIDR_EL0 => HV_SYS_REG_TPIDR_EL0,
        SysReg::TPIDRRO_EL0 => HV_SYS_REG_TPIDRRO_EL0,
        SysReg::CNTV_CTL_EL0 => HV_SYS_REG_CNTV_CTL_EL0,
        SysReg::CNTV_CVAL_EL0 => HV_SYS_REG_CNTV_CVAL_EL0,
        SysReg::CNTP_CTL_EL0 => HV_SYS_REG_CNTP_CTL_EL0,
        SysReg::CNTP_CVAL_EL0 => HV_SYS_REG_CNTP_CVAL_EL0,
        SysReg::CNTHCTL_EL2 => HV_SYS_REG_CNTHCTL_EL2,
        SysReg::SP_EL1 => HV_SYS_REG_SP_EL1,
        SysReg::APIAKEYLO_EL1 => HV_SYS_REG_APIAKEYLO_EL1,
        SysReg::APIAKEYHI_EL1 => HV_SYS_REG_APIAKEYHI_EL1,
        SysReg::APIBKEYLO_EL1 => HV_SYS_REG_APIBKEYLO_EL1,
        SysReg::APIBKEYHI_EL1 => HV_SYS_REG_APIBKEYHI_EL1,
        SysReg::APDAKEYLO_EL1 => HV_SYS_REG_APDAKEYLO_EL1,
        SysReg::APDAKEYHI_EL1 => HV_SYS_REG_APDAKEYHI_EL1,
        SysReg::APDBKEYLO_EL1 => HV_SYS_REG_APDBKEYLO_EL1,
        SysReg::APDBKEYHI_EL1 => HV_SYS_REG_APDBKEYHI_EL1,
        SysReg::APGAKEYLO_EL1 => HV_SYS_REG_APGAKEYLO_EL1,
        SysReg::APGAKEYHI_EL1 => HV_SYS_REG_APGAKEYHI_EL1,
    }
}

/// The framework's ID of a GIC CPU interface register, which is its encoding.
pub fn icc_reg_to_hvf(reg: IccReg) -> (id: u16)
    ensures
        id == registers::icc_reg_encoding(reg),
{
    match reg {
        IccReg::PMR_EL1 => HV_GIC_ICC_REG_PMR_EL1,
        IccReg::BPR0_EL1 => HV_GIC_ICC_REG_BPR0_EL1,
        IccReg::AP0R0_EL1 => HV_GIC_ICC_REG_AP0R0_EL1,
        IccReg::AP1R0_EL1 => HV_GIC_ICC_REG_AP1R0_EL1,
        IccReg::BPR1_EL1 => HV_GIC_ICC_REG_BPR1_EL1,
        IccReg::CTLR_EL1 => HV_GIC_ICC_REG_CTLR_EL1,
        IccReg::SRE_EL1 => HV_GIC_ICC_REG_SRE_EL1,
        IccReg::IGRPEN0_EL1 => HV_GIC_ICC_REG_IGRPEN0_EL1,
        IccReg::IGRPEN1_EL1 => HV_GIC_ICC_REG_IGRPEN1_EL1,
    }
}

/// `width` bits of `x` from bit `low` upwards, of which `scale` is 2 to the
/// power `low` and `range` 2 to the power of the width.
pub open spec fn bits(x: u64, scale: int, range: int) -> int {
    (x as int / scale) % range
}

/// The exception class of a syndrome.
pub open spec fn exception_class(syndrome: u64) -> int {
    bits(syndrome, 0x400_0000, 0x40)
}

/// The exception class of a syndrome.
pub fn class_of(syndrome: u64) -> (ec: u64)
    ensures
        ec == exception_class(syndrome),
{
    (syndrome / 0x400_0000) % 0x40
}

/// The register that a data abort names (31 is the zero register).
pub open spec fn abort_register(syndrome: u64) -> int {
    bits(syndrome, 0x1_0000, 0x20)
}

/// Bytes that a data abort transfers.
pub open spec fn abort_len(syndrome: u64) -> int {
    let sas = bits(syndrome, 0x40_0000, 4);
    if sas == 0 {
        1
    } else if sas == 1 {
        2
    } else if sas == 2 {
        4
    } else {
        8
    }
}

/// The access that a data abort at `ipa` asks for; `None` if the syndrome is
/// not valid.
pub open spec fn data_abort(syndrome: u64, ipa: u64) -> Option<MmioAccess> {
    if bits(syndrome, 0x100_0000, 2) == 0 {
        None
    } else {
        Some(
            MmioAccess {
                addr: ipa,
                is_write: bits(syndrome, 0x40, 2) == 1,
                len: abort_len(syndrome) as usize,
                reg: abort_register(syndrome) as u32,
                sign_extend: bits(syndrome, 0x20_0000, 2) == 1,
                data: 0,
            },
        )
    }
}

/// Decodes the syndrome of a data abort. The data of a write is not in it: it
/// is in the register that the syndrome names.
pub fn decode_data_abort(syndrome: u64, ipa: u64) -> (access: Option<MmioAccess>)
    ensures
        access == data_abort(syndrome, ipa),
{
    if (syndrome / 0x100_0000) % 2 == 0 {
        return None;
    }
    let sas: u64 = (syndrome / 0x40_0000) % 4;
    let len: usize = if sas == 0 {
        1
    } else if sas == 1 {
        2
    } else if sas == 2 {
        4
    } else {
        8
    };
    Some(
        MmioAccess {
            addr: ipa,
            is_write: (syndrome / 0x40) % 2 != 0,
            len,
            reg: ((syndrome / 0x1_0000) % 0x20) as u32,
            sign_extend: (syndrome / 0x20_0000) % 2 != 0,
            data: 0,
        },
    )
}

/// The register whose value [`VcpuHandle::run`] wants for an exit with this
/// syndrome (31 stands for the zero register, whose value is 0).
pub fn source_register(syndrome: u64) -> (reg: u32)
    ensures
        reg == abort_register(syndrome),
{
    ((syndrome / 0x1_0000) % 0x20) as u32
}

/// What an exit means. `rt` is the value of the register that a data abort
/// names.
pub open spec fn exit_meaning(exit: HvVcpuExit, rt: u64) -> VcpuExit {
    let syndrome = exit.exception.syndrome;
    let ipa = exit.exception.physical_address;
    let ec = exception_class(syndrome);
    if exit.reason == HV_EXIT_REASON_EXCEPTION {
        if ec == 0x16 || ec == 0x17 {
            VcpuExit::Hvc { syndrome, is_smc: ec == 0x17 }
        } else if ec == 0x24 {
            match data_abort(syndrome, ipa) {
                None => VcpuExit::UndecodableMmio { syndrome, ipa },
                Some(access) => VcpuExit::Mmio(
                    MmioAccess {
                        data: if access.is_write && access.reg != 31 {
                            rt
                        } else {
                            0
                        },
                        ..access
                    },
                ),
            }
        } else if ec == 0x01 {
            VcpuExit::Wfi
        } else if ec == 0x18 {
            VcpuExit::SysRegTrap { syndrome }
        } else {
            VcpuExit::Unknown(ec as u32)
        }
    } else if exit.reason == HV_EXIT_REASON_VTIMER_ACTIVATED {
        VcpuExit::VtimerActivated
    } else if exit.reason == HV_EXIT_REASON_CANCELED {
        VcpuExit::Canceled
    } else {
        VcpuExit::Unknown(exit.reason)
    }
}

/// `value` cut to `len` bytes and extended with its sign to 64 bits; `value`
/// itself where `len` is none of 1, 2 and 4.
pub open spec fn sign_extended(value: nat, len: usize) -> nat {
    if len == 1 || len == 2 || len == 4 {
        let range = bytes::pow256(len as nat);
        let low = value % range;
        if low >= range / 2 {
            (low + 0x1_0000_0000_0000_0000 - range) as nat
        } else {
            low
        }
    } else {
        value
    }
}

/// The value that an MMIO read delivers to the guest.
pub open spec fn delivered(data: Seq<u8>, sign_extend: bool, len: usize) -> nat {
    if sign_extend {
        sign_extended(bytes::le_value(data), len)
    } else {
        bytes::le_value(data)
    }
}

/// The MMIO read of a vCPU that waits for its answer.
#[derive(Clone, Copy, Debug, PartialEq, Eq, Structural)]
pub struct VcpuHandle {
    /// Register that the answer goes to (31 = XZR, discarded).
    pub last_mmio_reg: u32,
    pub last_mmio_sign_extend: bool,
    pub last_mmio_len: usize,
}

/// A vCPU after an exit: an MMIO read is remembered for its answer.
pub open spec fn after_exit(vcpu: VcpuHandle, exit: VcpuExit) -> VcpuHandle {
    match exit {
        VcpuExit::Mmio(access) => if access.is_write {
            vcpu
        } else {
            VcpuHandle {
                last_mmio_reg: access.reg,
                last_mmio_sign_extend: access.sign_extend,
                last_mmio_len: access.len,
            }
        },
        _ => vcpu,
    }
}

/// What an exit changes before the guest goes on: a decoded MMIO access moves
/// PC past the faulting instruction.
pub open spec fn exit_actions(exit: VcpuExit, pc: u64) -> Seq<VcpuAction> {
    match exit {
        VcpuExit::Mmio(_) => seq![VcpuAction::SetReg { reg: REG_PC, value: vcpu::next_pc(pc) }],
        _ => Seq::empty(),
    }
}

impl VcpuHandle {
    /// A fresh vCPU.
    pub fn new() -> (v: VcpuHandle)
        ensures
            v == (VcpuHandle {
                last_mmio_reg: 0,
                last_mmio_sign_extend: false,
                last_mmio_len: 0,
            }),
    {
        VcpuHandle { last_mmio_reg: 0, last_mmio_sign_extend: false, last_mmio_len: 0 }
    }

    /// Decodes the exit that a run of the vCPU ended with. `rt` is the value of
    /// the register given by [`source_register`], `pc` the program counter.
    pub fn run(&mut self, exit: &HvVcpuExit, rt: u64, pc: u64) -> (r: (VcpuExit, Vec<VcpuAction>))
        ensures
            r.0 == exit_meaning(*exit, rt),
            r.1@ == exit_actions(r.0, pc),
            *final(self) == after_exit(*old(self), r.0),
    {
        let mut actions: Vec<VcpuAction> = Vec::new();
        let syndrome = exit.exception.syndrome;
        let ipa = exit.exception.physical_address;
        let ec: u64 = class_of(syndrome);
        let meaning = match exit.reason {
            HV_EXIT_REASON_EXCEPTION => match ec {
                0x16 | 0x17 => VcpuExit::Hvc { syndrome, is_smc: ec == 0x17 },
                0x24 => match decode_data_abort(syndrome, ipa) {
                    Some(mut access) => {
                        if access.is_write {
                            access.data = if access.reg == 31 {
                                0
                            } else {
                                rt
                            };
                        } else {
                            self.last_mmio_reg = access.reg;
                            self.last_mmio_sign_extend = access.sign_extend;
                            self.last_mmio_len = access.len;
                        }
                        actions.push(VcpuAction::SetReg { reg: REG_PC, value: advance_pc(pc) });
                        VcpuExit::Mmio(access)
                    },
                    None => VcpuExit::UndecodableMmio { syndrome, ipa },
                },
                0x01 => VcpuExit::Wfi,
                0x18 => VcpuExit::SysRegTrap { syndrome },
                _ => VcpuExit::Unknown(ec as u32),
            },
            HV_EXIT_REASON_VTIMER_ACTIVATED => VcpuExit::VtimerActivated,
            HV_EXIT_REASON_CANCELED => VcpuExit::Canceled,
            other => VcpuExit::Unknown(other),
        };
        assert(actions@ =~= exit_actions(meaning, pc));
        (meaning, actions)
    }

    /// Completes the last MMIO read: the value goes to the register that the
    /// trapped instruction named, unless that is the zero register.
    pub fn complete_mmio_read(&self, data: &[u8]) -> (actions: Vec<VcpuAction>)
        requires
            data@.len() <= 8,
        ensures
            actions@ == (if self.last_mmio_reg == 31 {
                Seq::empty()
            } else {
                seq![
                    VcpuAction::SetReg {
                        reg: self.last_mmio_reg,
                        value: delivered(
                            data@,
                            self.last_mmio_sign_extend,
                            self.last_mmio_len,
                        ) as u64,
                    },
                ]
            }),
    {
        let mut actions: Vec<VcpuAction> = Vec::new();
        if self.last_mmio_reg != 31 {
            let raw: u64 = bytes::read_le(data, 0, data.len());
            assert(data@.subrange(0, data@.len() as int) =~= data@);
            let value: u64 = if self.last_mmio_sign_extend {
                sign_extend(raw, self.last_mmio_len)
            } else {
                raw
            };
            actions.push(VcpuAction::SetReg { reg: self.last_mmio_reg, value });
        }
        assert(actions@ =~= (if self.last_mmio_reg == 31 {
            Seq::empty()
        } else {
            seq![
                VcpuAction::SetReg {
                    reg: self.last_mmio_reg,
                    value: delivered(
                        data@,
                        self.last_mmio_sign_extend,
                        self.last_mmio_len,
                    ) as u64,
                },
            ]
        }));
        actions
    }
}

/// Extends the `len` lowest bytes of `value` with their sign.
fn sign_extend(value: u64, len: usize) -> (r: u64)
    ensures
        r == sign_extended(value as nat, len),
{
    proof {
        bytes::lemma_pow256_values();
    }
    if len == 1 {
        let low: u64 = value % 0x100;
        if low >= 0x80 {
            low + (u64::MAX - 0xff)
        } else {
            low
        }
    } else if len == 2 {
        let low: u64 = value % 0x1_0000;
        if low >= 0x8000 {
            low + (u64::MAX - 0xffff)
        } else {
            low
        }
    } else if len == 4 {
        let low: u64 = value % 0x1_0000_0000;
        if low >= 0x8000_0000 {
            low + (u64::MAX - 0xffff_ffff)
        } else {
            low
        }
    } else {
        value
    }
}

// Laws

/// A decoded access transfers 1, 2, 4 or 8 bytes through one of 32 registers,
/// at the address that faulted.
pub proof fn law_decoded_access(syndrome: u64, ipa: u64)
    requires
        data_abort(syndrome, ipa) is Some,
    ensures
        data_abort(syndrome, ipa)->0.addr == ipa,
        data_abort(syndrome, ipa)->0.reg < 32,
        data_abort(syndrome, ipa)->0.len == 1 || data_abort(syndrome, ipa)->0.len == 2 || data_abort(
            syndrome,
            ipa,
        )->0.len == 4 || data_abort(syndrome, ipa)->0.len == 8,
{
}

/// A sign-extended byte, half-word or word keeps its low bytes, and all higher
/// bits equal its sign bit.
pub proof fn law_sign_extension(value: nat, len: usize)
    requires
        len == 1 || len == 2 || len == 4,
    ensures
        sign_extended(value, len) % bytes::pow256(len as nat) == value % bytes::pow256(len as nat),
        sign_extended(value, len) < 0x1_0000_0000_0000_0000,
        sign_extended(value, len) < bytes::pow256(len as nat) / 2 || sign_extended(value, len)
            >= 0x1_0000_0000_0000_0000 - bytes::pow256(len as nat) / 2,
{
    bytes::lemma_pow256_values();
}

/// Splits a number with `low` below and `high` above a boundary.
proof fn lemma_split(high: int, low: int, scale: int)
    requires
        0 <= low < scale,
        0 <= high,
    ensures
        (high * scale + low) / scale == high,
        (high * scale + low) % scale == low,
{
    vstd::arithmetic::div_mod::lemma_fundamental_div_mod_converse(
        high * scale + low,
        scale,
        high,
        low,
    );
}

/// The fields of a data abort's syndrome, as the architecture lays them out:
/// the class in bits 31 to 26, ISV in bit 24, the size as a power of two in bits
/// 23 and 22, sign extension in bit 21, the register in bits 20 to 16 and the
/// direction in bit 6. The other bits do not matter.
pub proof fn law_data_abort_fields(
    above: int,
    class: int,
    il: int,
    isv: int,
    sas: int,
    sse: int,
    srt: int,
    between: int,
    wnr: int,
    dfsc: int,
    ipa: u64,
)
    requires
        0 <= above < 0x1_0000_0000,
        0 <= class < 64,
        0 <= il < 2,
        0 <= isv < 2,
        0 <= sas < 4,
        0 <= sse < 2,
        0 <= srt < 32,
        0 <= between < 512,
        0 <= wnr < 2,
        0 <= dfsc < 64,
    ensures
        ({
            let s = (above * 0x1_0000_0000 + class * 0x400_0000 + il * 0x200_0000 + isv * 0x100_0000
                + sas * 0x40_0000 + sse * 0x20_0000 + srt * 0x1_0000 + between * 0x80 + wnr * 0x40
                + dfsc) as u64;
            &&& exception_class(s) == class
            &&& abort_register(s) == srt
            &&& data_abort(s, ipa) is None <==> isv == 0
            &&& data_abort(s, ipa) matches Some(access) ==> {
                &&& access.addr == ipa
                &&& access.is_write == (wnr == 1)
                &&& access.sign_extend == (sse == 1)
                &&& access.reg == srt
                &&& access.data == 0
                &&& sas == 0 ==> access.len == 1
                &&& sas == 1 ==> access.len == 2
                &&& sas == 2 ==> access.len == 4
                &&& sas == 3 ==> access.len == 8
            }
        }),
{
    let b0 = dfsc;
    let b6 = wnr * 0x40 + b0;
    let b7 = between * 0x80 + b6;
    let b16 = srt * 0x1_0000 + b7;
    let b21 = sse * 0x20_0000 + b16;
    let b22 = sas * 0x40_0000 + b21;
    let b24 = isv * 0x100_0000 + b22;
    let b25 = il * 0x200_0000 + b24;
    let b26 = class * 0x400_0000 + b25;
    let s = above * 0x1_0000_0000 + b26;
    assert(0 <= b6 < 0x80);
    assert(0 <= b7 < 0x1_0000);
    assert(0 <= b16 < 0x20_0000);
    assert(0 <= b21 < 0x40_0000);
    assert(0 <= b22 < 0x100_0000);
    assert(0 <= b24 < 0x200_0000);
    assert(0 <= b25 < 0x400_0000);
    assert(0 <= b26 < 0x1_0000_0000);
    // each field: what is above it, divided by its place, and its own range
    let h26 = above * 0x40 + class;
    assert(s == h26 * 0x400_0000 + b25);
    lemma_split(h26, b25, 0x400_0000);
    lemma_split(above, class, 0x40);
    let h24 = (h26 * 2 + il) * 2 + isv;
    assert(s == h24 * 0x100_0000 + b22);
    lemma_split(h24, b22, 0x100_0000);
    lemma_split(h26 * 2 + il, isv, 2);
    let h22 = h24 * 4 + sas;
    assert(s == h22 * 0x40_0000 + b21);
    lemma_split(h22, b21, 0x40_0000);
    lemma_split(h24, sas, 4);
    let h21 = h22 * 2 + sse;
    assert(s == h21 * 0x20_0000 + b16);
    lemma_split(h21, b16, 0x20_0000);
    lemma_split(h22, sse, 2);
    let h16 = h21 * 32 + srt;
    assert(s == h16 * 0x1_0000 + b7);
    lemma_split(h16, b7, 0x1_0000);
    lemma_split(h21, srt, 32);
    let h7 = h16 * 512 + between;
    let h6 = h7 * 2 + wnr;
    assert(s == h6 * 0x40 + b0);
    lemma_split(h6, b0, 0x40);
    lemma_split(h7, wnr, 2);
}

/// What the framework's exits mean, by their numbers: reason 0 is a forced
/// exit, 2 the timer, and 1 an exception, whose class tells WFI (0x01), HVC
/// (0x16), SMC (0x17), a system register (0x18) and a data abort (0x24) apart.
pub proof fn law_exits_by_number(exit: HvVcpuExit, rt: u64)
    ensures
        ({
            let e = exit_meaning(exit, rt);
            let s = exit.exception.syndrome;
            let ec = exception_class(s);
            &&& exit.reason == 0 ==> e is Canceled
            &&& exit.reason == 2 ==> e is VtimerActivated
            &&& exit.reason >= 3 ==> e == VcpuExit::Unknown(exit.reason)
            &&& exit.reason == 1 && ec == 0x01 ==> e is Wfi
            &&& exit.reason == 1 && ec == 0x16 ==> e == (VcpuExit::Hvc {
                syndrome: s,
                is_smc: false,
            })
            &&& exit.reason == 1 && ec == 0x17 ==> e == (VcpuExit::Hvc { syndrome: s, is_smc: true })
            &&& exit.reason == 1 && ec == 0x18 ==> e == (VcpuExit::SysRegTrap { syndrome: s })
            &&& exit.reason == 1 && ec == 0x24 ==> e is Mmio || e == (VcpuExit::UndecodableMmio {
                syndrome: s,
                ipa: exit.exception.physical_address,
            })
            &&& exit.reason == 1 && ec == 0x24 ==> (e is Mmio <==> (s / 0x100_0000) % 2 == 1)
            &&& exit.reason == 1 && ec != 0x01 && ec != 0x16 && ec != 0x17 && ec != 0x18 && ec
                != 0x24 ==> e == VcpuExit::Unknown(ec as u32)
        }),
{
}

/// A trapped store carries what its register held, the zero register zero; a
/// trapped load carries nothing yet. Both happen at the physical address that
/// faulted, and the rest of the access is as decoded.
pub proof fn law_store_carries_its_register(exit: HvVcpuExit, rt: u64)
    requires
        exit_meaning(exit, rt) is Mmio,
    ensures
        ({
            let a = exit_meaning(exit, rt)->Mmio_0;
            let decoded = data_abort(exit.exception.syndrome, exit.exception.physical_address);
            &&& exit.reason == 1
            &&& a.addr == exit.exception.physical_address
            &&& decoded is Some
            &&& a == (MmioAccess { data: a.data, ..decoded->0 })
            &&& a.is_write && a.reg != 31 ==> a.data == rt
            &&& a.is_write && a.reg == 31 ==> a.data == 0
            &&& !a.is_write ==> a.data == 0
        }),
{
}

/// A decoded access moves PC past the instruction that made it, exactly once;
/// no other exit changes a register here.
pub proof fn law_decoded_accesses_move_pc(exit: VcpuExit, pc: u64)
    ensures
        exit is Mmio ==> exit_actions(exit, pc).len() == 1 && exit_actions(exit, pc)[0] == (
        VcpuAction::SetReg { reg: 31, value: vcpu::next_pc(pc) }),
        !(exit is Mmio) ==> exit_actions(exit, pc).len() == 0,
{
}

/// What is remembered for the answer is the load that waits for it, and stays
/// until there is another one.
pub proof fn law_load_is_remembered(vcpu: VcpuHandle, exit: VcpuExit)
    ensures
        exit matches VcpuExit::Mmio(access) ==> {
            let after = after_exit(vcpu, exit);
            &&& !access.is_write ==> after.last_mmio_reg == access.reg
                && after.last_mmio_sign_extend == access.sign_extend && after.last_mmio_len
                == access.len
            &&& access.is_write ==> after == vcpu
        },
        !(exit is Mmio) ==> after_exit(vcpu, exit) == vcpu,
{
}

/// What a load of one, two or four bytes delivers: the number itself, or with
/// sign extension the 64-bit two's complement of the signed number.
pub proof fn law_loads_deliver_numbers(value: u64, len: usize)
    requires
        len == 1 || len == 2 || len == 4 || len == 8,
        value < bytes::pow256(len as nat),
    ensures
        delivered(bytes::le_bytes(value as nat, len as nat), false, len) == value,
        len == 1 ==> delivered(bytes::le_bytes(value as nat, 1), true, 1) == (if value < 0x80 {
            value as int
        } else {
            0x1_0000_0000_0000_0000 - (0x100 - value)
        }),
        len == 2 ==> delivered(bytes::le_bytes(value as nat, 2), true, 2) == (if value < 0x8000 {
            value as int
        } else {
            0x1_0000_0000_0000_0000 - (0x1_0000 - value)
        }),
        len == 4 ==> delivered(bytes::le_bytes(value as nat, 4), true, 4) == (if value
            < 0x8000_0000 {
            value as int
        } else {
            0x1_0000_0000_0000_0000 - (0x1_0000_0000 - value)
        }),
        len == 8 ==> delivered(bytes::le_bytes(value as nat, 8), true, 8) == value,
{
    bytes::lemma_pow256_values();
    bytes::lemma_le_round_trip(value as nat, len as nat);
}

/// A return code is shown as the 32-bit number that has the same bits.
pub proof fn law_return_codes(ret: HvReturn)
    ensures
        0 <= return_code(ret) < 0x1_0000_0000,
        (return_code(ret) - ret) % 0x1_0000_0000 == 0,
{
}

} // verus!
