//! What the library asks of a stopped vCPU, and what it is told about it.
//!
//! A vCPU lives behind a hypervisor interface that only the program around
//! the library can call. Decisions therefore take the register values they
//! read as plain numbers, and answer with the changes to make, in order.

use crate::registers::SysReg;
use vstd::prelude::*;

verus! {

/// The hypervisor under the VM.
#[derive(Clone, Copy, Debug, PartialEq, Eq, Structural)]
pub enum Backend {
    /// Apple Hypervisor.framework.
    Hvf,
    /// Linux KVM.
    Kvm,
}

/// Registers of a stopped vCPU that an exit handler may read.
#[derive(Clone, Copy, Debug, PartialEq, Eq, Structural)]
pub struct ExitRegs {
    pub x0: u64,
    pub x1: u64,
    pub pc: u64,
    /// The general register that the trapped instruction names, as far as its
    /// handler reads it.
    pub rt: u64,
}

/// One change to make to a stopped vCPU or its devices.
#[derive(Clone, Copy, Debug, PartialEq, Eq, Structural)]
pub enum VcpuAction {
    /// Set a general register (index 0-34).
    SetReg { reg: u32, value: u64 },
    /// Set a system register.
    SetSysReg { sys_reg: SysReg, value: u64 },
    /// Mark an IRQ as pending.
    RaiseInterrupt,
    /// Mask or unmask the vtimer.
    SetVtimerMask { masked: bool },
    /// Answer the MMIO read with the `len` lowest bytes of `value`.
    CompleteMmioRead { value: u64, len: usize },
    /// Put one byte on the host console.
    ConsoleByte { byte: u8 },
}

/// `pc` moved past one 4-byte instruction.
pub open spec fn next_pc(pc: u64) -> u64 {
    ((pc + 4) % 0x1_0000_0000_0000_0000) as u64
}

/// Moves `pc` past one 4-byte instruction.
pub fn advance_pc(pc: u64) -> (r: u64)
    ensures
        r == next_pc(pc),
{
    pc.wrapping_add(4)
}

/// What general register `reg` holds once `actions` have been carried out on a
/// vCPU where it held `before`.
pub open spec fn reg_after(actions: Seq<VcpuAction>, reg: u32, before: u64) -> u64
    decreases actions.len(),
{
    if actions.len() == 0 {
        before
    } else {
        match actions.last() {
            VcpuAction::SetReg { reg: r, value } if r == reg => value,
            _ => reg_after(actions.drop_last(), reg, before),
        }
    }
}

/// What system register `reg` holds once `actions` have been carried out on a
/// vCPU where it held `before`.
pub open spec fn sys_reg_after(actions: Seq<VcpuAction>, reg: SysReg, before: u64) -> u64
    decreases actions.len(),
{
    if actions.len() == 0 {
        before
    } else {
        match actions.last() {
            VcpuAction::SetSysReg { sys_reg, value } if sys_reg == reg => value,
            _ => sys_reg_after(actions.drop_last(), reg, before),
        }
    }
}

// Laws

/// An instruction is four bytes long: PC moves on by exactly that, and wraps
/// like a 64-bit register.
pub proof fn law_instructions_are_four_bytes(pc: u64)
    ensures
        pc <= 0xFFFF_FFFF_FFFF_FFFB ==> next_pc(pc) == pc + 4,
        pc > 0xFFFF_FFFF_FFFF_FFFB ==> next_pc(pc) == pc - 0xFFFF_FFFF_FFFF_FFFC,
        next_pc(pc) % 4 == pc % 4,
{
}

} // verus!
