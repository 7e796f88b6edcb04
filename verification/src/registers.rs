//! Register names and decoded exits shared by every hypervisor backend.

use vstd::prelude::*;

verus! {

/// SIMD/FP register value (128-bit), least significant byte first.
///
/// The second field holds nothing: it gives the type the 16-byte alignment
/// that the hypervisors want of a value they read or write through a pointer.
#[derive(Clone, Copy, Debug, Default, PartialEq)]
pub struct SimdReg(pub [u8; 16], pub [u128; 0]);

impl SimdReg {
    /// The register that holds `bytes`.
    pub fn new(bytes: [u8; 16]) -> (r: SimdReg)
        ensures
            r.0 == bytes,
    {
        SimdReg(bytes, [])
    }
}

/// Decoded MMIO access from a VM exit.
#[derive(Clone, Copy, Debug, PartialEq, Eq, Structural)]
pub struct MmioAccess {
    /// Guest physical address of the access.
    pub addr: u64,
    /// true = write, false = read.
    pub is_write: bool,
    /// Transfer size in bytes (1, 2, 4, 8).
    pub len: usize,
    /// Destination/source register number (Rt). Only used by HVF;
    /// KVM handles register writeback internally.
    pub reg: u32,
    /// Sign extend? (only for reads: LDRSB, LDRSH, LDRSW)
    pub sign_extend: bool,
    /// For writes: the value being written. For reads: unused (0).
    pub data: u64,
}

/// Unified exit reason of a vCPU run.
#[derive(Clone, Copy, Debug, PartialEq, Eq, Structural)]
pub enum VcpuExit {
    /// MMIO access (data abort on HVF, KVM_EXIT_MMIO on KVM).
    /// On HVF, the backend decodes the syndrome and advances PC.
    /// On KVM, the kernel provides decoded access info and advances PC.
    Mmio(MmioAccess),
    /// HVC or SMC instruction. `syndrome` is the ESR_EL2 value.
    Hvc { syndrome: u64, is_smc: bool },
    /// WFI / WFE (EC=0x01).
    Wfi,
    /// HVF vtimer activated. KVM handles timers in-kernel, so this
    /// only occurs on the HVF backend.
    VtimerActivated,
    /// Forced exit (HVF: hv_vcpus_exit / KVM: signal-based).
    Canceled,
    /// System register trap (EC=0x18).
    SysRegTrap { syndrome: u64 },
    /// KVM system event (shutdown, reset).
    SystemEvent { event_type: u32 },
    /// Undecodable data abort (ISV=0).
    UndecodableMmio { syndrome: u64, ipa: u64 },
    /// Debug exit (BRK instruction with guest debug enabled), with the
    /// exception syndrome. On KVM, triggered by patched timer BRK instructions.
    Debug { hsr: u32 },
    /// Unknown/unexpected exit.
    Unknown(u32),
}

/// System registers that can be get/set on a vCPU.
/// Each backend maps these to its native register IDs.
#[allow(non_camel_case_types)]
#[derive(Clone, Copy, Debug, PartialEq, Eq, Structural)]
pub enum SysReg {
    MDSCR_EL1,
    MPIDR_EL1,
    SCTLR_EL1,
    CPACR_EL1,
    TTBR0_EL1,
    TTBR1_EL1,
    TCR_EL1,
    APIAKEYLO_EL1,
    APIAKEYHI_EL1,
    APIBKEYLO_EL1,
    APIBKEYHI_EL1,
    APDAKEYLO_EL1,
    APDAKEYHI_EL1,
    APDBKEYLO_EL1,
    APDBKEYHI_EL1,
    APGAKEYLO_EL1,
    APGAKEYHI_EL1,
    SPSR_EL1,
    ELR_EL1,
    SP_EL0,
    AFSR0_EL1,
    AFSR1_EL1,
    ESR_EL1,
    FAR_EL1,
    PAR_EL1,
    MAIR_EL1,
    AMAIR_EL1,
    VBAR_EL1,
    CONTEXTIDR_EL1,
    TPIDR_EL1,
    CNTKCTL_EL1,
    TPIDR_EL0,
    TPIDRRO_EL0,
    CNTV_CTL_EL0,
    CNTV_CVAL_EL0,
    CNTP_CTL_EL0,
    CNTP_CVAL_EL0,
    CNTHCTL_EL2,
    SP_EL1,
    CSSELR_EL1,
}

/// The list of system registers saved/restored for snapshots.
/// Order must be consistent across save and restore.
pub const SNAPSHOT_SYS_REGS: [SysReg; 38] = [
    SysReg::SCTLR_EL1,
    SysReg::CPACR_EL1,
    SysReg::TTBR0_EL1,
    SysReg::TTBR1_EL1,
    SysReg::TCR_EL1,
    SysReg::SPSR_EL1,
    SysReg::ELR_EL1,
    SysReg::SP_EL0,
    SysReg::ESR_EL1,
    SysReg::FAR_EL1,
    SysReg::PAR_EL1,
    SysReg::MAIR_EL1,
    SysReg::AMAIR_EL1,
    SysReg::VBAR_EL1,
    SysReg::CONTEXTIDR_EL1,
    SysReg::TPIDR_EL1,
    SysReg::CNTKCTL_EL1,
    SysReg::TPIDR_EL0,
    SysReg::TPIDRRO_EL0,
    SysReg::CNTV_CTL_EL0,
    SysReg::CNTV_CVAL_EL0,
    SysReg::CNTP_CTL_EL0,
    SysReg::CNTP_CVAL_EL0,
    SysReg::SP_EL1,
    SysReg::AFSR0_EL1,
    SysReg::AFSR1_EL1,
    SysReg::CSSELR_EL1,
    SysReg::MDSCR_EL1,
    // PAC keys
    SysReg::APIAKEYLO_EL1,
    SysReg::APIAKEYHI_EL1,
    SysReg::APIBKEYLO_EL1,
    SysReg::APIBKEYHI_EL1,
    SysReg::APDAKEYLO_EL1,
    SysReg::APDAKEYHI_EL1,
    SysReg::APDBKEYLO_EL1,
    SysReg::APDBKEYHI_EL1,
    SysReg::APGAKEYLO_EL1,
    SysReg::APGAKEYHI_EL1,
];

/// GIC ICC (CPU interface) registers for save/restore.
#[allow(non_camel_case_types)]
#[derive(Clone, Copy, Debug, PartialEq, Eq, Structural)]
pub enum IccReg {
    PMR_EL1,
    BPR0_EL1,
    AP0R0_EL1,
    AP1R0_EL1,
    BPR1_EL1,
    CTLR_EL1,
    SRE_EL1,
    IGRPEN0_EL1,
    IGRPEN1_EL1,
}

/// Every ICC register, in save/restore order.
pub const ICC_REGS: [IccReg; 9] = [
    IccReg::PMR_EL1,
    IccReg::BPR0_EL1,
    IccReg::AP0R0_EL1,
    IccReg::AP1R0_EL1,
    IccReg::BPR1_EL1,
    IccReg::CTLR_EL1,
    IccReg::SRE_EL1,
    IccReg::IGRPEN0_EL1,
    IccReg::IGRPEN1_EL1,
];

/// General-purpose register indices (matching HVF numbering).
/// x0-x30 = 0-30, PC = 31, FPCR = 32, FPSR = 33, CPSR/PSTATE = 34.
pub const REG_X0: u32 = 0;

pub const REG_X1: u32 = 1;

pub const REG_X2: u32 = 2;

pub const REG_X3: u32 = 3;

pub const REG_PC: u32 = 31;

pub const REG_FPCR: u32 = 32;

pub const REG_FPSR: u32 = 33;

pub const REG_CPSR: u32 = 34;

/// Total number of GPRs we save (x0-x30 + PC + FPCR + FPSR + CPSR).
pub const GPR_COUNT: usize = 35;

/// The instruction encoding of a system register: the fields `op0`, `op1`,
/// `CRn`, `CRm` and `op2` side by side in 2, 3, 4, 4 and 3 bits.
pub open spec fn encoding(op0: int, op1: int, crn: int, crm: int, op2: int) -> int {
    op0 * 0x4000 + op1 * 0x800 + crn * 0x80 + crm * 8 + op2
}

/// The architectural encoding of a system register.
pub open spec fn sys_reg_encoding(reg: SysReg) -> int {
    match reg {
        SysReg::MDSCR_EL1 => encoding(2, 0, 0, 2, 2),
        SysReg::MPIDR_EL1 => encoding(3, 0, 0, 0, 5),
        SysReg::SCTLR_EL1 => encoding(3, 0, 1, 0, 0),
        SysReg::CPACR_EL1 => encoding(3, 0, 1, 0, 2),
        SysReg::TTBR0_EL1 => encoding(3, 0, 2, 0, 0),
        SysReg::TTBR1_EL1 => encoding(3, 0, 2, 0, 1),
        SysReg::TCR_EL1 => encoding(3, 0, 2, 0, 2),
        SysReg::APIAKEYLO_EL1 => encoding(3, 0, 2, 1, 0),
        SysReg::APIAKEYHI_EL1 => encoding(3, 0, 2, 1, 1),
        SysReg::APIBKEYLO_EL1 => encoding(3, 0, 2, 1, 2),
        SysReg::APIBKEYHI_EL1 => encoding(3, 0, 2, 1, 3),
        SysReg::APDAKEYLO_EL1 => encoding(3, 0, 2, 2, 0),
        SysReg::APDAKEYHI_EL1 => encoding(3, 0, 2, 2, 1),
        SysReg::APDBKEYLO_EL1 => encoding(3, 0, 2, 2, 2),
        SysReg::APDBKEYHI_EL1 => encoding(3, 0, 2, 2, 3),
        SysReg::APGAKEYLO_EL1 => encoding(3, 0, 2, 3, 0),
        SysReg::APGAKEYHI_EL1 => encoding(3, 0, 2, 3, 1),
        SysReg::SPSR_EL1 => encoding(3, 0, 4, 0, 0),
        SysReg::ELR_EL1 => encoding(3, 0, 4, 0, 1),
        SysReg::SP_EL0 => encoding(3, 0, 4, 1, 0),
        SysReg::AFSR0_EL1 => encoding(3, 0, 5, 1, 0),
        SysReg::AFSR1_EL1 => encoding(3, 0, 5, 1, 1),
        SysReg::ESR_EL1 => encoding(3, 0, 5, 2, 0),
        SysReg::FAR_EL1 => encoding(3, 0, 6, 0, 0),
        SysReg::PAR_EL1 => encoding(3, 0, 7, 4, 0),
        SysReg::MAIR_EL1 => encoding(3, 0, 10, 2, 0),
        SysReg::AMAIR_EL1 => encoding(3, 0, 10, 3, 0),
        SysReg::VBAR_EL1 => encoding(3, 0, 12, 0, 0),
        SysReg::CONTEXTIDR_EL1 => encoding(3, 0, 13, 0, 1),
        SysReg::TPIDR_EL1 => encoding(3, 0, 13, 0, 4),
        SysReg::CNTKCTL_EL1 => encoding(3, 0, 14, 1, 0),
        SysReg::TPIDR_EL0 => encoding(3, 3, 13, 0, 2),
        SysReg::TPIDRRO_EL0 => encoding(3, 3, 13, 0, 3),
        SysReg::CNTV_CTL_EL0 => encoding(3, 3, 14, 3, 1),
        SysReg::CNTV_CVAL_EL0 => encoding(3, 3, 14, 3, 2),
        SysReg::CNTP_CTL_EL0 => encoding(3, 3, 14, 2, 1),
        SysReg::CNTP_CVAL_EL0 => encoding(3, 3, 14, 2, 2),
        SysReg::CNTHCTL_EL2 => encoding(3, 4, 14, 1, 0),
        SysReg::SP_EL1 => encoding(3, 4, 4, 1, 0),
        SysReg::CSSELR_EL1 => encoding(3, 2, 0, 0, 0),
    }
}

/// The architectural encoding of a GIC CPU interface register.
pub open spec fn icc_reg_encoding(reg: IccReg) -> int {
    match reg {
        IccReg::PMR_EL1 => encoding(3, 0, 4, 6, 0),
        IccReg::BPR0_EL1 => encoding(3, 0, 12, 8, 3),
        IccReg::AP0R0_EL1 => encoding(3, 0, 12, 8, 4),
        IccReg::AP1R0_EL1 => encoding(3, 0, 12, 9, 0),
        IccReg::BPR1_EL1 => encoding(3, 0, 12, 12, 3),
        IccReg::CTLR_EL1 => encoding(3, 0, 12, 12, 4),
        IccReg::SRE_EL1 => encoding(3, 0, 12, 12, 5),
        IccReg::IGRPEN0_EL1 => encoding(3, 0, 12, 12, 6),
        IccReg::IGRPEN1_EL1 => encoding(3, 0, 12, 12, 7),
    }
}

// Laws

/// No two system registers share an encoding.
pub proof fn law_encodings_differ(a: SysReg, b: SysReg)
    ensures
        sys_reg_encoding(a) == sys_reg_encoding(b) <==> a == b,
        0x8000 <= sys_reg_encoding(a) < 0x1_0000,
{
}

/// No two GIC CPU interface registers share an encoding.
pub proof fn law_icc_encodings_differ(a: IccReg, b: IccReg)
    ensures
        icc_reg_encoding(a) == icc_reg_encoding(b) <==> a == b,
        0x8000 <= icc_reg_encoding(a) < 0x1_0000,
{
}

/// Each register goes by the number that the architecture gives it, as the
/// headers of Hypervisor.framework list it.
pub proof fn law_system_register_numbers(reg: SysReg)
    ensures
        sys_reg_encoding(reg) == (match reg {
            SysReg::MDSCR_EL1 => 0x8012int,
            SysReg::MPIDR_EL1 => 0xc005int,
            SysReg::SCTLR_EL1 => 0xc080int,
            SysReg::CPACR_EL1 => 0xc082int,
            SysReg::TTBR0_EL1 => 0xc100int,
            SysReg::TTBR1_EL1 => 0xc101int,
            SysReg::TCR_EL1 => 0xc102int,
            SysReg::APIAKEYLO_EL1 => 0xc108int,
            SysReg::APIAKEYHI_EL1 => 0xc109int,
            SysReg::APIBKEYLO_EL1 => 0xc10aint,
            SysReg::APIBKEYHI_EL1 => 0xc10bint,
            SysReg::APDAKEYLO_EL1 => 0xc110int,
            SysReg::APDAKEYHI_EL1 => 0xc111int,
            SysReg::APDBKEYLO_EL1 => 0xc112int,
            SysReg::APDBKEYHI_EL1 => 0xc113int,
            SysReg::APGAKEYLO_EL1 => 0xc118int,
            SysReg::APGAKEYHI_EL1 => 0xc119int,
            SysReg::SPSR_EL1 => 0xc200int,
            SysReg::ELR_EL1 => 0xc201int,
            SysReg::SP_EL0 => 0xc208int,
            SysReg::AFSR0_EL1 => 0xc288int,
            SysReg::AFSR1_EL1 => 0xc289int,
            SysReg::ESR_EL1 => 0xc290int,
            SysReg::FAR_EL1 => 0xc300int,
            SysReg::PAR_EL1 => 0xc3a0int,
            SysReg::MAIR_EL1 => 0xc510int,
            SysReg::AMAIR_EL1 => 0xc518int,
            SysReg::VBAR_EL1 => 0xc600int,
            SysReg::CONTEXTIDR_EL1 => 0xc681int,
            SysReg::TPIDR_EL1 => 0xc684int,
            SysReg::CNTKCTL_EL1 => 0xc708int,
            SysReg::TPIDR_EL0 => 0xde82int,
            SysReg::TPIDRRO_EL0 => 0xde83int,
            SysReg::CNTV_CTL_EL0 => 0xdf19int,
            SysReg::CNTV_CVAL_EL0 => 0xdf1aint,
            SysReg::CNTP_CTL_EL0 => 0xdf11int,
            SysReg::CNTP_CVAL_EL0 => 0xdf12int,
            SysReg::CNTHCTL_EL2 => 0xe708int,
            SysReg::SP_EL1 => 0xe208int,
            SysReg::CSSELR_EL1 => 0xd000int,
        }),
{
}

/// Each GIC CPU interface register goes by the number that the architecture
/// gives it.
pub proof fn law_icc_register_numbers(reg: IccReg)
    ensures
        icc_reg_encoding(reg) == (match reg {
            IccReg::PMR_EL1 => 0xc230int,
            IccReg::BPR0_EL1 => 0xc643int,
            IccReg::AP0R0_EL1 => 0xc644int,
            IccReg::AP1R0_EL1 => 0xc648int,
            IccReg::BPR1_EL1 => 0xc663int,
            IccReg::CTLR_EL1 => 0xc664int,
            IccReg::SRE_EL1 => 0xc665int,
            IccReg::IGRPEN0_EL1 => 0xc666int,
            IccReg::IGRPEN1_EL1 => 0xc667int,
        }),
{
}

/// A snapshot holds every system register exactly once, but for the CPU's
/// identity and the hypervisor's timer control, which belong to the host.
pub proof fn law_snapshot_holds_every_register_once(reg: SysReg, i: int, j: int)
    requires
        0 <= i < 38,
        0 <= j < 38,
    ensures
        SNAPSHOT_SYS_REGS@.len() == 38,
        SNAPSHOT_SYS_REGS@[i] == SNAPSHOT_SYS_REGS@[j] <==> i == j,
        SNAPSHOT_SYS_REGS@.contains(reg) <==> reg != SysReg::MPIDR_EL1 && reg
            != SysReg::CNTHCTL_EL2,
{
}

} // verus!
