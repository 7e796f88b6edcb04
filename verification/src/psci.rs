//! PSCI (Power State Coordination Interface) handler.
//!
//! Linux calls PSCI via HVC to discover CPUs and manage power states. This is
//! the minimum subset needed for a single-vCPU boot.

use vstd::prelude::*;

verus! {

// ARM SMCCC (SMC Calling Convention)
pub const SMCCC_VERSION: u32 = 0x8000_0000;

pub const SMCCC_ARCH_FEATURES: u32 = 0x8000_0001;

pub const SMCCC_ARCH_SOC_ID: u32 = 0x8000_0002;

pub const SMCCC_ARCH_WORKAROUND_1: u32 = 0x8000_8000;

pub const SMCCC_ARCH_WORKAROUND_2: u32 = 0x8000_7FFF;

// PSCI extended functions
pub const PSCI_CPU_FREEZE: u32 = 0x8400_000B;

pub const PSCI_CPU_DEFAULT_SUSPEND_32: u32 = 0x8400_000C;

pub const PSCI_NODE_HW_STATE_32: u32 = 0x8400_000D;

pub const PSCI_SYSTEM_SUSPEND_32: u32 = 0x8400_000E;

pub const PSCI_SET_SUSPEND_MODE: u32 = 0x8400_000F;

pub const PSCI_STAT_RESIDENCY_32: u32 = 0x8400_0010;

pub const PSCI_STAT_COUNT_32: u32 = 0x8400_0011;

pub const PSCI_SYSTEM_RESET2_32: u32 = 0x8400_0012;

pub const PSCI_MEM_PROTECT: u32 = 0x8400_0013;

pub const PSCI_MEM_PROTECT_CHECK_RANGE_32: u32 = 0x8400_0014;

// PSCI 64-bit variants
pub const PSCI_CPU_DEFAULT_SUSPEND_64: u32 = 0xC400_000C;

pub const PSCI_NODE_HW_STATE_64: u32 = 0xC400_000D;

pub const PSCI_SYSTEM_SUSPEND_64: u32 = 0xC400_000E;

pub const PSCI_STAT_RESIDENCY_64: u32 = 0xC400_0010;

pub const PSCI_STAT_COUNT_64: u32 = 0xC400_0011;

pub const PSCI_SYSTEM_RESET2_64: u32 = 0xC400_0012;

pub const PSCI_MEM_PROTECT_CHECK_RANGE_64: u32 = 0xC400_0014;

// PSCI SMCCC_FILTER
pub const PSCI_SMCCC_FILTER: u32 = 0x8400_0050;

// Arm FF-A (Firmware Framework)
pub const FFA_VERSION: u32 = 0x8600_FF01;

// PSCI function IDs (PSCI v1.1, SMC Calling Convention)
pub const PSCI_VERSION: u32 = 0x8400_0000;

pub const PSCI_CPU_SUSPEND_32: u32 = 0x8400_0001;

pub const PSCI_CPU_OFF: u32 = 0x8400_0002;

pub const PSCI_CPU_ON_32: u32 = 0x8400_0003;

pub const PSCI_CPU_ON_64: u32 = 0xC400_0003;

pub const PSCI_AFFINITY_INFO_64: u32 = 0xC400_0004;

pub const PSCI_MIGRATE_INFO_TYPE: u32 = 0x8400_0006;

pub const PSCI_SYSTEM_OFF: u32 = 0x8400_0008;

pub const PSCI_SYSTEM_RESET: u32 = 0x8400_0009;

pub const PSCI_FEATURES: u32 = 0x8400_000A;

/// PSCI/SMCCC success.
pub const PSCI_SUCCESS: u64 = 0;

/// PSCI/SMCCC NOT_SUPPORTED (-1) as a register value.
pub const PSCI_NOT_SUPPORTED: u64 = 0xFFFF_FFFF_FFFF_FFFF;

/// SMCCC_RET_NOT_REQUIRED (-2) as a register value: the CPU needs no
/// workaround, so the kernel must not call for one.
pub const SMCCC_NOT_REQUIRED: u64 = 0xFFFF_FFFF_FFFF_FFFE;

/// PSCI ALREADY_ON (-6) as a register value.
pub const PSCI_ALREADY_ON: u64 = 0xFFFF_FFFF_FFFF_FFFA;

/// SMCCC v1.2: major=1, minor=2.
pub const SMCCC_VERSION_1_2: u64 = 0x1_0002;

/// PSCI v1.1: major=1, minor=1.
pub const PSCI_VERSION_1_1: u64 = 0x1_0001;

/// Result of handling a PSCI call.
#[derive(Clone, Copy, Debug, PartialEq, Eq, Structural)]
pub enum PsciResult {
    /// Return a value in x0 and continue execution.
    Return(u64),
    /// System off: terminate the VM.
    SystemOff,
    /// System reset: terminate the VM (an actual reset is not supported).
    SystemReset,
}

/// Functions that are answered with NOT_SUPPORTED.
pub open spec fn is_unsupported(func_id: u32) -> bool {
    ||| func_id == SMCCC_ARCH_SOC_ID
    ||| func_id == FFA_VERSION
    // a single CPU cannot turn itself off
    ||| func_id == PSCI_CPU_OFF
    ||| func_id == PSCI_SMCCC_FILTER
    // CPU_FREEZE up to MEM_PROTECT_CHECK_RANGE
    ||| 0x8400_000B <= func_id <= 0x8400_0014
    // their 64-bit variants
    ||| 0xC400_000C <= func_id <= 0xC400_000E
    ||| 0xC400_0010 <= func_id <= 0xC400_0012
    ||| func_id == PSCI_MEM_PROTECT_CHECK_RANGE_64
}

/// The answer to a PSCI or SMCCC call; `None` for any other function.
pub open spec fn psci_answer(func_id: u32) -> Option<PsciResult> {
    if func_id == SMCCC_VERSION {
        Some(PsciResult::Return(SMCCC_VERSION_1_2))
    } else if func_id == PSCI_VERSION {
        Some(PsciResult::Return(PSCI_VERSION_1_1))
    } else if func_id == SMCCC_ARCH_FEATURES || func_id == PSCI_FEATURES || func_id
        == PSCI_CPU_SUSPEND_32 {
        Some(PsciResult::Return(PSCI_SUCCESS))
    } else if func_id == SMCCC_ARCH_WORKAROUND_1 || func_id == SMCCC_ARCH_WORKAROUND_2 {
        Some(PsciResult::Return(SMCCC_NOT_REQUIRED))
    } else if func_id == PSCI_CPU_ON_32 || func_id == PSCI_CPU_ON_64 {
        // there is one CPU and it is already on
        Some(PsciResult::Return(PSCI_ALREADY_ON))
    } else if func_id == PSCI_AFFINITY_INFO_64 {
        // CPU 0 is always on
        Some(PsciResult::Return(0))
    } else if func_id == PSCI_MIGRATE_INFO_TYPE {
        // migration not supported
        Some(PsciResult::Return(2))
    } else if func_id == PSCI_SYSTEM_OFF {
        Some(PsciResult::SystemOff)
    } else if func_id == PSCI_SYSTEM_RESET {
        Some(PsciResult::SystemReset)
    } else if is_unsupported(func_id) {
        Some(PsciResult::Return(PSCI_NOT_SUPPORTED))
    } else {
        None
    }
}

/// Try to handle an HVC as a PSCI call. Returns None if the function ID
/// is not a PSCI function (i.e., it's a regular hypercall).
pub fn handle_psci(func_id: u32) -> (r: Option<PsciResult>)
    ensures
        r == psci_answer(func_id),
{
    match func_id {
        SMCCC_VERSION => Some(PsciResult::Return(SMCCC_VERSION_1_2)),
        SMCCC_ARCH_FEATURES => Some(PsciResult::Return(PSCI_SUCCESS)),
        SMCCC_ARCH_SOC_ID => Some(PsciResult::Return(PSCI_NOT_SUPPORTED)),
        // Spectre mitigations are not needed in a VM
        SMCCC_ARCH_WORKAROUND_1 | SMCCC_ARCH_WORKAROUND_2 => Some(
            PsciResult::Return(SMCCC_NOT_REQUIRED),
        ),
        PSCI_VERSION => Some(PsciResult::Return(PSCI_VERSION_1_1)),
        PSCI_CPU_ON_32 | PSCI_CPU_ON_64 => Some(PsciResult::Return(PSCI_ALREADY_ON)),
        PSCI_CPU_OFF => Some(PsciResult::Return(PSCI_NOT_SUPPORTED)),
        // Treat suspend as a no-op (return success, resume immediately)
        PSCI_CPU_SUSPEND_32 => Some(PsciResult::Return(PSCI_SUCCESS)),
        PSCI_AFFINITY_INFO_64 => Some(PsciResult::Return(0)),
        PSCI_MIGRATE_INFO_TYPE => Some(PsciResult::Return(2)),
        PSCI_FEATURES => Some(PsciResult::Return(PSCI_SUCCESS)),
        PSCI_SYSTEM_OFF => Some(PsciResult::SystemOff),
        PSCI_SYSTEM_RESET => Some(PsciResult::SystemReset),
        PSCI_SMCCC_FILTER
        | PSCI_SYSTEM_RESET2_32
        | PSCI_SYSTEM_RESET2_64
        | PSCI_MEM_PROTECT
        | PSCI_MEM_PROTECT_CHECK_RANGE_32
        | PSCI_MEM_PROTECT_CHECK_RANGE_64
        | PSCI_STAT_RESIDENCY_32
        | PSCI_STAT_RESIDENCY_64
        | PSCI_STAT_COUNT_32
        | PSCI_STAT_COUNT_64
        | PSCI_SET_SUSPEND_MODE
        | PSCI_SYSTEM_SUSPEND_32
        | PSCI_SYSTEM_SUSPEND_64
        | PSCI_NODE_HW_STATE_32
        | PSCI_NODE_HW_STATE_64
        | PSCI_CPU_DEFAULT_SUSPEND_32
        | PSCI_CPU_DEFAULT_SUSPEND_64
        | PSCI_CPU_FREEZE => Some(PsciResult::Return(PSCI_NOT_SUPPORTED)),
        FFA_VERSION => Some(PsciResult::Return(PSCI_NOT_SUPPORTED)),
        _ => None,
    }
}

// Laws

/// Only SYSTEM_OFF and SYSTEM_RESET end the VM: every other PSCI call returns
/// a value to the guest.
pub proof fn law_only_off_and_reset_end_the_vm(func_id: u32)
    ensures
        psci_answer(func_id) == Some(PsciResult::SystemOff) <==> func_id == PSCI_SYSTEM_OFF,
        psci_answer(func_id) == Some(PsciResult::SystemReset) <==> func_id == PSCI_SYSTEM_RESET,
{
}

/// Function IDs below 2^31 are the VM's own hypercalls: PSCI claims none.
pub proof fn law_psci_claims_no_hypercall(func_id: u32)
    requires
        func_id < 0x8000_0000,
    ensures
        psci_answer(func_id) is None,
{
}

/// What the guest's kernel learns from each function, by the numbers of the
/// PSCI and SMCCC documents: the interface versions, that its one CPU is on and
/// cannot be started again, that no workaround is required, and that everything
/// else is not supported. The numbers are 64-bit two's complement.
pub proof fn law_answers_by_number(f: u32)
    ensures
        psci_answer(f) == Some(PsciResult::Return(0x1_0001)) <==> f == 0x8400_0000,
        psci_answer(f) == Some(PsciResult::Return(0x1_0002)) <==> f == 0x8000_0000,
        psci_answer(f) == Some(PsciResult::Return(0)) <==> (f == 0x8000_0001 || f == 0x8400_0001
            || f == 0x8400_000A || f == 0xC400_0004),
        psci_answer(f) == Some(PsciResult::Return(2)) <==> f == 0x8400_0006,
        psci_answer(f) == Some(PsciResult::Return(0xFFFF_FFFF_FFFF_FFFA)) <==> (f == 0x8400_0003
            || f == 0xC400_0003),
        psci_answer(f) == Some(PsciResult::Return(0xFFFF_FFFF_FFFF_FFFE)) <==> (f == 0x8000_8000
            || f == 0x8000_7FFF),
        psci_answer(f) == Some(PsciResult::SystemOff) <==> f == 0x8400_0008,
        psci_answer(f) == Some(PsciResult::SystemReset) <==> f == 0x8400_0009,
        psci_answer(f) == Some(PsciResult::Return(0xFFFF_FFFF_FFFF_FFFF)) <==> (f == 0x8000_0002
            || f == 0x8400_0002 || (0x8400_000B <= f <= 0x8400_0014) || f == 0x8400_0050 || f
            == 0x8600_FF01 || f == 0xC400_000C || f == 0xC400_000D || f == 0xC400_000E || f
            == 0xC400_0010 || f == 0xC400_0011 || f == 0xC400_0012 || f == 0xC400_0014),
{
}

/// A call that returns to the guest at all returns one of these values; there
/// is no other answer.
pub proof fn law_no_other_answers(f: u32)
    ensures
        psci_answer(f) matches Some(PsciResult::Return(v)) ==> (v == 0 || v == 2 || v == 0x1_0001
            || v == 0x1_0002 || v == 0xFFFF_FFFF_FFFF_FFFA || v == 0xFFFF_FFFF_FFFF_FFFE || v
            == 0xFFFF_FFFF_FFFF_FFFF),
{
}

} // verus!
