//! Experiments that validate the assumptions about Hypervisor.framework.
//!
//! 1. Basic HVC trap: the guest executes HVC #0, the host sees an exception
//!    exit with EC=0x16.
//! 2. Copy-on-write forks: private file mappings give each VM its own copy.
//! 3. Latency of VM creation.
//! 4. Limits on concurrent VMs and vCPUs.
//!
//! An experiment is a script: calls to make and observations to expect, in
//! order. The program around the library carries it out.

use crate::bytes;
use crate::hvf;
use crate::hvf::{HvReturn, HV_EXIT_REASON_EXCEPTION, HV_SUCCESS};
use crate::registers::{SysReg, REG_CPSR, REG_PC, REG_X0, REG_X2};
use crate::text;
use crate::vcpu;
use crate::vcpu::VcpuAction;
use vstd::prelude::*;

verus! {

/// Where the code page is mapped.
pub const CODE_IPA: u64 = 0x4000_0000;

/// Where the stack page is mapped.
pub const STACK_IPA: u64 = 0x4001_0000;

/// Where the data file is mapped.
pub const DATA_IPA: u64 = 0x5000_0000;

/// Size of the data file: four pages.
pub const DATA_SIZE: usize = 0x1_0000;

/// Where the marker stands in the data file: at the start of page 2.
pub const MARKER_OFFSET: usize = 0x8000;

/// What fills the data file around the marker.
pub const FILLER: u8 = 0xAA;

/// The marker of an untouched data file.
pub const MARKER: u64 = 0xDEAD_BEEF_CAFE_BABE;

/// What the guest writes over the marker.
pub const OVERWRITTEN: u64 = 0xBEEF;

/// Processor state of the experiments' guests, all interrupts masked.
pub const SPIKE_CPSR: u64 = 0x3c4;

/// MMU off, caches off.
pub const SPIKE_SCTLR: u64 = 0x30d00800;

/// `HVC #0`
pub const HVC_0: u32 = 0xd4000002;

/// VMs whose creation is timed.
pub const LATENCY_ITERATIONS: usize = 1000;

/// VMs that are created and destroyed in a row.
pub const CYCLE_COUNT: usize = 100;

/// vCPUs that are tried at most.
pub const MAX_VCPUS: usize = 500;

/// The name of a return code.
pub fn hv_result_name(ret: HvReturn) -> (name: &'static str)
    ensures
        name@ == (if ret == 0 {
            "HV_SUCCESS"@
        } else {
            "HV_ERROR"@
        }),
{
    if ret == 0 {
        "HV_SUCCESS"
    } else {
        "HV_ERROR"
    }
}

/// Accepts a successful return code, and otherwise says which call failed and
/// with which code.
pub fn check_hv(ret: HvReturn, context: &str) -> (r: Result<(), String>)
    ensures
        r is Ok <==> ret == HV_SUCCESS,
        r matches Err(message) ==> message@ == context@ + ": returned 0x"@ + text::hex(
            hvf::return_code(ret),
        ) + " ("@ + "HV_ERROR"@ + ")"@,
{
    if ret == HV_SUCCESS {
        return Ok(());
    }
    let mut message = String::from_str(context);
    message.append(": returned 0x");
    text::push_hex(&mut message, hvf::code_of(ret) as u64);
    message.append(" (");
    message.append(hv_result_name(ret));
    message.append(")");
    Err(message)
}

// Guest programs

/// `MOVZ Xd, #imm`
pub open spec fn movz(rd: int, imm: int) -> int {
    0xd2800000 + imm * 32 + rd
}

/// `MOVK Xd, #imm, LSL #16`
pub open spec fn movk16(rd: int, imm: int) -> int {
    0xf2a00000 + imm * 32 + rd
}

/// `LDR Xt, [Xn]`
pub open spec fn ldr(rt: int, rn: int) -> int {
    0xf9400000 + rn * 32 + rt
}

/// `STR Xt, [Xn]`
pub open spec fn str_insn(rt: int, rn: int) -> int {
    0xf9000000 + rn * 32 + rt
}

/// The program of the first experiment: two hypercalls, numbered 0x42 and
/// 0xff.
pub fn trap_program() -> (code: Vec<u32>)
    ensures
        code@ == seq![movz(0, 0x42) as u32, HVC_0, movz(0, 0xff) as u32, HVC_0],
{
    let code: Vec<u32> = vec![0xd2800840, HVC_0, 0xd2801fe0, HVC_0];
    assert(code@ =~= seq![movz(0, 0x42) as u32, HVC_0, movz(0, 0xff) as u32, HVC_0]);
    code
}

/// The program of the second experiment: reads the marker at `marker_ipa` into
/// x2, overwrites it, and stops.
pub open spec fn cow_code(marker_ipa: u64) -> Seq<u32> {
    seq![
        movz(1, marker_ipa as int % 0x1_0000) as u32,
        movk16(1, marker_ipa as int / 0x1_0000 % 0x1_0000) as u32,
        ldr(2, 1) as u32,
        movz(3, OVERWRITTEN as int) as u32,
        str_insn(3, 1) as u32,
        movz(0, 1) as u32,
        HVC_0,
    ]
}

/// The program of the second experiment.
pub fn cow_program(marker_ipa: u64) -> (code: Vec<u32>)
    ensures
        code@ == cow_code(marker_ipa),
{
    let lo: u32 = (marker_ipa % 0x1_0000) as u32;
    let hi: u32 = (marker_ipa / 0x1_0000 % 0x1_0000) as u32;
    let code: Vec<u32> = vec![
        0xd2800001 + lo * 32,
        0xf2a00001 + hi * 32,
        0xf9400022,
        0xd2800003 + 0xBEEF * 32,
        0xf9000023,
        0xd2800020,
        HVC_0,
    ];
    assert(code@ =~= cow_code(marker_ipa));
    code
}

/// The bytes of a program.
pub open spec fn program_bytes(code: Seq<u32>) -> Seq<u8>
    decreases code.len(),
{
    if code.len() == 0 {
        Seq::empty()
    } else {
        program_bytes(code.drop_last()) + bytes::le_bytes(code.last() as nat, 4)
    }
}

/// The bytes of a program.
pub fn assemble(code: &Vec<u32>) -> (b: Vec<u8>)
    ensures
        b@ == program_bytes(code@),
{
    let n: usize = code.len();
    let mut out: Vec<u8> = Vec::new();
    let mut i: usize = 0;
    assert(code@.take(0) =~= Seq::<u32>::empty());
    while i < n
        invariant
            i <= n,
            n == code@.len(),
            out@ == program_bytes(code@.take(i as int)),
        decreases n - i,
    {
        let mut word = bytes::to_le(code[i] as u64, 4);
        assert(code@.take(i + 1).drop_last() =~= code@.take(i as int));
        out.append(&mut word);
        i = i + 1;
    }
    assert(code@.take(n as int) =~= code@);
    out
}

/// The contents of the data file: filler with the marker in it.
pub fn data_file() -> (b: Vec<u8>)
    ensures
        b@ == bytes::overlay(
            Seq::new(DATA_SIZE as nat, |i: int| FILLER),
            MARKER_OFFSET as int,
            bytes::le_bytes(MARKER as nat, 8),
        ),
{
    let marker = bytes::to_le(MARKER, 8);
    proof {
        bytes::lemma_le_bytes_len(MARKER as nat, 8);
    }
    let mut b: Vec<u8> = Vec::new();
    let mut i: usize = 0;
    while i < DATA_SIZE
        invariant
            i <= DATA_SIZE,
            marker@.len() == 8,
            b@.len() == i,
            forall|k: int|
                0 <= k < i ==> #[trigger] b@[k] == (if MARKER_OFFSET <= k < MARKER_OFFSET + 8 {
                    marker@[k - MARKER_OFFSET]
                } else {
                    FILLER
                }),
        decreases DATA_SIZE - i,
    {
        if MARKER_OFFSET <= i && i < MARKER_OFFSET + 8 {
            b.push(marker[i - MARKER_OFFSET]);
        } else {
            b.push(FILLER);
        }
        i = i + 1;
    }
    assert(b@ =~= bytes::overlay(
        Seq::new(DATA_SIZE as nat, |i: int| FILLER),
        MARKER_OFFSET as int,
        bytes::le_bytes(MARKER as nat, 8),
    ));
    b
}

/// The marker in `data`, a copy of the data file.
pub fn marker_of(data: &[u8]) -> (m: u64)
    requires
        data@.len() == DATA_SIZE,
    ensures
        m == bytes::le_value(data@.subrange(MARKER_OFFSET as int, MARKER_OFFSET + 8)),
{
    bytes::read_le(data, MARKER_OFFSET, 8)
}

/// The registers that an experiment's vCPU starts with.
pub open spec fn vcpu_state(code_base: u64, entry_offset: u64, stack_top: u64) -> Seq<VcpuAction> {
    seq![
        VcpuAction::SetReg { reg: REG_PC, value: (code_base + entry_offset) as u64 },
        VcpuAction::SetSysReg { sys_reg: SysReg::SP_EL1, value: stack_top },
        VcpuAction::SetReg { reg: REG_CPSR, value: SPIKE_CPSR },
        VcpuAction::SetSysReg { sys_reg: SysReg::SCTLR_EL1, value: SPIKE_SCTLR },
    ]
}

/// Sets up a vCPU with minimal bare-metal EL1 state.
pub fn create_vcpu_with_state(code_base_ipa: u64, entry_offset: u64, stack_top_ipa: u64) -> (actions:
    Vec<VcpuAction>)
    requires
        code_base_ipa + entry_offset <= u64::MAX,
    ensures
        actions@ == vcpu_state(code_base_ipa, entry_offset, stack_top_ipa),
{
    let mut actions: Vec<VcpuAction> = Vec::new();
    actions.push(VcpuAction::SetReg { reg: REG_PC, value: code_base_ipa + entry_offset });
    actions.push(VcpuAction::SetSysReg { sys_reg: SysReg::SP_EL1, value: stack_top_ipa });
    actions.push(VcpuAction::SetReg { reg: REG_CPSR, value: SPIKE_CPSR });
    actions.push(VcpuAction::SetSysReg { sys_reg: SysReg::SCTLR_EL1, value: SPIKE_SCTLR });
    assert(actions@ =~= vcpu_state(code_base_ipa, entry_offset, stack_top_ipa));
    actions
}

// Scripts

/// What an experiment maps.
#[derive(Clone, Copy, Debug, PartialEq, Eq, Structural)]
pub enum Region {
    /// One page at [`CODE_IPA`], to read and execute.
    Code,
    /// One page at [`STACK_IPA`], to read and write.
    Stack,
    /// The current private mapping of the data file at [`DATA_IPA`], to read
    /// and write.
    Data,
}

/// Where a region goes and what is allowed there.
pub fn region_mapping(region: Region) -> (r: (u64, u64))
    ensures
        r == (match region {
            Region::Code => (CODE_IPA, (hvf::HV_MEMORY_READ + hvf::HV_MEMORY_EXEC) as u64),
            Region::Stack => (STACK_IPA, (hvf::HV_MEMORY_READ + hvf::HV_MEMORY_WRITE) as u64),
            Region::Data => (DATA_IPA, (hvf::HV_MEMORY_READ + hvf::HV_MEMORY_WRITE) as u64),
        }),
{
    match region {
        Region::Code => (CODE_IPA, hvf::HV_MEMORY_READ + hvf::HV_MEMORY_EXEC),
        Region::Stack => (STACK_IPA, hvf::HV_MEMORY_READ + hvf::HV_MEMORY_WRITE),
        Region::Data => (DATA_IPA, hvf::HV_MEMORY_READ + hvf::HV_MEMORY_WRITE),
    }
}

/// One step of an experiment.
#[derive(Clone, Copy, Debug, PartialEq, Eq, Structural)]
pub enum Step {
    /// Make a fresh private mapping of the data file.
    MapFile,
    CreateVm,
    MapRegion { region: Region },
    /// Create a vCPU that starts at the code page, with the stack page's end
    /// as its stack.
    CreateVcpu,
    Run,
    SetReg { reg: u32, value: u64 },
    DestroyVcpu,
    DestroyVm,
    /// The last exit has this reason.
    ExpectReason { reason: u32 },
    /// The last exit is an exception of this class.
    ExpectClass { ec: u64 },
    /// A general register has this value.
    ExpectReg { reg: u32, value: u64 },
    /// The current mapping of the data file has this marker.
    ExpectMapped { marker: u64 },
    /// The data file itself has this marker.
    ExpectFile { marker: u64 },
}

/// Whether a step went as it should: a call returned success, and what was
/// observed is what was expected.
pub open spec fn step_passes(step: Step, observed: u64) -> bool {
    match step {
        Step::ExpectReason { reason } => observed == reason,
        Step::ExpectClass { ec } => observed == ec,
        Step::ExpectReg { reg, value } => observed == value,
        Step::ExpectMapped { marker } => observed == marker,
        Step::ExpectFile { marker } => observed == marker,
        _ => observed == 0,
    }
}

/// Judges a step by the return code of its call, or by what was observed.
pub fn judge(step: &Step, observed: u64) -> (pass: bool)
    ensures
        pass == step_passes(*step, observed),
{
    match step {
        Step::ExpectReason { reason } => observed == *reason as u64,
        Step::ExpectClass { ec } => observed == *ec,
        Step::ExpectReg { reg, value } => observed == *value,
        Step::ExpectMapped { marker } => observed == *marker,
        Step::ExpectFile { marker } => observed == *marker,
        _ => observed == 0,
    }
}

/// The first experiment. HVF reports the PC after the HVC, so that it need not
/// be advanced.
pub open spec fn trap_script() -> Seq<Step> {
    seq![
        Step::CreateVm,
        Step::MapRegion { region: Region::Code },
        Step::MapRegion { region: Region::Stack },
        Step::CreateVcpu,
        Step::Run,
        Step::ExpectReason { reason: HV_EXIT_REASON_EXCEPTION },
        Step::ExpectClass { ec: 0x16 },
        Step::ExpectReg { reg: REG_X0, value: 0x42 },
        Step::ExpectReg { reg: REG_PC, value: (CODE_IPA + 8) as u64 },
        Step::SetReg { reg: REG_X0, value: 0xBEEF },
        Step::Run,
        Step::ExpectReason { reason: HV_EXIT_REASON_EXCEPTION },
        Step::ExpectClass { ec: 0x16 },
        Step::ExpectReg { reg: REG_X0, value: 0xFF },
        Step::DestroyVcpu,
        Step::DestroyVm,
    ]
}

/// The first experiment: a guest that makes two hypercalls.
pub fn test_basic_hvc_trap() -> (script: Vec<Step>)
    ensures
        script@ == trap_script(),
{
    let script: Vec<Step> = vec![
        Step::CreateVm,
        Step::MapRegion { region: Region::Code },
        Step::MapRegion { region: Region::Stack },
        Step::CreateVcpu,
        Step::Run,
        Step::ExpectReason { reason: HV_EXIT_REASON_EXCEPTION },
        Step::ExpectClass { ec: 0x16 },
        Step::ExpectReg { reg: REG_X0, value: 0x42 },
        Step::ExpectReg { reg: REG_PC, value: CODE_IPA + 8 },
        Step::SetReg { reg: REG_X0, value: 0xBEEF },
        Step::Run,
        Step::ExpectReason { reason: HV_EXIT_REASON_EXCEPTION },
        Step::ExpectClass { ec: 0x16 },
        Step::ExpectReg { reg: REG_X0, value: 0xFF },
        Step::DestroyVcpu,
        Step::DestroyVm,
    ];
    assert(script@ =~= trap_script());
    script
}

/// The second experiment: a VM reads the marker and overwrites it in its own
/// mapping; a second VM, with a fresh mapping, and the file itself still have
/// the marker.
pub open spec fn cow_script() -> Seq<Step> {
    seq![
        Step::MapFile,
        Step::ExpectMapped { marker: MARKER },
        Step::CreateVm,
        Step::MapRegion { region: Region::Code },
        Step::MapRegion { region: Region::Stack },
        Step::MapRegion { region: Region::Data },
        Step::CreateVcpu,
        Step::Run,
        Step::ExpectReason { reason: HV_EXIT_REASON_EXCEPTION },
        Step::ExpectClass { ec: 0x16 },
        Step::ExpectReg { reg: REG_X2, value: MARKER },
        Step::ExpectMapped { marker: OVERWRITTEN },
        Step::DestroyVcpu,
        Step::DestroyVm,
        Step::MapFile,
        Step::ExpectMapped { marker: MARKER },
        Step::CreateVm,
        Step::MapRegion { region: Region::Code },
        Step::MapRegion { region: Region::Stack },
        Step::MapRegion { region: Region::Data },
        Step::CreateVcpu,
        Step::Run,
        Step::ExpectReason { reason: HV_EXIT_REASON_EXCEPTION },
        Step::ExpectReg { reg: REG_X2, value: MARKER },
        Step::DestroyVcpu,
        Step::DestroyVm,
        Step::ExpectFile { marker: MARKER },
    ]
}

/// The second experiment: copy-on-write forks.
pub fn test_cow_fork() -> (script: Vec<Step>)
    ensures
        script@ == cow_script(),
{
    let script: Vec<Step> = vec![
        Step::MapFile,
        Step::ExpectMapped { marker: MARKER },
        Step::CreateVm,
        Step::MapRegion { region: Region::Code },
        Step::MapRegion { region: Region::Stack },
        Step::MapRegion { region: Region::Data },
        Step::CreateVcpu,
        Step::Run,
        Step::ExpectReason { reason: HV_EXIT_REASON_EXCEPTION },
        Step::ExpectClass { ec: 0x16 },
        Step::ExpectReg { reg: REG_X2, value: MARKER },
        Step::ExpectMapped { marker: OVERWRITTEN },
        Step::DestroyVcpu,
        Step::DestroyVm,
        Step::MapFile,
        Step::ExpectMapped { marker: MARKER },
        Step::CreateVm,
        Step::MapRegion { region: Region::Code },
        Step::MapRegion { region: Region::Stack },
        Step::MapRegion { region: Region::Data },
        Step::CreateVcpu,
        Step::Run,
        Step::ExpectReason { reason: HV_EXIT_REASON_EXCEPTION },
        Step::ExpectReg { reg: REG_X2, value: MARKER },
        Step::DestroyVcpu,
        Step::DestroyVm,
        Step::ExpectFile { marker: MARKER },
    ];
    assert(script@ =~= cow_script());
    script
}

/// One timed VM: time is taken before it, after the VM is created, and after
/// the vCPU is set up, which is after the first and the fourth step.
pub open spec fn latency_script() -> Seq<Step> {
    seq![
        Step::CreateVm,
        Step::MapRegion { region: Region::Code },
        Step::MapRegion { region: Region::Stack },
        Step::CreateVcpu,
        Step::DestroyVcpu,
        Step::DestroyVm,
    ]
}

/// The third experiment: one timed VM.
pub fn test_vm_creation_latency() -> (script: Vec<Step>)
    ensures
        script@ == latency_script(),
{
    let script: Vec<Step> = vec![
        Step::CreateVm,
        Step::MapRegion { region: Region::Code },
        Step::MapRegion { region: Region::Stack },
        Step::CreateVcpu,
        Step::DestroyVcpu,
        Step::DestroyVm,
    ];
    assert(script@ =~= latency_script());
    script
}

/// Does the median setup time, in nanoseconds, exceed the target of 500 whole
/// microseconds?
pub fn exceeds_target(p50_ns: u64) -> (r: bool)
    ensures
        r == (p50_ns as int / 1000 > 500),
{
    p50_ns / 1000 > 500
}

/// VMs created and destroyed in a row, up to the first that is refused.
pub fn cycles_passed(codes: &Vec<HvReturn>) -> (n: usize)
    ensures
        n <= codes@.len(),
        n <= CYCLE_COUNT,
        forall|i: int| 0 <= i < n ==> codes@[i] == HV_SUCCESS,
        n < CYCLE_COUNT && n < codes@.len() ==> codes@[n as int] != HV_SUCCESS,
{
    let mut n: usize = 0;
    while n < CYCLE_COUNT && n < codes.len() && codes[n] == HV_SUCCESS
        invariant
            n <= codes@.len(),
            n <= CYCLE_COUNT,
            forall|i: int| 0 <= i < n ==> codes@[i] == HV_SUCCESS,
        decreases CYCLE_COUNT - n,
    {
        n = n + 1;
    }
    n
}

/// How the creation of one vCPU went.
#[derive(Clone, Copy, Debug, PartialEq, Eq, Structural)]
pub enum VcpuEvent {
    Created,
    Refused { code: HvReturn },
    Timeout,
}

/// A count of the vCPUs that one VM can have, each on a thread of its own.
#[derive(Clone, Copy, Debug, PartialEq, Eq)]
pub struct VcpuCensus {
    /// vCPUs that exist.
    pub created: usize,
    /// The first one that was refused, and the error.
    pub first_error: Option<(usize, HvReturn)>,
    /// No more are tried.
    pub done: bool,
}

impl VcpuCensus {
    /// The count goes on until one is refused or does not come, or all are
    /// there.
    pub open spec fn wf(self) -> bool {
        &&& self.created <= MAX_VCPUS
        &&& self.created == MAX_VCPUS ==> self.done
        &&& self.first_error matches Some(e) ==> self.done && e.0 == self.created
    }

    /// Nothing counted yet.
    pub fn new() -> (c: VcpuCensus)
        ensures
            c.wf(),
            c == (VcpuCensus { created: 0, first_error: None, done: false }),
    {
        VcpuCensus { created: 0, first_error: None, done: false }
    }

    /// Counts the outcome of one more creation.
    pub fn record(&mut self, event: VcpuEvent)
        requires
            old(self).wf(),
            !old(self).done,
        ensures
            final(self).wf(),
            *final(self) == census_step(*old(self), event),
    {
        match event {
            VcpuEvent::Created => {
                self.created = self.created + 1;
                self.done = self.created == MAX_VCPUS;
            },
            VcpuEvent::Refused { code } => {
                self.first_error = Some((self.created, code));
                self.done = true;
            },
            VcpuEvent::Timeout => {
                self.done = true;
            },
        }
    }
}

/// The count after one more event.
pub open spec fn census_step(c: VcpuCensus, event: VcpuEvent) -> VcpuCensus {
    match event {
        VcpuEvent::Created => VcpuCensus {
            created: (c.created + 1) as usize,
            done: c.created + 1 == MAX_VCPUS,
            ..c
        },
        VcpuEvent::Refused { code } => VcpuCensus {
            first_error: Some((c.created, code)),
            done: true,
            ..c
        },
        VcpuEvent::Timeout => VcpuCensus { done: true, ..c },
    }
}

/// Is a second VM in one process refused, as it should be?
pub fn single_vm_confirmed(second_return: HvReturn) -> (r: bool)
    ensures
        r == (second_return != HV_SUCCESS),
{
    second_return != HV_SUCCESS
}

// Laws

/// What exists while a script runs.
pub struct Lifecycle {
    pub vm: bool,
    pub vcpu: bool,
    pub ran: bool,
    pub file_mapped: bool,
}

/// What exists after a step; `None` if the step is out of place.
pub open spec fn lifecycle_step(l: Lifecycle, step: Step) -> Option<Lifecycle> {
    match step {
        Step::MapFile => if !l.vm {
            Some(Lifecycle { file_mapped: true, ..l })
        } else {
            None
        },
        Step::CreateVm => if !l.vm {
            Some(Lifecycle { vm: true, ..l })
        } else {
            None
        },
        Step::MapRegion { region } => if l.vm && !l.vcpu && (region is Data ==> l.file_mapped) {
            Some(l)
        } else {
            None
        },
        Step::CreateVcpu => if l.vm && !l.vcpu {
            Some(Lifecycle { vcpu: true, ran: false, ..l })
        } else {
            None
        },
        Step::Run => if l.vcpu {
            Some(Lifecycle { ran: true, ..l })
        } else {
            None
        },
        Step::SetReg { reg, value } => if l.vcpu {
            Some(l)
        } else {
            None
        },
        Step::DestroyVcpu => if l.vcpu {
            Some(Lifecycle { vcpu: false, ..l })
        } else {
            None
        },
        Step::DestroyVm => if l.vm && !l.vcpu {
            Some(Lifecycle { vm: false, ..l })
        } else {
            None
        },
        Step::ExpectReason { reason } => if l.vcpu && l.ran {
            Some(l)
        } else {
            None
        },
        Step::ExpectClass { ec } => if l.vcpu && l.ran {
            Some(l)
        } else {
            None
        },
        Step::ExpectReg { reg, value } => if l.vcpu && l.ran {
            Some(l)
        } else {
            None
        },
        Step::ExpectMapped { marker } => if l.file_mapped {
            Some(l)
        } else {
            None
        },
        Step::ExpectFile { marker } => Some(l),
    }
}

/// What exists after the first `n` steps of a script.
pub open spec fn lifecycle(script: Seq<Step>, n: int) -> Option<Lifecycle>
    decreases n,
{
    if n <= 0 {
        Some(Lifecycle { vm: false, vcpu: false, ran: false, file_mapped: false })
    } else {
        match lifecycle(script, n - 1) {
            None => None,
            Some(l) => lifecycle_step(l, script[n - 1]),
        }
    }
}

/// A VM or a vCPU that exists, a vCPU that has run, a file that is mapped.
spec fn alive(vm: bool, vcpu: bool, ran: bool, file_mapped: bool) -> Option<Lifecycle> {
    Some(Lifecycle { vm, vcpu, ran, file_mapped })
}

proof fn lemma_trap_lifecycle()
    ensures
        lifecycle(trap_script(), 16) == alive(false, false, true, false),
{
    let s = trap_script();
    assert(lifecycle(s, 0) == alive(false, false, false, false));
    assert(lifecycle(s, 1) == alive(true, false, false, false));
    assert(lifecycle(s, 2) == alive(true, false, false, false));
    assert(lifecycle(s, 3) == alive(true, false, false, false));
    assert(lifecycle(s, 4) == alive(true, true, false, false));
    assert(lifecycle(s, 5) == alive(true, true, true, false));
    assert(lifecycle(s, 6) == alive(true, true, true, false));
    assert(lifecycle(s, 7) == alive(true, true, true, false));
    assert(lifecycle(s, 8) == alive(true, true, true, false));
    assert(lifecycle(s, 9) == alive(true, true, true, false));
    assert(lifecycle(s, 10) == alive(true, true, true, false));
    assert(lifecycle(s, 11) == alive(true, true, true, false));
    assert(lifecycle(s, 12) == alive(true, true, true, false));
    assert(lifecycle(s, 13) == alive(true, true, true, false));
    assert(lifecycle(s, 14) == alive(true, true, true, false));
    assert(lifecycle(s, 15) == alive(true, false, true, false));
    assert(lifecycle(s, 16) == alive(false, false, true, false));
}

proof fn lemma_cow_lifecycle()
    ensures
        lifecycle(cow_script(), 27) == alive(false, false, true, true),
{
    let s = cow_script();
    assert(lifecycle(s, 0) == alive(false, false, false, false));
    assert(lifecycle(s, 1) == alive(false, false, false, true));
    assert(lifecycle(s, 2) == alive(false, false, false, true));
    assert(lifecycle(s, 3) == alive(true, false, false, true));
    assert(lifecycle(s, 4) == alive(true, false, false, true));
    assert(lifecycle(s, 5) == alive(true, false, false, true));
    assert(lifecycle(s, 6) == alive(true, false, false, true));
    assert(lifecycle(s, 7) == alive(true, true, false, true));
    assert(lifecycle(s, 8) == alive(true, true, true, true));
    assert(lifecycle(s, 9) == alive(true, true, true, true));
    assert(lifecycle(s, 10) == alive(true, true, true, true));
    assert(lifecycle(s, 11) == alive(true, true, true, true));
    assert(lifecycle(s, 12) == alive(true, true, true, true));
    assert(lifecycle(s, 13) == alive(true, false, true, true));
    assert(lifecycle(s, 14) == alive(false, false, true, true));
    assert(lifecycle(s, 15) == alive(false, false, true, true));
    assert(lifecycle(s, 16) == alive(false, false, true, true));
    assert(lifecycle(s, 17) == alive(true, false, true, true));
    assert(lifecycle(s, 18) == alive(true, false, true, true));
    assert(lifecycle(s, 19) == alive(true, false, true, true));
    assert(lifecycle(s, 20) == alive(true, false, true, true));
    assert(lifecycle(s, 21) == alive(true, true, false, true));
    assert(lifecycle(s, 22) == alive(true, true, true, true));
    assert(lifecycle(s, 23) == alive(true, true, true, true));
    assert(lifecycle(s, 24) == alive(true, true, true, true));
    assert(lifecycle(s, 25) == alive(true, false, true, true));
    assert(lifecycle(s, 26) == alive(false, false, true, true));
    assert(lifecycle(s, 27) == alive(false, false, true, true));
}

proof fn lemma_latency_lifecycle()
    ensures
        lifecycle(latency_script(), 6) == alive(false, false, false, false),
{
    let s = latency_script();
    assert(lifecycle(s, 0) == alive(false, false, false, false));
    assert(lifecycle(s, 1) == alive(true, false, false, false));
    assert(lifecycle(s, 2) == alive(true, false, false, false));
    assert(lifecycle(s, 3) == alive(true, false, false, false));
    assert(lifecycle(s, 4) == alive(true, true, false, false));
    assert(lifecycle(s, 5) == alive(true, false, false, false));
    assert(lifecycle(s, 6) == alive(false, false, false, false));
}

/// Every experiment makes its calls in an order that the framework allows (one
/// VM at a time, vCPUs only in a VM, no observation before a run), and leaves
/// no VM or vCPU behind.
pub proof fn law_scripts_clean_up()
    ensures
        lifecycle(trap_script(), trap_script().len() as int) matches Some(l) && !l.vm && !l.vcpu,
        lifecycle(cow_script(), cow_script().len() as int) matches Some(l) && !l.vm && !l.vcpu,
        lifecycle(latency_script(), latency_script().len() as int) matches Some(l) && !l.vm
            && !l.vcpu,
{
    lemma_trap_lifecycle();
    lemma_cow_lifecycle();
    lemma_latency_lifecycle();
    assert(trap_script().len() == 16);
    assert(cow_script().len() == 27);
    assert(latency_script().len() == 6);
}

/// A guest as the programs see it: registers, the next instruction, and memory.
pub struct Machine {
    pub x: Map<int, int>,
    pub pc: int,
    pub mem: Map<int, int>,
}

/// The machine after the instruction `insn`; `None` for one that no program
/// here uses, HVC among them.
pub open spec fn execute(m: Machine, insn: u32) -> Option<Machine> {
    let rd = insn as int % 32;
    let rn = insn as int / 32 % 32;
    let imm = insn as int / 32 % 0x1_0000;
    let next = Machine { pc: m.pc + 4, ..m };
    if insn as int / 0x20_0000 == 0xd2800000int / 0x20_0000 {
        Some(Machine { x: m.x.insert(rd, imm), ..next })
    } else if insn as int / 0x20_0000 == 0xf2a00000int / 0x20_0000 {
        let kept = m.x[rd] - (m.x[rd] / 0x1_0000 % 0x1_0000) * 0x1_0000;
        Some(Machine { x: m.x.insert(rd, kept + imm * 0x1_0000), ..next })
    } else if insn as int / 0x400 == 0xf9400000int / 0x400 {
        Some(Machine { x: m.x.insert(rd, m.mem[m.x[rn]]), ..next })
    } else if insn as int / 0x400 == 0xf9000000int / 0x400 {
        Some(Machine { mem: m.mem.insert(m.x[rn], m.x[rd]), ..next })
    } else {
        None
    }
}

/// The machine after the program at [`CODE_IPA`] has run to its next HVC, PC
/// past it; at most `steps` instructions are looked at.
pub open spec fn run_to_hvc(code: Seq<u32>, m: Machine, steps: nat) -> Option<Machine>
    decreases steps,
{
    let i = (m.pc - CODE_IPA) / 4;
    if steps == 0 || m.pc < CODE_IPA || i >= code.len() {
        None
    } else if code[i] == HVC_0 {
        Some(Machine { pc: m.pc + 4, ..m })
    } else {
        match execute(m, code[i]) {
            None => None,
            Some(m1) => run_to_hvc(code, m1, (steps - 1) as nat),
        }
    }
}

/// The first program does what the first experiment expects: x0 is 0x42 at the
/// first HVC, with PC past it, and 0xff at the second, whatever the host puts
/// in x0 in between.
pub proof fn law_trap_program(m: Machine, answer: int)
    requires
        m.pc == CODE_IPA,
    ensures
        ({
            let code = seq![movz(0, 0x42) as u32, HVC_0, movz(0, 0xff) as u32, HVC_0];
            let first = run_to_hvc(code, m, 2);
            let resumed = Machine { x: first->0.x.insert(0, answer), ..first->0 };
            let second = run_to_hvc(code, resumed, 2);
            &&& first is Some && first->0.x[0] == 0x42 && first->0.pc == CODE_IPA + 8
            &&& second is Some && second->0.x[0] == 0xff
        }),
{
    reveal_with_fuel(run_to_hvc, 3);
}

/// The second program does what the second experiment expects: x2 is the old
/// marker, memory has the new one in its place, and nothing else changed.
pub proof fn law_cow_program(m: Machine, marker_ipa: u64)
    requires
        m.pc == CODE_IPA,
        marker_ipa < 0x1_0000_0000,
    ensures
        ({
            let end = run_to_hvc(cow_code(marker_ipa), m, 7);
            &&& end is Some
            &&& end->0.x[2] == m.mem[marker_ipa as int]
            &&& end->0.x[0] == 1
            &&& end->0.mem == m.mem.insert(marker_ipa as int, OVERWRITTEN as int)
        }),
{
    let code = cow_code(marker_ipa);
    let lo = marker_ipa as int % 0x1_0000;
    let hi = marker_ipa as int / 0x1_0000 % 0x1_0000;
    let old_marker = m.mem[marker_ipa as int];
    lemma_movz(m, 1, lo);
    let m1 = Machine { x: m.x.insert(1, lo), pc: m.pc + 4, ..m };
    lemma_movk16(m1, 1, hi);
    let m2 = Machine { x: m1.x.insert(1, marker_ipa as int), pc: m1.pc + 4, ..m1 };
    lemma_ldr(m2, 2, 1);
    let m3 = Machine { x: m2.x.insert(2, old_marker), pc: m2.pc + 4, ..m2 };
    lemma_movz(m3, 3, OVERWRITTEN as int);
    let m4 = Machine { x: m3.x.insert(3, OVERWRITTEN as int), pc: m3.pc + 4, ..m3 };
    lemma_str(m4, 3, 1);
    let m5 = Machine {
        mem: m4.mem.insert(marker_ipa as int, OVERWRITTEN as int),
        pc: m4.pc + 4,
        ..m4
    };
    lemma_movz(m5, 0, 1);
    let m6 = Machine { x: m5.x.insert(0, 1), pc: m5.pc + 4, ..m5 };
    lemma_next_step(code, m, m1, 0, 7);
    lemma_next_step(code, m1, m2, 1, 6);
    lemma_next_step(code, m2, m3, 2, 5);
    lemma_next_step(code, m3, m4, 3, 4);
    lemma_next_step(code, m4, m5, 4, 3);
    lemma_next_step(code, m5, m6, 5, 2);
    assert((m6.pc - CODE_IPA) / 4 == 6);
    assert(run_to_hvc(code, m6, 1) == Some(Machine { pc: m6.pc + 4, ..m6 }));
}

/// One instruction of a program.
proof fn lemma_next_step(code: Seq<u32>, m: Machine, m1: Machine, i: int, steps: nat)
    requires
        0 <= i < code.len(),
        m.pc == CODE_IPA + 4 * i,
        code[i] != HVC_0,
        execute(m, code[i]) == Some(m1),
        steps > 0,
    ensures
        run_to_hvc(code, m, steps) == run_to_hvc(code, m1, (steps - 1) as nat),
{
    assert((m.pc - CODE_IPA) / 4 == i);
}

proof fn lemma_movz(m: Machine, rd: int, imm: int)
    requires
        0 <= rd < 32,
        0 <= imm < 0x1_0000,
    ensures
        execute(m, movz(rd, imm) as u32) == Some(
            Machine { x: m.x.insert(rd, imm), pc: m.pc + 4, ..m },
        ),
        movz(rd, imm) as u32 != HVC_0,
{
    let insn = movz(rd, imm);
    assert(insn / 0x20_0000 == 0x694);
    assert(insn % 32 == rd);
    assert(insn / 32 % 0x1_0000 == imm);
}

proof fn lemma_movk16(m: Machine, rd: int, imm: int)
    requires
        0 <= rd < 32,
        0 <= imm < 0x1_0000,
        0 <= m.x[rd] < 0x1_0000,
    ensures
        execute(m, movk16(rd, imm) as u32) == Some(
            Machine { x: m.x.insert(rd, m.x[rd] + imm * 0x1_0000), pc: m.pc + 4, ..m },
        ),
        movk16(rd, imm) as u32 != HVC_0,
{
    let insn = movk16(rd, imm);
    assert(insn / 0x20_0000 == 0x795);
    assert(insn % 32 == rd);
    assert(insn / 32 % 0x1_0000 == imm);
}

proof fn lemma_ldr(m: Machine, rt: int, rn: int)
    requires
        0 <= rt < 32,
        0 <= rn < 32,
    ensures
        execute(m, ldr(rt, rn) as u32) == Some(
            Machine { x: m.x.insert(rt, m.mem[m.x[rn]]), pc: m.pc + 4, ..m },
        ),
        ldr(rt, rn) as u32 != HVC_0,
{
    let insn = ldr(rt, rn);
    assert(insn / 0x20_0000 == 0x7ca);
    assert(insn / 0x400 == 0x3e5000);
    assert(insn % 32 == rt);
    assert(insn / 32 % 32 == rn);
}

proof fn lemma_str(m: Machine, rt: int, rn: int)
    requires
        0 <= rt < 32,
        0 <= rn < 32,
    ensures
        execute(m, str_insn(rt, rn) as u32) == Some(
            Machine { mem: m.mem.insert(m.x[rn], m.x[rt]), pc: m.pc + 4, ..m },
        ),
        str_insn(rt, rn) as u32 != HVC_0,
{
    let insn = str_insn(rt, rn);
    assert(insn / 0x20_0000 == 0x7c8);
    assert(insn / 0x400 == 0x3e4000);
    assert(insn % 32 == rt);
    assert(insn / 32 % 32 == rn);
}

/// A census ends, and counts the vCPUs that were created: one event of
/// another sort ends it, and so does the last vCPU.
pub proof fn law_census_ends(c: VcpuCensus, event: VcpuEvent)
    requires
        c.wf(),
        !c.done,
    ensures
        census_step(c, event).wf(),
        census_step(c, event).created == c.created + (if event is Created {
            1int
        } else {
            0
        }),
        census_step(c, event).done || MAX_VCPUS - census_step(c, event).created < MAX_VCPUS
            - c.created,
{
}

/// The first experiment expects what its program does: after each run an HVC
/// exception, with the value of x0 and the PC that the program has then, and in
/// between it overwrites x0.
pub proof fn law_trap_expectations(m: Machine)
    requires
        m.pc == CODE_IPA,
    ensures
        ({
            let code = seq![movz(0, 0x42) as u32, HVC_0, movz(0, 0xff) as u32, HVC_0];
            let first = run_to_hvc(code, m, 2)->0;
            let resumed = Machine { x: first.x.insert(0, 0xBEEF), ..first };
            let second = run_to_hvc(code, resumed, 2)->0;
            let s = trap_script();
            &&& s[3] is CreateVcpu && s[4] is Run && s[10] is Run
            &&& s[5] == Step::ExpectReason { reason: 1 }
            &&& s[6] == Step::ExpectClass { ec: 0x16 }
            &&& s[7] == Step::ExpectReg { reg: 0, value: first.x[0] as u64 }
            &&& s[8] == Step::ExpectReg { reg: 31, value: first.pc as u64 }
            &&& s[9] == Step::SetReg { reg: 0, value: 0xBEEF }
            &&& s[11] == Step::ExpectReason { reason: 1 }
            &&& s[12] == Step::ExpectClass { ec: 0x16 }
            &&& s[13] == Step::ExpectReg { reg: 0, value: second.x[0] as u64 }
        }),
{
    law_trap_program(m, 0xBEEF);
}

/// The second experiment expects what its program does where mappings are
/// private: the first VM reads the file's marker and overwrites it in its own
/// mapping; a fresh mapping, the second VM and the file have the old marker.
pub proof fn law_cow_expectations(m: Machine)
    requires
        m.pc == CODE_IPA,
        m.mem[0x5000_8000] == 0xDEAD_BEEF_CAFE_BABEint,
    ensures
        ({
            let end = run_to_hvc(cow_code((DATA_IPA + MARKER_OFFSET) as u64), m, 7)->0;
            let marker = m.mem[0x5000_8000] as u64;
            let s = cow_script();
            &&& s[0] is MapFile && s[14] is MapFile
            &&& s[7] is Run && s[21] is Run
            &&& s[1] == Step::ExpectMapped { marker }
            &&& s[8] == Step::ExpectReason { reason: 1 }
            &&& s[9] == Step::ExpectClass { ec: 0x16 }
            &&& s[10] == Step::ExpectReg { reg: 2, value: end.x[2] as u64 }
            &&& s[11] == Step::ExpectMapped { marker: end.mem[0x5000_8000] as u64 }
            &&& s[15] == Step::ExpectMapped { marker }
            &&& s[22] == Step::ExpectReason { reason: 1 }
            &&& s[23] == Step::ExpectReg { reg: 2, value: end.x[2] as u64 }
            &&& s[26] == Step::ExpectFile { marker }
            &&& end.mem[0x5000_8000] != m.mem[0x5000_8000]
        }),
{
    law_cow_program(m, 0x5000_8000);
}

/// The third experiment creates one VM with its memory and one vCPU and takes
/// both down again; the VM is there after the first step and the vCPU after the
/// fourth.
pub proof fn law_latency_steps(n: int)
    requires
        0 <= n <= 6,
    ensures
        latency_script().len() == 6,
        lifecycle(latency_script(), n) is Some,
        lifecycle(latency_script(), n)->0.vm <==> 1 <= n <= 5,
        lifecycle(latency_script(), n)->0.vcpu <==> n == 4,
        latency_script()[1] == (Step::MapRegion { region: Region::Code }),
        latency_script()[2] == (Step::MapRegion { region: Region::Stack }),
{
    let s = latency_script();
    assert(lifecycle(s, 0) == alive(false, false, false, false));
    assert(lifecycle(s, 1) == alive(true, false, false, false));
    assert(lifecycle(s, 2) == alive(true, false, false, false));
    assert(lifecycle(s, 3) == alive(true, false, false, false));
    assert(lifecycle(s, 4) == alive(true, true, false, false));
    assert(lifecycle(s, 5) == alive(true, false, false, false));
    assert(lifecycle(s, 6) == alive(false, false, false, false));
}

/// A call passes exactly if it returned success, an observation exactly if it
/// is what was expected.
pub proof fn law_how_steps_are_judged(step: Step, observed: u64)
    ensures
        step matches Step::ExpectReason { reason } ==> (step_passes(step, observed) <==> observed
            == reason),
        step matches Step::ExpectClass { ec } ==> (step_passes(step, observed) <==> observed == ec),
        step matches Step::ExpectReg { reg, value } ==> (step_passes(step, observed) <==> observed
            == value),
        step matches Step::ExpectMapped { marker } ==> (step_passes(step, observed) <==> observed
            == marker),
        step matches Step::ExpectFile { marker } ==> (step_passes(step, observed) <==> observed
            == marker),
        !(step is ExpectReason) && !(step is ExpectClass) && !(step is ExpectReg) && !(step
            is ExpectMapped) && !(step is ExpectFile) ==> (step_passes(step, observed) <==> observed
            == 0),
{
}

/// An experiment's vCPU starts at its entry, at EL1 with interrupts masked, MMU
/// and caches off, and the given stack.
pub proof fn law_experiment_start(
    code_base: u64,
    entry_offset: u64,
    stack_top: u64,
    reg: u32,
    before: u64,
)
    requires
        code_base + entry_offset <= u64::MAX,
    ensures
        ({
            let acts = vcpu_state(code_base, entry_offset, stack_top);
            let cpsr = vcpu::reg_after(acts, 34, before);
            let sctlr = vcpu::sys_reg_after(acts, SysReg::SCTLR_EL1, before);
            &&& vcpu::reg_after(acts, 31, before) == code_base + entry_offset
            &&& vcpu::sys_reg_after(acts, SysReg::SP_EL1, before) == stack_top
            &&& cpsr == 0x3c4
            &&& (cpsr / 4) % 4 == 1 && (cpsr / 64) % 16 == 0b1111
            &&& sctlr == 0x30d0_0800
            &&& sctlr % 2 == 0 && (sctlr / 4) % 2 == 0 && (sctlr / 0x1000) % 2 == 0
            &&& reg != 31 && reg != 34 ==> vcpu::reg_after(acts, reg, before) == before
        }),
{
    let a4 = vcpu_state(code_base, entry_offset, stack_top);
    let a3 = a4.drop_last();
    let a2 = a3.drop_last();
    let a1 = a2.drop_last();
    assert(a1.drop_last().len() == 0);
    reveal_with_fuel(vcpu::reg_after, 5);
    reveal_with_fuel(vcpu::sys_reg_after, 5);
}

/// Instruction `i` of a program stands at byte 4i, little-endian.
pub proof fn law_programs_in_memory(code: Seq<u32>, i: int)
    requires
        0 <= i < code.len(),
    ensures
        program_bytes(code).len() == 4 * code.len(),
        bytes::le_value(program_bytes(code).subrange(4 * i, 4 * i + 4)) == code[i],
    decreases code.len(),
{
    let init = code.drop_last();
    lemma_program_len(init);
    lemma_program_len(code);
    bytes::lemma_le_bytes_len(code.last() as nat, 4);
    if i < init.len() {
        law_programs_in_memory(init, i);
        assert(program_bytes(code).subrange(4 * i, 4 * i + 4) =~= program_bytes(init).subrange(
            4 * i,
            4 * i + 4,
        ));
    } else {
        bytes::lemma_pow256_values();
        bytes::lemma_le_round_trip(code.last() as nat, 4);
        assert(program_bytes(code).subrange(4 * i, 4 * i + 4) =~= bytes::le_bytes(
            code.last() as nat,
            4,
        ));
    }
}

/// A program takes four bytes per instruction.
proof fn lemma_program_len(code: Seq<u32>)
    ensures
        program_bytes(code).len() == 4 * code.len(),
    decreases code.len(),
{
    if code.len() > 0 {
        lemma_program_len(code.drop_last());
        bytes::lemma_le_bytes_len(code.last() as nat, 4);
    }
}

/// What a count of vCPUs remembers: how many were created, and of the first
/// refusal its place and code. It goes on after a success below 500, and ends
/// otherwise.
pub proof fn law_census_remembers(c: VcpuCensus, event: VcpuEvent)
    requires
        c.wf(),
        !c.done,
    ensures
        ({
            let after = census_step(c, event);
            &&& event is Created ==> after.created == c.created + 1 && after.first_error
                == c.first_error && (after.done <==> after.created == 500)
            &&& event matches VcpuEvent::Refused { code } ==> after.created == c.created
                && after.first_error == Some((c.created, code)) && after.done
            &&& event is Timeout ==> after.created == c.created && after.first_error
                == c.first_error && after.done
        }),
{
}

} // verus!
