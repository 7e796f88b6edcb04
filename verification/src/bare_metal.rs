//! The bare-metal guest: its deterministic VM state and its hypercalls.
//!
//! The guest asks for everything it cannot compute through HVC: x0 names the
//! hypercall, x1 to x3 hold its arguments. What it learns is a function of the
//! VM's seed and of guest memory, so that two VMs with the same seed and the
//! same memory run alike.

use crate::bytes;
use crate::hvf;
use crate::hvf::{HvVcpuExit, HV_EXIT_REASON_EXCEPTION};
use crate::layout::{
    GUEST_BASE, HC_CONSOLE, HC_DB_READ, HC_EXCEPTION, HC_EXIT, HC_RANDOM, HC_READY, HC_TIME,
    MAILBOX_OFFSET, MAILBOX_SIZE,
};
use crate::registers::{SysReg, REG_CPSR, REG_PC};
use crate::rng;
use crate::rng::{rng_from_seed, rng_next_u64};
use crate::text;
use crate::vcpu;
use crate::vcpu::VcpuAction;
use rand_chacha::ChaCha8Rng;
use vstd::prelude::*;

verus! {

/// The time that every VM is told: 2023-11-14T22:13:20Z in nanoseconds.
pub const VIRTUAL_TIME_NS: u64 = 1_700_000_000_000_000_000;

/// Processor state of a fresh guest: EL1h, interrupts masked.
pub const INITIAL_CPSR: u64 = 0x3c5;

/// MMU off, required bits set.
pub const INITIAL_SCTLR: u64 = 0x30d00800;

/// FP/SIMD not trapped (bits 20 and 21).
pub const INITIAL_CPACR: u64 = 0x30_0000;

/// Per-VM deterministic state.
pub struct VmState {
    virtual_time_ns: u64,
    rng: ChaCha8Rng,
}

/// VM state as contracts speak of it.
pub struct VmView {
    /// The time that the guest is told.
    pub time_ns: u64,
    /// The seed of its random numbers.
    pub seed: Seq<u8>,
    /// How many of them it has drawn.
    pub drawn: nat,
}

impl View for VmState {
    type V = VmView;

    closed spec fn view(&self) -> VmView {
        VmView {
            time_ns: self.virtual_time_ns,
            seed: rng::rng_seed(self.rng),
            drawn: rng::rng_drawn(self.rng),
        }
    }
}

/// A 64-bit seed as the generator takes it: little-endian, filled up with
/// zeros to 32 bytes.
pub open spec fn full_seed(seed: u64) -> Seq<u8> {
    bytes::le_bytes(seed as nat, 8) + Seq::new(24, |i: int| 0u8)
}

/// The state of a fresh VM.
pub open spec fn fresh(seed: u64) -> VmView {
    VmView { time_ns: VIRTUAL_TIME_NS, seed: full_seed(seed), drawn: 0 }
}

impl VmState {
    /// The state of a fresh VM.
    pub fn new(seed: u64) -> (s: VmState)
        ensures
            s@ == fresh(seed),
    {
        let le = bytes::to_le(seed, 8);
        let mut full: [u8; 32] = [0;32];
        proof {
            bytes::lemma_le_bytes_len(seed as nat, 8);
        }
        let mut i: usize = 0;
        while i < 8
            invariant
                i <= 8,
                le@.len() == 8,
                forall|j: int| 0 <= j < i ==> full@[j] == le@[j],
                forall|j: int| i <= j < 32 ==> full@[j] == 0,
            decreases 8 - i,
        {
            full[i] = le[i];
            i = i + 1;
        }
        assert(full@ =~= full_seed(seed));
        VmState { virtual_time_ns: VIRTUAL_TIME_NS, rng: rng_from_seed(full) }
    }
}

/// The hypercall registers of a stopped vCPU.
#[derive(Clone, Copy, Debug, PartialEq, Eq, Structural)]
pub struct HypercallRegs {
    pub x0: u64,
    pub x1: u64,
    pub x2: u64,
    pub x3: u64,
}

/// Why the guest cannot go on.
#[derive(Clone, Copy, Debug, PartialEq, Eq, Structural)]
pub enum Fault {
    /// An exception other than HVC, with its class.
    Exception { ec: u64, syndrome: u64, ipa: u64 },
    /// The guest's own exception vectors reported an exception.
    GuestException { ec: u64, esr: u64, far: u64, elr: u64 },
    /// The vCPU stopped for another reason than an exception.
    UnexpectedExit { reason: u32 },
}

/// What to do after an exit.
pub enum BareOutcome {
    /// Write `console` to the host's output, set x0, and resume.
    Resume { x0: u64, console: Vec<u8> },
    /// The run ends with this hypercall and code.
    Stop { hypercall: u64, code: u64 },
    /// The guest cannot go on.
    Failed { fault: Fault },
}

/// An outcome as contracts speak of it.
pub enum OutcomeView {
    Resume { x0: u64, console: Seq<u8> },
    Stop { hypercall: u64, code: u64 },
    Failed { fault: Fault },
}

/// An outcome as contracts speak of it.
pub open spec fn outcome_view(o: BareOutcome) -> OutcomeView {
    match o {
        BareOutcome::Resume { x0, console } => OutcomeView::Resume { x0, console: console@ },
        BareOutcome::Stop { hypercall, code } => OutcomeView::Stop { hypercall, code },
        BareOutcome::Failed { fault } => OutcomeView::Failed { fault },
    }
}

/// Where `len` bytes at `gpa` lie in a region of guest memory; `None` if they
/// do not all lie in it.
pub open spec fn region_offset(gpa: u64, len: u64, guest_base: u64, region_size: int) -> Option<
    int,
> {
    if guest_base <= gpa && gpa - guest_base + len <= region_size {
        Some(gpa - guest_base)
    } else {
        None
    }
}

/// Where `len` bytes at `gpa` lie in the guest's memory.
pub fn gpa_to_host_ptr(gpa: u64, len: u64, guest_base: u64, region_size: usize) -> (offset: Option<
    usize,
>)
    ensures
        match offset {
            Some(o) => region_offset(gpa, len, guest_base, region_size as int) == Some(o as int),
            None => region_offset(gpa, len, guest_base, region_size as int) is None,
        },
{
    if gpa < guest_base {
        return None;
    }
    let offset: u64 = gpa - guest_base;
    if offset > region_size as u64 || len > region_size as u64 - offset {
        return None;
    }
    Some(offset as usize)
}

/// The bytes that a console hypercall names; none if they do not lie in guest
/// memory.
pub open spec fn console_bytes(mem: Seq<u8>, gpa: u64, len: u64) -> Seq<u8> {
    match region_offset(gpa, len, GUEST_BASE, mem.len() as int) {
        Some(o) => mem.subrange(o, o + len),
        None => Seq::empty(),
    }
}

/// The answer of the simulated database to a collection name.
pub open spec fn db_answer(request: Seq<u8>) -> Seq<u8> {
    if request == bytes::ascii_bytes("users"@) {
        bytes::ascii_bytes("[{\"id\":1,\"name\":\"Alice\"},{\"id\":2,\"name\":\"Bob\"}]"@)
    } else if request == bytes::ascii_bytes("posts"@) {
        bytes::ascii_bytes("[{\"id\":1,\"title\":\"Hello World\",\"author\":\"Alice\"}]"@)
    } else {
        bytes::ascii_bytes("[]"@)
    }
}

/// The answer of the simulated database to a collection name.
pub fn db_response(request: &[u8]) -> (response: &'static [u8])
    ensures
        response@ == db_answer(request@),
        2 <= response@.len() < 64,
{
    proof {
        reveal_strlit("users");
        reveal_strlit("posts");
        reveal_strlit("[]");
        reveal_strlit("[{\"id\":1,\"name\":\"Alice\"},{\"id\":2,\"name\":\"Bob\"}]");
        reveal_strlit("[{\"id\":1,\"title\":\"Hello World\",\"author\":\"Alice\"}]");
    }
    if bytes::equal(request, bytes::ascii("users")) {
        bytes::ascii("[{\"id\":1,\"name\":\"Alice\"},{\"id\":2,\"name\":\"Bob\"}]")
    } else if bytes::equal(request, bytes::ascii("posts")) {
        bytes::ascii("[{\"id\":1,\"title\":\"Hello World\",\"author\":\"Alice\"}]")
    } else {
        bytes::ascii("[]")
    }
}

/// The mailbox of a guest.
pub open spec fn mailbox(mem: Seq<u8>) -> Seq<u8> {
    mem.subrange(MAILBOX_OFFSET as int, MAILBOX_OFFSET + MAILBOX_SIZE)
}

/// Guest memory holds a mailbox.
pub open spec fn has_mailbox(mem: Seq<u8>) -> bool {
    mem.len() >= MAILBOX_OFFSET + MAILBOX_SIZE
}

/// Guest memory with `data` and a NUL at the start of the mailbox.
pub open spec fn with_mailbox(mem: Seq<u8>, data: Seq<u8>) -> Seq<u8> {
    bytes::overlay(mem, MAILBOX_OFFSET as int, data.push(0))
}

/// The database request in the mailbox: its first `len` bytes, or nothing if
/// the mailbox is shorter.
pub open spec fn db_request(mem: Seq<u8>, len: u64) -> Seq<u8> {
    if len <= MAILBOX_SIZE {
        mailbox(mem).take(len as int)
    } else {
        Seq::empty()
    }
}

/// What a hypercall does: the outcome, and the VM state and guest memory after
/// it. A quiet VM puts nothing on the console.
pub open spec fn hypercall(
    s: VmView,
    mem: Seq<u8>,
    regs: HypercallRegs,
    quiet: bool,
) -> (OutcomeView, VmView, Seq<u8>) {
    if regs.x0 == HC_CONSOLE {
        let console = if quiet {
            Seq::empty()
        } else {
            console_bytes(mem, regs.x1, regs.x2)
        };
        (OutcomeView::Resume { x0: 0, console }, s, mem)
    } else if regs.x0 == HC_TIME {
        (OutcomeView::Resume { x0: s.time_ns, console: Seq::empty() }, s, mem)
    } else if regs.x0 == HC_RANDOM {
        (
            OutcomeView::Resume { x0: rng::chacha8_u64(s.seed, s.drawn), console: Seq::empty() },
            VmView { drawn: s.drawn + 1, ..s },
            mem,
        )
    } else if regs.x0 == HC_DB_READ {
        let answer = db_answer(db_request(mem, regs.x1));
        (
            OutcomeView::Resume { x0: answer.len() as u64, console: Seq::empty() },
            s,
            with_mailbox(mem, answer),
        )
    } else if regs.x0 == HC_READY {
        (OutcomeView::Stop { hypercall: HC_READY, code: 0 }, s, mem)
    } else if regs.x0 == HC_EXIT {
        (OutcomeView::Stop { hypercall: HC_EXIT, code: regs.x1 }, s, mem)
    } else if regs.x0 == HC_EXCEPTION {
        (
            OutcomeView::Failed {
                fault: Fault::GuestException {
                    ec: hvf::exception_class(regs.x1) as u64,
                    esr: regs.x1,
                    far: regs.x2,
                    elr: regs.x3,
                },
            },
            s,
            mem,
        )
    } else {
        (OutcomeView::Resume { x0: u64::MAX, console: Seq::empty() }, s, mem)
    }
}

/// What an exit does: an HVC is a hypercall, anything else ends the guest.
pub open spec fn on_exit(
    s: VmView,
    mem: Seq<u8>,
    exit: HvVcpuExit,
    regs: HypercallRegs,
    quiet: bool,
) -> (OutcomeView, VmView, Seq<u8>) {
    let syndrome = exit.exception.syndrome;
    let ec = hvf::exception_class(syndrome);
    if exit.reason != HV_EXIT_REASON_EXCEPTION {
        (
            OutcomeView::Failed { fault: Fault::UnexpectedExit { reason: exit.reason } },
            s,
            mem,
        )
    } else if ec != 0x16 {
        (
            OutcomeView::Failed {
                fault: Fault::Exception {
                    ec: ec as u64,
                    syndrome,
                    ipa: exit.exception.physical_address,
                },
            },
            s,
            mem,
        )
    } else {
        hypercall(s, mem, regs, quiet)
    }
}

/// Writes `data` and a NUL to the start of the mailbox.
fn put_mailbox(mem: &mut [u8], data: &[u8])
    requires
        has_mailbox(old(mem)@),
        data@.len() < MAILBOX_SIZE,
    ensures
        final(mem)@ == with_mailbox(old(mem)@, data@),
{
    let ghost before = mem@;
    let n: usize = data.len();
    bytes::write_at(mem, MAILBOX_OFFSET as usize, data);
    mem[MAILBOX_OFFSET as usize + n] = 0;
    assert(mem@ =~= with_mailbox(before, data@));
}

/// A running bare-metal VM.
pub struct BareVm {
    pub state: VmState,
    /// Suppress guest output.
    pub quiet: bool,
}

impl BareVm {
    /// A VM with the given seed.
    pub fn new(seed: u64, quiet: bool) -> (vm: BareVm)
        ensures
            vm.state@ == fresh(seed),
            vm.quiet == quiet,
    {
        BareVm { state: VmState::new(seed), quiet }
    }

    /// Handles a hypercall.
    fn handle_hypercall(&mut self, regs: &HypercallRegs, mem: &mut [u8]) -> (o: BareOutcome)
        requires
            has_mailbox(old(mem)@),
        ensures
            (outcome_view(o), final(self).state@, final(mem)@) == hypercall(
                old(self).state@,
                old(mem)@,
                *regs,
                old(self).quiet,
            ),
            final(self).quiet == old(self).quiet,
    {
        let mut console: Vec<u8> = Vec::new();
        let x0: u64;
        if regs.x0 == HC_CONSOLE {
            x0 = 0;
            if !self.quiet {
                match gpa_to_host_ptr(regs.x1, regs.x2, GUEST_BASE, mem.len()) {
                    Some(offset) => {
                        console =
                        vstd::slice::slice_to_vec(
                            vstd::slice::slice_subrange(mem, offset, offset + regs.x2 as usize),
                        );
                    },
                    None => {},
                }
            }
        } else if regs.x0 == HC_TIME {
            x0 = self.state.virtual_time_ns;
        } else if regs.x0 == HC_RANDOM {
            x0 = rng_next_u64(&mut self.state.rng);
        } else if regs.x0 == HC_DB_READ {
            let base: usize = MAILBOX_OFFSET as usize;
            let response: &'static [u8] = if regs.x1 <= MAILBOX_SIZE as u64 {
                let request = vstd::slice::slice_subrange(mem, base, base + regs.x1 as usize);
                assert(request@ =~= db_request(mem@, regs.x1));
                db_response(request)
            } else {
                let request = vstd::slice::slice_subrange(mem, 0, 0);
                assert(request@ =~= db_request(mem@, regs.x1));
                db_response(request)
            };
            put_mailbox(mem, response);
            x0 = response.len() as u64;
        } else if regs.x0 == HC_READY {
            return BareOutcome::Stop { hypercall: HC_READY, code: 0 };
        } else if regs.x0 == HC_EXIT {
            return BareOutcome::Stop { hypercall: HC_EXIT, code: regs.x1 };
        } else if regs.x0 == HC_EXCEPTION {
            return BareOutcome::Failed {
                fault: Fault::GuestException {
                    ec: hvf::class_of(regs.x1),
                    esr: regs.x1,
                    far: regs.x2,
                    elr: regs.x3,
                },
            };
        } else {
            x0 = u64::MAX;
        }
        BareOutcome::Resume { x0, console }
    }

    /// Handles the exit that a run of the vCPU ended with. What is reported of
    /// the exit, [`BareVm::report_line`] says.
    pub fn on_exit(&mut self, exit: &HvVcpuExit, regs: &HypercallRegs, mem: &mut [u8]) -> (o:
        BareOutcome)
        requires
            has_mailbox(old(mem)@),
        ensures
            (outcome_view(o), final(self).state@, final(mem)@) == on_exit(
                old(self).state@,
                old(mem)@,
                *exit,
                *regs,
                old(self).quiet,
            ),
            final(self).quiet == old(self).quiet,
    {
        if exit.reason != HV_EXIT_REASON_EXCEPTION {
            return BareOutcome::Failed { fault: Fault::UnexpectedExit { reason: exit.reason } };
        }
        let syndrome: u64 = exit.exception.syndrome;
        let ec: u64 = hvf::class_of(syndrome);
        if ec != 0x16 {
            return BareOutcome::Failed {
                fault: Fault::Exception { ec, syndrome, ipa: exit.exception.physical_address },
            };
        }
        self.handle_hypercall(regs, mem)
    }
}

/// The text of the database request in the mailbox; none if it is not UTF-8.
pub open spec fn request_text(mem: Seq<u8>, len: u64) -> Seq<char> {
    let request = db_request(mem, len);
    if vstd::utf8::valid_utf8(request) {
        vstd::utf8::decode_utf8(request)
    } else {
        Seq::empty()
    }
}

/// The line that reports an exit, if it is reported: a database request, unless
/// the VM is quiet, and a hypercall that nobody knows.
pub open spec fn report(
    mem: Seq<u8>,
    exit: HvVcpuExit,
    regs: HypercallRegs,
    quiet: bool,
) -> Option<Seq<char>> {
    if exit.reason != HV_EXIT_REASON_EXCEPTION || hvf::exception_class(exit.exception.syndrome)
        != 0x16 {
        None
    } else if regs.x0 == HC_DB_READ {
        if quiet {
            None
        } else {
            Some("HC_DB_READ: "@ + text::debug_text(request_text(mem, regs.x1)))
        }
    } else if regs.x0 == HC_CONSOLE || regs.x0 == HC_TIME || regs.x0 == HC_RANDOM || regs.x0
        == HC_READY || regs.x0 == HC_EXIT || regs.x0 == HC_EXCEPTION {
        None
    } else {
        Some("Unknown hypercall 0x"@ + text::hex(regs.x0 as nat))
    }
}

/// The line that reports a database request, from the request as it is shown.
pub fn db_request_line(shown: &str) -> (line: String)
    ensures
        line@ == "HC_DB_READ: "@ + shown@,
{
    String::from_str("HC_DB_READ: ").concat(shown)
}

impl BareVm {
    /// The line to report about an exit, if any. It speaks of guest memory as
    /// the exit found it, before [`BareVm::on_exit`] answers.
    pub fn report_line(&self, exit: &HvVcpuExit, regs: &HypercallRegs, mem: &[u8]) -> (line: Option<
        String,
    >)
        requires
            has_mailbox(mem@),
        ensures
            match line {
                Some(s) => report(mem@, *exit, *regs, self.quiet) == Some(s@),
                None => report(mem@, *exit, *regs, self.quiet) is None,
            },
    {
        if exit.reason != HV_EXIT_REASON_EXCEPTION || hvf::class_of(exit.exception.syndrome)
            != 0x16 {
            return None;
        }
        if regs.x0 == HC_DB_READ {
            if self.quiet {
                return None;
            }
            let base: usize = MAILBOX_OFFSET as usize;
            let request = if regs.x1 <= MAILBOX_SIZE as u64 {
                vstd::slice::slice_subrange(mem, base, base + regs.x1 as usize)
            } else {
                vstd::slice::slice_subrange(mem, 0, 0)
            };
            assert(request@ =~= db_request(mem@, regs.x1));
            let shown = match text::from_utf8(request) {
                Some(s) => text::debug_of(s),
                None => {
                    proof {
                        reveal_strlit("");
                        assert(""@ =~= Seq::<char>::empty());
                    }
                    text::debug_of("")
                },
            };
            return Some(db_request_line(shown.as_str()));
        }
        if regs.x0 == HC_CONSOLE || regs.x0 == HC_TIME || regs.x0 == HC_RANDOM || regs.x0
            == HC_READY || regs.x0 == HC_EXIT || regs.x0 == HC_EXCEPTION {
            return None;
        }
        let mut line = String::from_str("Unknown hypercall 0x");
        text::push_hex(&mut line, regs.x0);
        Some(line)
    }
}

/// Registers that a fault message quotes.
#[derive(Clone, Copy, Debug, PartialEq, Eq, Structural)]
pub struct FaultRegs {
    pub pc: u64,
    pub lr: u64,
    pub sp: u64,
    pub cpacr: u64,
}

/// The message of a fault.
pub open spec fn fault_text(fault: Fault, regs: FaultRegs) -> Seq<char> {
    match fault {
        Fault::Exception { ec, syndrome, ipa } => "Unexpected exception: EC=0x"@ + text::hex(
            ec as nat,
        ) + ", syndrome=0x"@ + text::hex(syndrome as nat) + ", PC=0x"@ + text::hex(regs.pc as nat)
            + ", IPA=0x"@ + text::hex(ipa as nat) + ", LR=0x"@ + text::hex(regs.lr as nat)
            + ", SP=0x"@ + text::hex(regs.sp as nat) + ", CPACR=0x"@ + text::hex(regs.cpacr as nat),
        Fault::GuestException { ec, esr, far, elr } => "Guest EL1 exception: EC=0x"@ + text::hex(
            ec as nat,
        ) + " ESR=0x"@ + text::hex(esr as nat) + " FAR=0x"@ + text::hex(far as nat) + " ELR=0x"@
            + text::hex(elr as nat),
        Fault::UnexpectedExit { reason } => "Unexpected VM exit: reason="@ + text::decimal(
            reason as nat,
        ) + ", PC=0x"@ + text::hex(regs.pc as nat),
    }
}

/// Says what stopped the guest.
pub fn fault_message(fault: &Fault, regs: &FaultRegs) -> (message: String)
    ensures
        message@ == fault_text(*fault, *regs),
{
    match fault {
        Fault::Exception { ec, syndrome, ipa } => {
            let mut m = String::from_str("Unexpected exception: EC=0x");
            text::push_hex(&mut m, *ec);
            m.append(", syndrome=0x");
            text::push_hex(&mut m, *syndrome);
            m.append(", PC=0x");
            text::push_hex(&mut m, regs.pc);
            m.append(", IPA=0x");
            text::push_hex(&mut m, *ipa);
            m.append(", LR=0x");
            text::push_hex(&mut m, regs.lr);
            m.append(", SP=0x");
            text::push_hex(&mut m, regs.sp);
            m.append(", CPACR=0x");
            text::push_hex(&mut m, regs.cpacr);
            m
        },
        Fault::GuestException { ec, esr, far, elr } => {
            let mut m = String::from_str("Guest EL1 exception: EC=0x");
            text::push_hex(&mut m, *ec);
            m.append(" ESR=0x");
            text::push_hex(&mut m, *esr);
            m.append(" FAR=0x");
            text::push_hex(&mut m, *far);
            m.append(" ELR=0x");
            text::push_hex(&mut m, *elr);
            m
        },
        Fault::UnexpectedExit { reason } => {
            let mut m = text::with_decimal("Unexpected VM exit: reason=", *reason as u64);
            m.append(", PC=0x");
            text::push_hex(&mut m, regs.pc);
            m
        },
    }
}

/// The register values that a fresh guest starts with.
pub open spec fn initial_state(entry: u64, mem_size: usize) -> Seq<VcpuAction> {
    seq![
        VcpuAction::SetReg { reg: REG_PC, value: entry },
        VcpuAction::SetReg { reg: REG_CPSR, value: INITIAL_CPSR },
        VcpuAction::SetSysReg { sys_reg: SysReg::SCTLR_EL1, value: INITIAL_SCTLR },
        VcpuAction::SetSysReg { sys_reg: SysReg::CPACR_EL1, value: INITIAL_CPACR },
        VcpuAction::SetSysReg { sys_reg: SysReg::SP_EL1, value: (GUEST_BASE + mem_size) as u64 },
    ]
}

/// Sets up a vCPU over `mem_size` bytes of guest memory: it starts at `entry`,
/// with the stack at the top of memory.
pub fn create_vm_with_memory(mem_size: usize, entry: u64) -> (actions: Vec<VcpuAction>)
    requires
        GUEST_BASE + mem_size <= u64::MAX,
    ensures
        actions@ == initial_state(entry, mem_size),
{
    let mut actions: Vec<VcpuAction> = Vec::new();
    actions.push(VcpuAction::SetReg { reg: REG_PC, value: entry });
    actions.push(VcpuAction::SetReg { reg: REG_CPSR, value: INITIAL_CPSR });
    actions.push(VcpuAction::SetSysReg { sys_reg: SysReg::SCTLR_EL1, value: INITIAL_SCTLR });
    actions.push(VcpuAction::SetSysReg { sys_reg: SysReg::CPACR_EL1, value: INITIAL_CPACR });
    actions.push(
        VcpuAction::SetSysReg { sys_reg: SysReg::SP_EL1, value: GUEST_BASE + mem_size as u64 },
    );
    assert(actions@ =~= initial_state(entry, mem_size));
    actions
}

/// What a fork starts from: template memory with `mailbox_data` in the
/// mailbox, and a VM with the given seed. Data that does not fit is refused,
/// and memory left alone.
fn fork_inner(mem: &mut [u8], seed: u64, mailbox_data: &[u8], quiet: bool) -> (vm: Option<BareVm>)
    requires
        has_mailbox(old(mem)@),
    ensures
        vm is Some <==> mailbox_data@.len() < MAILBOX_SIZE,
        vm matches Some(v) ==> v.state@ == fresh(seed) && v.quiet == quiet,
        final(mem)@ == (if vm is Some {
            with_mailbox(old(mem)@, mailbox_data@)
        } else {
            old(mem)@
        }),
{
    if mailbox_data.len() >= MAILBOX_SIZE {
        return None;
    }
    put_mailbox(mem, mailbox_data);
    Some(BareVm::new(seed, quiet))
}

/// Prepares a fork of a template whose output is shown.
pub fn cmd_fork(mem: &mut [u8], seed: u64, mailbox_data: &[u8]) -> (vm: Option<BareVm>)
    requires
        has_mailbox(old(mem)@),
    ensures
        vm is Some <==> mailbox_data@.len() < MAILBOX_SIZE,
        vm matches Some(v) ==> v.state@ == fresh(seed) && !v.quiet,
        final(mem)@ == (if vm is Some {
            with_mailbox(old(mem)@, mailbox_data@)
        } else {
            old(mem)@
        }),
{
    fork_inner(mem, seed, mailbox_data, false)
}

/// Prepares a fork of a template whose output is suppressed.
pub fn cmd_fork_quiet(mem: &mut [u8], seed: u64, mailbox_data: &[u8]) -> (vm: Option<BareVm>)
    requires
        has_mailbox(old(mem)@),
    ensures
        vm is Some <==> mailbox_data@.len() < MAILBOX_SIZE,
        vm matches Some(v) ==> v.state@ == fresh(seed) && v.quiet,
        final(mem)@ == (if vm is Some {
            with_mailbox(old(mem)@, mailbox_data@)
        } else {
            old(mem)@
        }),
{
    fork_inner(mem, seed, mailbox_data, true)
}

/// The exit code of a forked VM that stopped; `None` if it did not exit
/// cleanly.
pub fn fork_exit_code(hypercall: u64, code: u64) -> (r: Option<u64>)
    ensures
        r == (if hypercall == HC_EXIT {
            Some(code)
        } else {
            None
        }),
{
    if hypercall == HC_EXIT {
        Some(code)
    } else {
        None
    }
}

/// Whether a VM that stopped can be made a template.
pub fn ready_for_snapshot(hypercall: u64) -> (r: bool)
    ensures
        r == (hypercall == HC_READY),
{
    hypercall == HC_READY
}

/// What a direct run reports of the way it ended; `None` of a hypercall that
/// ends no run.
pub fn run_report(hypercall: u64, code: u64) -> (r: Option<String>)
    ensures
        match r {
            Some(s) => if hypercall == HC_EXIT {
                s@ == "\nGuest exited with code "@ + text::decimal(code as nat)
            } else {
                hypercall == HC_READY && s@
                    == "\nGuest reached HC_READY (use 'snapshot' command to save)"@
            },
            None => hypercall != HC_EXIT && hypercall != HC_READY,
        },
{
    if hypercall == HC_EXIT {
        Some(text::with_decimal("\nGuest exited with code ", code))
    } else if hypercall == HC_READY {
        Some(String::from_str("\nGuest reached HC_READY (use 'snapshot' command to save)"))
    } else {
        None
    }
}

// Laws

/// The guest-visible part of an outcome: all but what goes to the console.
pub open spec fn guest_visible(o: OutcomeView) -> OutcomeView {
    match o {
        OutcomeView::Resume { x0, console } => OutcomeView::Resume { x0, console: Seq::empty() },
        _ => o,
    }
}

/// What the guest sees of a series of exits, and the VM state and guest memory
/// after it. The guest's own work between two exits is the function `guest`:
/// from what it was answered and its memory, to its memory, the exit and the
/// registers it stops with next.
pub open spec fn run(
    s: VmView,
    mem: Seq<u8>,
    exit: HvVcpuExit,
    regs: HypercallRegs,
    guest: spec_fn(u64, Seq<u8>) -> (Seq<u8>, HvVcpuExit, HypercallRegs),
    quiet: bool,
    steps: nat,
) -> (OutcomeView, VmView, Seq<u8>)
    decreases steps,
{
    let (o, s1, m1) = on_exit(s, mem, exit, regs, quiet);
    match o {
        OutcomeView::Resume { x0, console } => if steps == 0 {
            (guest_visible(o), s1, m1)
        } else {
            let (m2, e2, r2) = guest(x0, m1);
            run(s1, m2, e2, r2, guest, quiet, (steps - 1) as nat)
        },
        _ => (o, s1, m1),
    }
}

/// Suppressing output changes nothing that the guest can see.
pub proof fn law_quiet_is_invisible(
    s: VmView,
    mem: Seq<u8>,
    exit: HvVcpuExit,
    regs: HypercallRegs,
    guest: spec_fn(u64, Seq<u8>) -> (Seq<u8>, HvVcpuExit, HypercallRegs),
    steps: nat,
)
    ensures
        run(s, mem, exit, regs, guest, true, steps) == run(s, mem, exit, regs, guest, false, steps),
    decreases steps,
{
    let (o, s1, m1) = on_exit(s, mem, exit, regs, true);
    if o is Resume && steps > 0 {
        let (m2, e2, r2) = guest(o->x0, m1);
        law_quiet_is_invisible(s1, m2, e2, r2, guest, (steps - 1) as nat);
    }
}

/// The n-th random number of a VM depends on its seed and on n alone: each
/// draw hands out the next number of the seed's stream, and no other hypercall
/// moves the stream or the clock.
pub proof fn law_random_stream(s: VmView, mem: Seq<u8>, regs: HypercallRegs, quiet: bool)
    ensures
        ({
            let (o, s1, m1) = hypercall(s, mem, regs, quiet);
            &&& s1.seed == s.seed
            &&& s1.time_ns == s.time_ns
            &&& s1.drawn == s.drawn + (if regs.x0 == HC_RANDOM {
                1nat
            } else {
                0
            })
            &&& regs.x0 == HC_RANDOM ==> o == (OutcomeView::Resume {
                x0: rng::chacha8_u64(s.seed, s.drawn),
                console: Seq::empty(),
            })
            &&& regs.x0 == HC_TIME ==> o == (OutcomeView::Resume {
                x0: s.time_ns,
                console: Seq::empty(),
            })
        }),
{
}

/// Different 64-bit seeds are different seeds of the generator.
pub proof fn law_seeds_differ(a: u64, b: u64)
    ensures
        full_seed(a) == full_seed(b) <==> a == b,
        full_seed(a).len() == 32,
{
    bytes::lemma_le_bytes_len(a as nat, 8);
    bytes::lemma_le_bytes_len(b as nat, 8);
    bytes::lemma_pow256_values();
    bytes::lemma_le_round_trip(a as nat, 8);
    bytes::lemma_le_round_trip(b as nat, 8);
    assert(full_seed(a).take(8) =~= bytes::le_bytes(a as nat, 8));
    assert(full_seed(b).take(8) =~= bytes::le_bytes(b as nat, 8));
}

/// What the host puts in the mailbox of a fork, the guest finds there, as long
/// as it holds no NUL.
pub proof fn law_mailbox_round_trip(mem: Seq<u8>, data: Seq<u8>)
    requires
        has_mailbox(mem),
        data.len() < MAILBOX_SIZE,
        bytes::nul_free(data),
    ensures
        bytes::until_nul(mailbox(with_mailbox(mem, data))) == data,
{
    let m = mailbox(with_mailbox(mem, data));
    assert forall|i: int| 0 <= i < data.len() implies m[i] != 0 by {
        assert(m[i] == data[i]);
    }
    bytes::lemma_until_nul(m, data.len() as int);
    assert(m.take(data.len() as int) =~= data);
}

/// Memory outside the mailbox is not touched by any hypercall.
pub proof fn law_hypercalls_write_the_mailbox_only(
    s: VmView,
    mem: Seq<u8>,
    regs: HypercallRegs,
    quiet: bool,
    i: int,
)
    requires
        has_mailbox(mem),
        0 <= i < mem.len(),
        i < MAILBOX_OFFSET || i >= MAILBOX_OFFSET + MAILBOX_SIZE,
    ensures
        hypercall(s, mem, regs, quiet).2[i] == mem[i],
        hypercall(s, mem, regs, quiet).2.len() == mem.len(),
{
    reveal_strlit("[]");
    reveal_strlit("[{\"id\":1,\"name\":\"Alice\"},{\"id\":2,\"name\":\"Bob\"}]");
    reveal_strlit("[{\"id\":1,\"title\":\"Hello World\",\"author\":\"Alice\"}]");
}

/// A database request that the guest puts in its mailbox is answered there,
/// followed by a NUL, with the answer's length in x0.
pub proof fn law_db_query(s: VmView, mem: Seq<u8>, name: Seq<u8>, quiet: bool)
    requires
        has_mailbox(mem),
        name.len() < MAILBOX_SIZE,
    ensures
        ({
            let regs = HypercallRegs { x0: HC_DB_READ, x1: name.len() as u64, x2: 0, x3: 0 };
            let (o, s1, m1) = hypercall(s, with_mailbox(mem, name), regs, quiet);
            &&& o == (OutcomeView::Resume {
                x0: db_answer(name).len() as u64,
                console: Seq::empty(),
            })
            &&& mailbox(m1).take(db_answer(name).len() as int) == db_answer(name)
            &&& mailbox(m1)[db_answer(name).len() as int] == 0
        }),
{
    reveal_strlit("[]");
    reveal_strlit("[{\"id\":1,\"name\":\"Alice\"},{\"id\":2,\"name\":\"Bob\"}]");
    reveal_strlit("[{\"id\":1,\"title\":\"Hello World\",\"author\":\"Alice\"}]");
    let m0 = with_mailbox(mem, name);
    assert(db_request(m0, name.len() as u64) =~= name);
    let a = db_answer(name);
    assert(mailbox(with_mailbox(m0, a)).take(a.len() as int) =~= a);
}

/// What each hypercall does, by its number: 0x01 prints, 0x02 tells the time,
/// 0x03 draws a random number, 0x10 queries the database, 0xFE and 0xFF end the
/// run, 0xDE reports an exception of the guest's own, and any other number is
/// answered with -1 and does nothing.
pub proof fn law_hypercalls_by_number(s: VmView, mem: Seq<u8>, regs: HypercallRegs, quiet: bool)
    ensures
        ({
            let (o, s1, m1) = hypercall(s, mem, regs, quiet);
            let n = regs.x0;
            &&& n == 0x01 ==> o is Resume && o->x0 == 0
            &&& n == 0x02 ==> o is Resume && o->x0 == s.time_ns
            &&& n == 0x03 ==> o is Resume && o->x0 == rng::chacha8_u64(s.seed, s.drawn) && s1.drawn
                == s.drawn + 1
            &&& n == 0x10 ==> o is Resume
            &&& n == 0xFE ==> o == (OutcomeView::Stop { hypercall: 0xFE, code: 0 })
            &&& n == 0xFF ==> o == (OutcomeView::Stop { hypercall: 0xFF, code: regs.x1 })
            &&& n == 0xDE ==> o == (OutcomeView::Failed {
                fault: Fault::GuestException {
                    ec: ((regs.x1 / 0x400_0000) % 64) as u64,
                    esr: regs.x1,
                    far: regs.x2,
                    elr: regs.x3,
                },
            })
            &&& n != 0x01 && n != 0x02 && n != 0x03 && n != 0x10 && n != 0xFE && n != 0xFF && n
                != 0xDE ==> o is Resume && o->x0 == 0xFFFF_FFFF_FFFF_FFFF
            &&& n != 0x03 ==> s1 == s
            &&& n != 0x10 ==> m1 == mem
            &&& o is Resume && n != 0x01 ==> o->console.len() == 0
        }),
{
}

/// Printing puts on the console exactly the bytes that the guest names, `len`
/// of them at address `gpa`, if all of them lie in its memory, which begins at
/// 0x4000_0000; otherwise, and in a quiet VM, nothing is printed.
pub proof fn law_console_prints_guest_memory(
    s: VmView,
    mem: Seq<u8>,
    gpa: u64,
    len: u64,
    x3: u64,
    i: int,
)
    requires
        0 <= i < len,
    ensures
        ({
            let regs = HypercallRegs { x0: 0x01, x1: gpa, x2: len, x3 };
            let shown = hypercall(s, mem, regs, false).0->console;
            let silent = hypercall(s, mem, regs, true).0->console;
            let inside = 0x4000_0000 <= gpa && gpa + len <= 0x4000_0000 + mem.len();
            &&& inside ==> shown.len() == len && shown[i] == mem[gpa - 0x4000_0000 + i]
            &&& !inside ==> shown.len() == 0
            &&& silent.len() == 0
        }),
{
}

/// Only an HVC is a hypercall: any other exception, and any exit that is none,
/// ends the guest, with what the hypervisor said of it, and changes nothing.
pub proof fn law_only_hvc_is_a_hypercall(
    s: VmView,
    mem: Seq<u8>,
    exit: HvVcpuExit,
    regs: HypercallRegs,
    quiet: bool,
)
    ensures
        ({
            let class = (exit.exception.syndrome / 0x400_0000) % 64;
            let r = on_exit(s, mem, exit, regs, quiet);
            &&& exit.reason == 1 && class == 0x16 ==> r == hypercall(s, mem, regs, quiet)
            &&& exit.reason != 1 ==> r.0 == (OutcomeView::Failed {
                fault: Fault::UnexpectedExit { reason: exit.reason },
            }) && r.1 == s && r.2 == mem
            &&& exit.reason == 1 && class != 0x16 ==> r.0 == (OutcomeView::Failed {
                fault: Fault::Exception {
                    ec: class as u64,
                    syndrome: exit.exception.syndrome,
                    ipa: exit.exception.physical_address,
                },
            }) && r.1 == s && r.2 == mem
        }),
{
}

/// Every VM starts at the same time and at the beginning of its seed's stream.
/// The generator's seed is the number's eight little-endian bytes and zeros.
pub proof fn law_fresh_vm(seed: u64, k: int)
    requires
        0 <= k < 32,
    ensures
        fresh(seed).time_ns == 1_700_000_000_000_000_000,
        fresh(seed).drawn == 0,
        fresh(seed).seed == full_seed(seed),
        full_seed(seed).len() == 32,
        k < 8 ==> full_seed(seed)[k] == (seed as nat / bytes::pow256(k as nat)) % 256,
        k >= 8 ==> full_seed(seed)[k] == 0,
{
    bytes::lemma_le_bytes_len(seed as nat, 8);
    if k < 8 {
        bytes::law_bytes_are_digits(seed as nat, 8, k);
    }
}

/// A guest starts at its entry point, at EL1 on its own stack pointer with
/// interrupts masked, MMU and caches off and floating point not trapped, with
/// its stack at the end of its memory.
pub proof fn law_guest_start(entry: u64, mem_size: usize, reg: u32, before: u64)
    requires
        GUEST_BASE + mem_size <= u64::MAX,
    ensures
        ({
            let acts = initial_state(entry, mem_size);
            let cpsr = vcpu::reg_after(acts, 34, before);
            let sctlr = vcpu::sys_reg_after(acts, SysReg::SCTLR_EL1, before);
            &&& vcpu::reg_after(acts, 31, before) == entry
            &&& cpsr % 32 == 0b0101
            &&& (cpsr / 64) % 16 == 0b1111
            &&& cpsr < 1024 && (cpsr / 32) % 2 == 0
            &&& sctlr == 0x30d0_0800
            &&& sctlr % 2 == 0 && (sctlr / 4) % 2 == 0 && (sctlr / 0x1000) % 2 == 0
            &&& vcpu::sys_reg_after(acts, SysReg::CPACR_EL1, before) == 3 * 0x10_0000
            &&& vcpu::sys_reg_after(acts, SysReg::SP_EL1, before) == 0x4000_0000 + mem_size
            &&& reg != 31 && reg != 34 ==> vcpu::reg_after(acts, reg, before) == before
        }),
{
    let a5 = initial_state(entry, mem_size);
    let a4 = a5.drop_last();
    let a3 = a4.drop_last();
    let a2 = a3.drop_last();
    let a1 = a2.drop_last();
    assert(a1.drop_last().len() == 0);
    reveal_with_fuel(vcpu::reg_after, 6);
    reveal_with_fuel(vcpu::sys_reg_after, 6);
}

/// The simulated database knows two collections; any other is empty.
pub proof fn law_database_contents(request: Seq<u8>)
    ensures
        db_answer(bytes::ascii_bytes("users"@)) == bytes::ascii_bytes(
            "[{\"id\":1,\"name\":\"Alice\"},{\"id\":2,\"name\":\"Bob\"}]"@,
        ),
        db_answer(bytes::ascii_bytes("posts"@)) == bytes::ascii_bytes(
            "[{\"id\":1,\"title\":\"Hello World\",\"author\":\"Alice\"}]"@,
        ),
        request != bytes::ascii_bytes("users"@) && request != bytes::ascii_bytes("posts"@)
            ==> db_answer(request) == bytes::ascii_bytes("[]"@),
{
    reveal_strlit("users");
    reveal_strlit("posts");
    assert(bytes::ascii_bytes("users"@)[0] != bytes::ascii_bytes("posts"@)[0]);
}

/// The mailbox is the 64 KiB at 1 MiB: data put there begins at its first byte,
/// is followed by a NUL, and leaves all other memory alone.
pub proof fn law_where_the_mailbox_is(mem: Seq<u8>, data: Seq<u8>, i: int)
    requires
        mem.len() >= 0x11_0000,
        data.len() < 0x1_0000,
        0 <= i < mem.len(),
    ensures
        has_mailbox(mem),
        ({
            let m = with_mailbox(mem, data);
            &&& m.len() == mem.len()
            &&& m.subrange(0x10_0000, 0x10_0000int + data.len()) == data
            &&& m[0x10_0000 + data.len() as int] == 0
            &&& i < 0x10_0000 || i > 0x10_0000 + data.len() ==> m[i] == mem[i]
            &&& mailbox(m).len() == 0x1_0000
            &&& 0x10_0000 <= i < 0x11_0000 ==> mailbox(m)[i - 0x10_0000] == m[i]
        }),
{
    let m = with_mailbox(mem, data);
    assert(m.subrange(0x10_0000, 0x10_0000int + data.len()) =~= data);
}

/// An access lies in a region exactly if its first byte and its last lie in it,
/// and its place there is its distance from the region's base.
pub proof fn law_region_bounds(gpa: u64, len: u64, guest_base: u64, region_size: int)
    ensures
        region_offset(gpa, len, guest_base, region_size) is Some <==> guest_base <= gpa && gpa + len
            <= guest_base + region_size,
        region_offset(gpa, len, guest_base, region_size) matches Some(o) ==> guest_base + o == gpa,
{
}

/// What is reported of an exit: a database request unless the VM is quiet, a
/// hypercall without a meaning always, and nothing else.
pub proof fn law_what_is_reported(mem: Seq<u8>, exit: HvVcpuExit, regs: HypercallRegs, quiet: bool)
    ensures
        ({
            let r = report(mem, exit, regs, quiet);
            let n = regs.x0;
            let hvc = exit.reason == 1 && (exit.exception.syndrome / 0x400_0000) % 64 == 0x16;
            let known = n == 0x01 || n == 0x02 || n == 0x03 || n == 0x10 || n == 0xFE || n == 0xFF
                || n == 0xDE;
            &&& r is Some <==> hvc && (!known || (n == 0x10 && !quiet))
            &&& hvc && !known ==> r == Some("Unknown hypercall 0x"@ + text::hex(n as nat))
        }),
{
}

/// The message of a fault says which fault it is and every number that is known
/// about it, each behind its label.
pub proof fn law_fault_messages_say_everything(fault: Fault, regs: FaultRegs)
    ensures
        ({
            let t = fault_text(fault, regs);
            match fault {
                Fault::Exception { ec, syndrome, ipa } => {
                    &&& text::says(t, "Unexpected exception: EC=0x"@, text::hex(ec as nat))
                    &&& text::says(t, ", syndrome=0x"@, text::hex(syndrome as nat))
                    &&& text::says(t, ", PC=0x"@, text::hex(regs.pc as nat))
                    &&& text::says(t, ", IPA=0x"@, text::hex(ipa as nat))
                    &&& text::says(t, ", LR=0x"@, text::hex(regs.lr as nat))
                    &&& text::says(t, ", SP=0x"@, text::hex(regs.sp as nat))
                    &&& text::says(t, ", CPACR=0x"@, text::hex(regs.cpacr as nat))
                },
                Fault::GuestException { ec, esr, far, elr } => {
                    &&& text::says(t, "Guest EL1 exception: EC=0x"@, text::hex(ec as nat))
                    &&& text::says(t, " ESR=0x"@, text::hex(esr as nat))
                    &&& text::says(t, " FAR=0x"@, text::hex(far as nat))
                    &&& text::says(t, " ELR=0x"@, text::hex(elr as nat))
                },
                Fault::UnexpectedExit { reason } => {
                    &&& text::says(
                        t,
                        "Unexpected VM exit: reason="@,
                        text::decimal(reason as nat),
                    )
                    &&& text::says(t, ", PC=0x"@, text::hex(regs.pc as nat))
                },
            }
        }),
{
    let t = fault_text(fault, regs);
    let none = Seq::<char>::empty();
    match fault {
        Fault::Exception { ec, syndrome, ipa } => {
            let p0 = "Unexpected exception: EC=0x"@;
            let p1 = ", syndrome=0x"@;
            let p2 = ", PC=0x"@;
            let p3 = ", IPA=0x"@;
            let p4 = ", LR=0x"@;
            let p5 = ", SP=0x"@;
            let p6 = ", CPACR=0x"@;
            let h0 = text::hex(ec as nat);
            let h1 = text::hex(syndrome as nat);
            let h2 = text::hex(regs.pc as nat);
            let h3 = text::hex(ipa as nat);
            let h4 = text::hex(regs.lr as nat);
            let h5 = text::hex(regs.sp as nat);
            let h6 = text::hex(regs.cpacr as nat);
            text::lemma_says(
                t,
                none,
                p0,
                h0,
                p1 + h1 + p2 + h2 + p3 + h3 + p4 + h4 + p5 + h5 + p6 + h6,
            );
            text::lemma_says(t, p0 + h0, p1, h1, p2 + h2 + p3 + h3 + p4 + h4 + p5 + h5 + p6 + h6);
            let a2 = p0 + h0 + p1 + h1;
            text::lemma_says(t, a2, p2, h2, p3 + h3 + p4 + h4 + p5 + h5 + p6 + h6);
            let a3 = a2 + p2 + h2;
            text::lemma_says(t, a3, p3, h3, p4 + h4 + p5 + h5 + p6 + h6);
            let a4 = a3 + p3 + h3;
            text::lemma_says(t, a4, p4, h4, p5 + h5 + p6 + h6);
            let a5 = a4 + p4 + h4;
            text::lemma_says(t, a5, p5, h5, p6 + h6);
            text::lemma_says(t, a5 + p5 + h5, p6, h6, none);
        },
        Fault::GuestException { ec, esr, far, elr } => {
            let p0 = "Guest EL1 exception: EC=0x"@;
            let p1 = " ESR=0x"@;
            let p2 = " FAR=0x"@;
            let p3 = " ELR=0x"@;
            let h0 = text::hex(ec as nat);
            let h1 = text::hex(esr as nat);
            let h2 = text::hex(far as nat);
            let h3 = text::hex(elr as nat);
            text::lemma_says(t, none, p0, h0, p1 + h1 + p2 + h2 + p3 + h3);
            text::lemma_says(t, p0 + h0, p1, h1, p2 + h2 + p3 + h3);
            text::lemma_says(t, p0 + h0 + p1 + h1, p2, h2, p3 + h3);
            text::lemma_says(t, p0 + h0 + p1 + h1 + p2 + h2, p3, h3, none);
        },
        Fault::UnexpectedExit { reason } => {
            let p0 = "Unexpected VM exit: reason="@;
            let p1 = ", PC=0x"@;
            let h0 = text::decimal(reason as nat);
            let h1 = text::hex(regs.pc as nat);
            text::lemma_says(t, none, p0, h0, p1 + h1);
            text::lemma_says(t, p0 + h0, p1, h1, none);
        },
    }
}

/// A database request is the first `len` bytes of the mailbox, up to all of its
/// 64 KiB; one that claims to be longer is none.
pub proof fn law_database_requests(mem: Seq<u8>, len: u64, i: int)
    requires
        mem.len() >= 0x11_0000,
    ensures
        len <= 0x1_0000 ==> db_request(mem, len).len() == len,
        0 <= i < len <= 0x1_0000 ==> db_request(mem, len)[i] == mem[0x10_0000 + i],
        len > 0x1_0000 ==> db_request(mem, len).len() == 0,
{
}

} // verus!
