//! The Linux commands: what they decide between their system calls.
//!
//! `snapshot-linux` boots a VM until its init is ready and saves it as a
//! template; `fork-linux` and `serve-linux` resume copies of a template, each
//! with a message in its inbox.

use crate::dtb::UART_BASE;
use crate::layout::{
    GUEST_RAM_BASE, GUEST_RAM_SIZE, KERNEL_OFFSET, LINUX_INBOX_SIZE, LINUX_SHARED_SIZE,
};
use crate::linux_boot;
use crate::linux_boot::{fork_report, needs_guest_debug, patch_mode, snapshot_verdict, timer_mark};
use crate::linux_loop;
use crate::linux_loop::{LinuxVcpuLoop, VmExitReason};
use crate::mailbox;
use crate::mailbox::{printed_outbox, read_outbox, write_inbox};
use crate::pl011::Pl011;
use crate::registers::SysReg;
use crate::snapshot;
use crate::snapshot::{CpuState, RestoreStep, Template};
use crate::text;
use crate::timer_patch;
use crate::timer_patch::{patch_timer_reads, TimerPatchMode};
use crate::vcpu::Backend;
use vstd::prelude::*;

verus! {

/// MPIDR of the one vCPU.
pub const CPU_0_MPIDR: u64 = 0x8000_0000;

/// What a template directory holds besides the memory images.
pub struct SnapshotFiles {
    /// How many timer instructions were patched in guest memory, if the
    /// hardware does not trap them.
    pub patched: Option<usize>,
    /// `cpu.state`
    pub cpu_state: Vec<u8>,
    /// `meta.txt`
    pub meta: String,
    /// `timer_patched`
    pub timer_patched: &'static str,
}

/// How the kernel of a snapshot is patched.
pub open spec fn mode_of(backend: Backend, has_timer_trapping: bool) -> Option<TimerPatchMode> {
    if has_timer_trapping {
        None
    } else if backend is Hvf {
        Some(TimerPatchMode::Hvc)
    } else {
        Some(TimerPatchMode::Brk)
    }
}

/// Guest memory as a template keeps it.
pub open spec fn template_memory(
    mem: Seq<u8>,
    kernel_file_size: usize,
    mode: Option<TimerPatchMode>,
) -> Seq<u8> {
    match mode {
        Some(m) => timer_patch::patched_image(
            mem,
            KERNEL_OFFSET as int,
            kernel_file_size as int,
            m,
        ),
        None => mem,
    }
}

/// Finishes `snapshot-linux` on a VM whose run ended for `reason`: if its init
/// signaled READY, patches the timer accesses in guest memory where the
/// hardware does not trap them, and gives the template's files. Otherwise says
/// why there is no template.
pub fn cmd_snapshot_linux(
    reason: &VmExitReason,
    mem: &mut [u8],
    kernel_file_size: usize,
    backend: Backend,
    has_timer_trapping: bool,
    cpu_state: CpuState,
    mem_path: String,
) -> (r: Result<SnapshotFiles, String>)
    requires
        old(mem)@.len() == GUEST_RAM_SIZE,
        KERNEL_OFFSET + kernel_file_size < GUEST_RAM_SIZE,
    ensures
        r is Ok <==> *reason is Ready,
        r matches Err(line) ==> final(mem)@ == old(mem)@ && line@ == (match *reason {
            VmExitReason::Exit(code) => "VM exited with code "@ + text::decimal(code as nat)
                + " before READY"@,
            VmExitReason::Error(e) => "VM error before READY: "@ + e@,
            _ => "VM halted before signaling READY"@,
        }),
        r matches Ok(files) ==> {
            let mode = mode_of(backend, has_timer_trapping);
            &&& final(mem)@ == template_memory(old(mem)@, kernel_file_size, mode)
            &&& files.patched is Some <==> mode is Some
            &&& files.patched matches Some(n) ==> n == timer_patch::timer_insn_count(
                old(mem)@,
                KERNEL_OFFSET as int,
                timer_patch::code_words(kernel_file_size as int),
            )
            &&& files.cpu_state@ == snapshot::encoded(cpu_state@)
            &&& files.meta@ == snapshot::meta_text(GUEST_RAM_SIZE as nat, GUEST_RAM_BASE as nat)
            &&& files.timer_patched@ == linux_boot::mark_text(!has_timer_trapping)
        },
{
    match snapshot_verdict(reason) {
        Err(line) => {
            return Err(line);
        },
        Ok(()) => {},
    }
    let patched: Option<usize> = match patch_mode(backend, has_timer_trapping) {
        Some(mode) => Some(patch_timer_reads(mem, KERNEL_OFFSET, kernel_file_size, mode)),
        None => None,
    };
    let template = Template::new(cpu_state, mem_path, GUEST_RAM_SIZE, GUEST_RAM_BASE);
    let (cpu_state, meta) = template.save();
    Ok(SnapshotFiles { patched, cpu_state, meta, timer_patched: timer_mark(!has_timer_trapping) })
}

/// A template that is ready to be forked.
pub struct LoadedTemplate {
    pub template: Template,
    /// Guest debug must be enabled before a fork runs.
    pub guest_debug: bool,
}

/// The files of a template hold all registers and readable metadata.
pub open spec fn is_template(state_data: Seq<u8>, meta: Seq<char>) -> bool {
    &&& snapshot::complete(state_data)
    &&& snapshot::announced(state_data) >= 38
    &&& snapshot::meta_values(meta, (0, 0)) is Some
}

impl LoadedTemplate {
    /// All system registers are there.
    pub open spec fn wf(self) -> bool {
        self.template.cpu_state.sys_regs@.len() >= 38
    }

    /// Reads the files of a template; `None` if they are damaged.
    pub fn load(state_data: &[u8], meta: &str, mark: &str, mem_path: String) -> (r: Option<Self>)
        ensures
            r is Some <==> is_template(state_data@, meta@),
            r matches Some(t) ==> {
                &&& t.wf()
                &&& t.template.cpu_state@ == snapshot::decoded(state_data@)
                &&& t.template.mem_path == mem_path
                &&& snapshot::meta_values(meta@, (0, 0)) == Some(
                    (t.template.mem_size as nat, t.template.guest_base as nat),
                )
                &&& t.guest_debug == linux_boot::wants_debug(mark@)
            },
    {
        match Template::load(state_data, meta, mem_path) {
            None => None,
            Some(template) => {
                let ghost regs = template.cpu_state@.sys_regs;
                assert(regs.len() == snapshot::announced(state_data@));
                if template.cpu_state.sys_regs.len() < 38 {
                    return None;
                }
                Some(LoadedTemplate { template, guest_debug: needs_guest_debug(mark) })
            },
        }
    }
}

/// The register writes that start a fork: CPU 0, then the template's state.
pub open spec fn fork_steps(s: CpuState) -> Seq<RestoreStep> {
    seq![RestoreStep::Sys { sys_reg: SysReg::MPIDR_EL1, value: CPU_0_MPIDR }]
        + snapshot::restore_steps(s)
}

/// Prepares a fork of a template: puts the message in the inbox of its shared
/// region, and gives the register writes that start it. A message that does
/// not fit is refused.
pub fn cmd_fork_linux(t: &LoadedTemplate, inbox_data: &[u8], shared: &mut [u8]) -> (r: Option<
    Vec<RestoreStep>,
>)
    requires
        t.wf(),
        old(shared)@.len() == LINUX_SHARED_SIZE,
    ensures
        match r {
            Some(steps) => {
                &&& inbox_data@.len() < LINUX_INBOX_SIZE
                &&& steps@ == fork_steps(t.template.cpu_state)
                &&& final(shared)@ == mailbox::with_inbox(old(shared)@, inbox_data@)
            },
            None => inbox_data@.len() >= LINUX_INBOX_SIZE && final(shared)@ == old(shared)@,
        },
{
    if !write_inbox(shared, inbox_data) {
        return None;
    }
    let mut steps: Vec<RestoreStep> = Vec::new();
    steps.push(RestoreStep::Sys { sys_reg: SysReg::MPIDR_EL1, value: CPU_0_MPIDR });
    let mut rest = t.template.cpu_state.restore();
    steps.append(&mut rest);
    assert(steps@ =~= fork_steps(t.template.cpu_state));
    Some(steps)
}

/// What is printed of an outbox: its text, on lines of its own.
pub open spec fn outbox_output(out: Seq<u8>) -> Seq<u8> {
    if out.len() > 0 && out.last() != 10 {
        out.push(10)
    } else {
        out
    }
}

/// What a finished fork shows: a report if it did not end as it should, and
/// what it left in the outbox.
pub fn fork_output(reason: &VmExitReason, shared: &[u8]) -> (r: (Option<String>, Vec<u8>))
    requires
        shared@.len() == LINUX_SHARED_SIZE,
    ensures
        r.0 is None <==> (*reason is SystemOff || *reason == VmExitReason::Exit(0)),
        r.0 matches Some(l) ==> l@ == (match *reason {
            VmExitReason::Exit(code) => "VM exited with code "@ + text::decimal(code as nat),
            VmExitReason::Error(e) => "VM error: "@ + e@,
            _ => "Unexpected HC_READY in forked VM"@,
        }),
        r.1@ == outbox_output(mailbox::outbox_text(shared@)),
{
    (fork_report(reason), printed_outbox(read_outbox(shared)))
}

/// What serve mode reads next.
pub enum ServeInput {
    /// A line of code, without its line ending.
    Line(Vec<u8>),
    /// Standard input failed or ended.
    Closed,
}

/// What serve mode does next.
pub enum ServeStep {
    /// An empty line: read on.
    Skip,
    /// Run a fork that starts with these register writes.
    Run { steps: Vec<RestoreStep> },
    /// Leave; in failure if the line does not fit the inbox.
    Stop { too_large: bool },
}

impl View for ServeInput {
    type V = Option<Seq<u8>>;

    /// The line; `None` if there is none.
    open spec fn view(&self) -> Option<Seq<u8>> {
        match self {
            ServeInput::Line(line) => Some(line@),
            ServeInput::Closed => None,
        }
    }
}

/// [`ServeStep`] as contracts speak of it.
#[verifier::ext_equal]
pub enum ServeStepView {
    Skip,
    Run { steps: Seq<RestoreStep> },
    Stop { too_large: bool },
}

impl View for ServeStep {
    type V = ServeStepView;

    open spec fn view(&self) -> ServeStepView {
        match self {
            ServeStep::Skip => ServeStepView::Skip,
            ServeStep::Run { steps } => ServeStepView::Run { steps: steps@ },
            ServeStep::Stop { too_large } => ServeStepView::Stop { too_large: *too_large },
        }
    }
}

/// What serve mode does about `input`, and the shared region afterwards: an
/// empty line is passed over, a line that fits is put in the inbox and run, and
/// anything else ends it.
pub open spec fn serve_step(s: CpuState, input: Option<Seq<u8>>, shared: Seq<u8>) -> (
    ServeStepView,
    Seq<u8>,
) {
    match input {
        None => (ServeStepView::Stop { too_large: false }, shared),
        Some(line) => if line.len() == 0 {
            (ServeStepView::Skip, shared)
        } else if line.len() >= LINUX_INBOX_SIZE {
            (ServeStepView::Stop { too_large: true }, shared)
        } else {
            (ServeStepView::Run { steps: fork_steps(s) }, mailbox::with_inbox(shared, line))
        },
    }
}

/// Handles what serve mode has read. The shared region is a fresh one for each
/// line.
pub fn cmd_serve_linux(t: &LoadedTemplate, input: &ServeInput, shared: &mut [u8]) -> (step:
    ServeStep)
    requires
        t.wf(),
        old(shared)@.len() == LINUX_SHARED_SIZE,
    ensures
        (step@, final(shared)@) == serve_step(t.template.cpu_state, input@, old(shared)@),
{
    match input {
        ServeInput::Closed => ServeStep::Stop { too_large: false },
        ServeInput::Line(line) => {
            if line.len() == 0 {
                return ServeStep::Skip;
            }
            match cmd_fork_linux(t, line.as_slice(), shared) {
                Some(steps) => ServeStep::Run { steps },
                None => ServeStep::Stop { too_large: true },
            }
        },
    }
}

/// How often the watchdog of a run of `duration_secs` forces an exit: ten
/// times a second, or a thousand times for a fork that must not wait.
pub fn watchdog_ticks(duration_secs: u32, fast: bool) -> (n: u64)
    ensures
        n == duration_secs * (if fast {
            1000int
        } else {
            10
        }),
{
    if fast {
        duration_secs as u64 * 1000
    } else {
        duration_secs as u64 * 10
    }
}

// Laws

/// A fork starts where the snapshot was taken: from the files that
/// `snapshot-linux` writes, `fork-linux` gets the same registers, memory size
/// and guest base, and enables guest debug exactly if the kernel was patched.
pub proof fn law_snapshot_then_fork(c: snapshot::CpuView, has_timer_trapping: bool)
    requires
        snapshot::state_wf(c),
        c.sys_regs.len() == 38,
    ensures
        ({
            let data = snapshot::encoded(c);
            let meta = snapshot::meta_text(GUEST_RAM_SIZE as nat, GUEST_RAM_BASE as nat);
            &&& is_template(data, meta)
            &&& snapshot::decoded(data) == c
            &&& snapshot::meta_values(meta, (0, 0)) == Some(
                (GUEST_RAM_SIZE as nat, GUEST_RAM_BASE as nat),
            )
            &&& linux_boot::wants_debug(linux_boot::mark_text(!has_timer_trapping))
                <==> !has_timer_trapping
        }),
{
    let data = snapshot::encoded(c);
    snapshot::law_cpu_state_round_trip(c);
    snapshot::law_meta_round_trip(GUEST_RAM_SIZE as nat, GUEST_RAM_BASE as nat);
    linux_boot::law_timer_mark_round_trip(!has_timer_trapping);
    assert(snapshot::decoded(data).sys_regs.len() == snapshot::announced(data));
}

/// What a VM is given when serve mode starts it.
#[verifier::ext_equal]
pub struct VmStart {
    /// The memory image that the VM gets a copy of, its size, and where the
    /// guest finds it.
    pub mem_path: Seq<char>,
    pub mem_size: usize,
    pub guest_base: u64,
    /// Guest debug is enabled.
    pub guest_debug: bool,
    /// The register writes, in order.
    pub steps: Seq<RestoreStep>,
    /// The shared region.
    pub shared: Seq<u8>,
    /// The devices: the UART and the virtual timer.
    pub devices: LinuxVcpuLoop,
}

/// A shared region that nothing has been written to.
pub open spec fn fresh_region() -> Seq<u8> {
    Seq::new(LINUX_SHARED_SIZE as nat, |i: int| 0u8)
}

/// The start of a VM from the template `t` with the given registers and shared
/// region.
pub open spec fn vm_start(
    t: LoadedTemplate,
    backend: Backend,
    steps: Seq<RestoreStep>,
    shared: Seq<u8>,
) -> VmStart {
    VmStart {
        mem_path: t.template.mem_path@,
        mem_size: t.template.mem_size,
        guest_base: t.template.guest_base,
        guest_debug: t.guest_debug,
        steps,
        shared,
        devices: linux_loop::fresh_loop(backend, Pl011 { base_addr: UART_BASE, size: 0x1000 }),
    }
}

/// What the line `line`, and it alone, asks for: a VM at the template's
/// registers, whose shared region holds the line and is zero otherwise.
pub open spec fn start_of(t: LoadedTemplate, backend: Backend, line: Seq<u8>) -> VmStart {
    vm_start(
        t,
        backend,
        fork_steps(t.template.cpu_state),
        Seq::new(
            LINUX_SHARED_SIZE as nat,
            |i: int|
                if i < line.len() {
                    line[i]
                } else {
                    0u8
                },
        ),
    )
}

/// One turn of serve mode: what it read, and, if it ran a VM, the shared region
/// as that VM left it, which may be anything.
#[verifier::ext_equal]
pub struct ServeTurn {
    pub input: Option<Seq<u8>>,
    pub left: Seq<u8>,
}

/// What serve mode has done: the VMs that it started and what it printed, each
/// in order, and whether it has ended.
#[verifier::ext_equal]
pub struct ServeLog {
    pub started: Seq<VmStart>,
    pub printed: Seq<u8>,
    pub ended: bool,
}

/// Serve mode over `turns`, with a fresh shared region for each.
pub open spec fn serve_log(t: LoadedTemplate, backend: Backend, turns: Seq<ServeTurn>) -> ServeLog
    decreases turns.len(),
{
    if turns.len() == 0 {
        ServeLog { started: Seq::empty(), printed: Seq::empty(), ended: false }
    } else {
        let before = serve_log(t, backend, turns.drop_last());
        let turn = turns.last();
        let (step, shared) = serve_step(t.template.cpu_state, turn.input, fresh_region());
        if before.ended {
            before
        } else {
            match step {
                ServeStepView::Skip => before,
                ServeStepView::Run { steps } => ServeLog {
                    started: before.started.push(vm_start(t, backend, steps, shared)),
                    printed: before.printed + outbox_output(mailbox::outbox_text(turn.left)),
                    ended: false,
                },
                ServeStepView::Stop { too_large } => ServeLog { ended: true, ..before },
            }
        }
    }
}

/// The turns that read a line that is not empty.
pub open spec fn requests(turns: Seq<ServeTurn>) -> Seq<ServeTurn> {
    turns.filter(|turn: ServeTurn| turn.input != Some(Seq::<u8>::empty()))
}

/// What is printed of the VMs of `turns`, one behind the other.
pub open spec fn outputs(turns: Seq<ServeTurn>) -> Seq<u8>
    decreases turns.len(),
{
    if turns.len() == 0 {
        Seq::empty()
    } else {
        outputs(turns.drop_last()) + outbox_output(mailbox::outbox_text(turns.last().left))
    }
}

/// Every turn read a line that fits the inbox.
pub open spec fn lines_fit(turns: Seq<ServeTurn>) -> bool {
    forall|i: int|
        0 <= i < turns.len() ==> ((#[trigger] turns[i]).input matches Some(line) && line.len()
            < LINUX_INBOX_SIZE)
}

/// Serve mode runs each line that is not empty once and in order, each in a VM
/// of its own that is given what its own line asks for: the template's memory
/// and registers, a new timer, and a zeroed shared region that holds the line.
/// What the VMs before it left behind, which is arbitrary here, plays no part.
/// What each leaves in its outbox is printed in the same order, and an empty
/// line starts nothing and prints nothing.
pub proof fn law_serve_runs_every_line_by_itself(
    t: LoadedTemplate,
    backend: Backend,
    turns: Seq<ServeTurn>,
)
    requires
        lines_fit(turns),
    ensures
        ({
            let log = serve_log(t, backend, turns);
            &&& !log.ended
            &&& log.started == requests(turns).map_values(
                |turn: ServeTurn| start_of(t, backend, turn.input->0),
            )
            &&& log.printed == outputs(requests(turns))
        }),
    decreases turns.len(),
{
    let log = serve_log(t, backend, turns);
    let pick = |turn: ServeTurn| turn.input != Some(Seq::<u8>::empty());
    let f = |turn: ServeTurn| start_of(t, backend, turn.input->0);
    reveal(Seq::filter);
    if turns.len() > 0 {
        let rest = turns.drop_last();
        let turn = turns.last();
        assert forall|i: int| 0 <= i < rest.len() implies ((#[trigger] rest[i]).input matches Some(
            line,
        ) && line.len() < LINUX_INBOX_SIZE) by {
            assert(rest[i] == turns[i]);
        }
        law_serve_runs_every_line_by_itself(t, backend, rest);
        assert(turns[turns.len() - 1].input is Some);
        let line = turn.input->0;
        if line.len() == 0 {
            assert(line =~= Seq::<u8>::empty());
            assert(requests(turns) =~= requests(rest));
        } else {
            assert(line != Seq::<u8>::empty());
            assert(requests(turns) =~= requests(rest).push(turn));
            lemma_start(t, backend, line);
            assert(requests(turns).drop_last() =~= requests(rest));
            assert(log.started =~= requests(turns).map_values(f));
        }
    } else {
        assert(requests(turns) =~= Seq::empty());
        assert(log.started =~= requests(turns).map_values(f));
    }
}

/// A fresh region with a line in its inbox is what the line asks for.
proof fn lemma_start(t: LoadedTemplate, backend: Backend, line: Seq<u8>)
    requires
        line.len() < LINUX_INBOX_SIZE,
    ensures
        vm_start(
            t,
            backend,
            fork_steps(t.template.cpu_state),
            mailbox::with_inbox(fresh_region(), line),
        ) == start_of(t, backend, line),
{
    assert(mailbox::with_inbox(fresh_region(), line) =~= start_of(t, backend, line).shared);
}

/// Requests do not see each other: whatever was served before, and whatever
/// those VMs wrote, later turns start the same VMs and print the same output
/// as they would from the beginning.
pub proof fn law_earlier_requests_are_invisible(
    t: LoadedTemplate,
    backend: Backend,
    earlier: Seq<ServeTurn>,
    later: Seq<ServeTurn>,
)
    requires
        lines_fit(earlier),
    ensures
        ({
            let all = serve_log(t, backend, earlier + later);
            let before = serve_log(t, backend, earlier);
            let alone = serve_log(t, backend, later);
            &&& all.started == before.started + alone.started
            &&& all.printed == before.printed + alone.printed
            &&& all.ended == alone.ended
        }),
    decreases later.len(),
{
    let before = serve_log(t, backend, earlier);
    law_serve_runs_every_line_by_itself(t, backend, earlier);
    if later.len() == 0 {
        assert(earlier + later =~= earlier);
    } else {
        let rest = later.drop_last();
        assert((earlier + later).drop_last() =~= earlier + rest);
        law_earlier_requests_are_invisible(t, backend, earlier, rest);
    }
    let all = serve_log(t, backend, earlier + later);
    let alone = serve_log(t, backend, later);
    assert(all.started =~= before.started + alone.started);
    assert(all.printed =~= before.printed + alone.printed);
}

/// Carrying out one step and then others is carrying out all of them.
proof fn lemma_first_step(
    r: snapshot::RegisterFile,
    first: RestoreStep,
    rest: Seq<RestoreStep>,
)
    ensures
        snapshot::applied_all(r, seq![first] + rest) == snapshot::applied_all(
            snapshot::applied(r, first),
            rest,
        ),
    decreases rest.len(),
{
    let all = seq![first] + rest;
    if rest.len() == 0 {
        assert(all.drop_last() =~= Seq::empty());
        assert(snapshot::applied_all(r, all.drop_last()) == r);
    } else {
        assert(all.drop_last() =~= seq![first] + rest.drop_last());
        lemma_first_step(r, first, rest.drop_last());
    }
}

/// A fork goes on where its template was captured: whatever its vCPU held, it
/// then holds every captured register's value, and it is CPU 0.
pub proof fn law_fork_resumes_the_template(r: snapshot::RegisterFile, s: CpuState)
    requires
        s.sys_regs@.len() == 38,
    ensures
        snapshot::captured(snapshot::applied_all(r, fork_steps(s))) == s@,
        snapshot::applied_all(r, fork_steps(s)).sys[SysReg::MPIDR_EL1] == 0x8000_0000,
{
    let first = RestoreStep::Sys { sys_reg: SysReg::MPIDR_EL1, value: 0x8000_0000 };
    let r1 = snapshot::applied(r, first);
    assert(fork_steps(s) =~= seq![first] + snapshot::restore_steps(s));
    lemma_first_step(r, first, snapshot::restore_steps(s));
    snapshot::law_capture_after_restore(r1, s);
    snapshot::law_restore_leaves_other_registers_alone(r1, s, 0);
}

/// Where the hardware traps timer accesses nothing is patched; else HVF gets
/// HVC instructions and KVM gets BRK instructions, which each forwards.
pub proof fn law_patch_by_hypervisor(backend: Backend)
    ensures
        mode_of(backend, true) is None,
        mode_of(Backend::Hvf, false) == Some(TimerPatchMode::Hvc),
        mode_of(Backend::Kvm, false) == Some(TimerPatchMode::Brk),
{
}

/// A template's memory is the guest's memory, but for the kernel's timer
/// instructions: no byte outside the kernel file's words changes, no word that
/// is not a timer instruction changes, and no timer instruction is left. Where
/// the hardware traps them nothing changes at all.
pub proof fn law_template_keeps_memory(
    mem: Seq<u8>,
    kernel_file_size: usize,
    mode: TimerPatchMode,
    i: int,
    w: int,
)
    requires
        mem.len() == GUEST_RAM_SIZE,
        0x8_0000 + kernel_file_size < GUEST_RAM_SIZE,
        0 <= i < mem.len(),
        0 <= w < timer_patch::code_words(kernel_file_size as int),
    ensures
        template_memory(mem, kernel_file_size, None) == mem,
        ({
            let m = template_memory(mem, kernel_file_size, Some(mode));
            let before = timer_patch::word_at(mem, 0x8_0000 + 4 * w);
            let after = timer_patch::word_at(m, 0x8_0000 + 4 * w);
            &&& m.len() == mem.len()
            &&& i < 0x8_0000 || i >= 0x8_0000 + kernel_file_size + 3 ==> m[i] == mem[i]
            &&& timer_patch::timer_access(after) is None
            &&& timer_patch::timer_access(before) is None ==> after == before
        }),
{
    let m = template_memory(mem, kernel_file_size, Some(mode));
    timer_patch::law_the_whole_image_is_looked_at(kernel_file_size as int);
    timer_patch::law_every_timer_instruction_is_replaced(
        mem,
        0x8_0000,
        kernel_file_size as int,
        mode,
        w,
    );
    timer_patch::law_patching_leaves_no_timer_instruction(
        mem,
        0x8_0000,
        kernel_file_size as int,
        mode,
        w,
    );
}

/// What is printed is what the VM left, as it left it; text that does not end
/// its last line has it ended, and nothing is printed of nothing.
pub proof fn law_output_ends_its_line(out: Seq<u8>)
    ensures
        out.len() == 0 ==> outbox_output(out).len() == 0,
        out.len() > 0 ==> outbox_output(out).last() == 10,
        out.len() > 0 && out.last() == 10 ==> outbox_output(out) == out,
        outbox_output(out).take(out.len() as int) == out,
        outbox_output(out).len() <= out.len() + 1,
{
    assert(outbox_output(out).take(out.len() as int) =~= out);
}

/// Serve mode goes on after every line that fits in 8 MiB and ends at any other
/// input: in failure at a line that does not fit, without at the end of input.
/// Only a line that is run is put in the shared region.
pub proof fn law_serve_ends_with_its_input(s: CpuState, line: Seq<u8>, shared: Seq<u8>)
    ensures
        serve_step(s, None, shared) == (ServeStepView::Stop { too_large: false }, shared),
        line.len() == 0 ==> serve_step(s, Some(line), shared) == (ServeStepView::Skip, shared),
        0 < line.len() < 0x80_0000 ==> serve_step(s, Some(line), shared).0 is Run,
        line.len() >= 0x80_0000 ==> serve_step(s, Some(line), shared) == (
            ServeStepView::Stop { too_large: true },
            shared,
        ),
{
}

} // verus!
