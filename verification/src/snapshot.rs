//! Snapshots: captured CPU state and the template that forks start from.

use crate::bytes;
use crate::registers;
use crate::registers::{SimdReg, SysReg, GPR_COUNT, SNAPSHOT_SYS_REGS};
use crate::text;
use vstd::prelude::*;

verus! {

/// Captured CPU state for snapshot/restore.
pub struct CpuState {
    /// x0-x30, PC, FPCR, FPSR, CPSR (35 registers)
    pub gpr: [u64; 35],
    /// System registers (indexed same as SNAPSHOT_SYS_REGS)
    pub sys_regs: Vec<u64>,
    /// SIMD/FP registers Q0-Q31
    pub simd: [SimdReg; 32],
}

/// [`CpuState`] as contracts speak of it.
#[verifier::ext_equal]
pub struct CpuView {
    pub gpr: Seq<u64>,
    pub sys_regs: Seq<u64>,
    pub simd: Seq<Seq<u8>>,
}

/// 64-bit numbers, little-endian, one behind the other.
pub open spec fn words(s: Seq<u64>) -> Seq<u8>
    decreases s.len(),
{
    if s.len() == 0 {
        Seq::empty()
    } else {
        words(s.drop_last()) + bytes::le_bytes(s.last() as nat, 8)
    }
}

/// Byte strings, one behind the other.
pub open spec fn concat(s: Seq<Seq<u8>>) -> Seq<u8>
    decreases s.len(),
{
    if s.len() == 0 {
        Seq::empty()
    } else {
        concat(s.drop_last()) + s.last()
    }
}

/// The file format: raw gpr + sys_reg count + sys_regs + simd.
pub open spec fn encoded(c: CpuView) -> Seq<u8> {
    words(c.gpr) + bytes::le_bytes(c.sys_regs.len(), 4) + words(c.sys_regs) + concat(c.simd)
}

/// The number of system registers that `data` announces.
pub open spec fn announced(data: Seq<u8>) -> nat {
    bytes::le_value(data.subrange(280, 284))
}

/// `data` is as long as it announces.
pub open spec fn complete(data: Seq<u8>) -> bool {
    data.len() >= 284 && data.len() >= 284 + 8 * announced(data) + 512
}

/// The 64-bit number at `off`.
pub open spec fn word_at(data: Seq<u8>, off: int) -> u64 {
    bytes::le_value(data.subrange(off, off + 8)) as u64
}

/// The state that `data` holds.
pub open spec fn decoded(data: Seq<u8>) -> CpuView {
    let n = announced(data);
    CpuView {
        gpr: Seq::new(35, |i: int| word_at(data, 8 * i)),
        sys_regs: Seq::new(n, |i: int| word_at(data, 284 + 8 * i)),
        simd: Seq::new(
            32,
            |i: int| data.subrange(284 + 8 * n + 16 * i, 284 + 8 * n + 16 * i + 16),
        ),
    }
}

/// One register write of a restore.
#[derive(Clone, Copy, Debug)]
pub enum RestoreStep {
    /// A general register.
    Gpr { index: u32, value: u64 },
    /// A system register.
    Sys { sys_reg: SysReg, value: u64 },
    /// A SIMD/FP register.
    Simd { q: u32, bytes: [u8; 16] },
}

/// The register writes that bring a vCPU to the state `s`: the 35 general
/// registers, the 38 system registers and the 32 SIMD/FP registers.
pub open spec fn restore_steps(s: CpuState) -> Seq<RestoreStep> {
    Seq::new(
        105,
        |i: int|
            if i < 35 {
                RestoreStep::Gpr { index: i as u32, value: s.gpr@[i] }
            } else if i < 73 {
                RestoreStep::Sys {
                    sys_reg: SNAPSHOT_SYS_REGS@[i - 35],
                    value: s.sys_regs@[i - 35],
                }
            } else {
                RestoreStep::Simd { q: (i - 73) as u32, bytes: s.simd@[i - 73].0 }
            },
    )
}

/// One register read of a capture.
#[derive(Clone, Copy, Debug, PartialEq, Eq, Structural)]
pub enum RegRead {
    /// A general register.
    Gpr { index: u32 },
    /// A system register.
    Sys { sys_reg: SysReg },
    /// A SIMD/FP register.
    Simd { q: u32 },
}

/// The registers that a capture reads: the 35 general registers, the 38 system
/// registers and the 32 SIMD/FP registers.
pub open spec fn read_list() -> Seq<RegRead> {
    Seq::new(
        105,
        |i: int|
            if i < 35 {
                RegRead::Gpr { index: i as u32 }
            } else if i < 73 {
                RegRead::Sys { sys_reg: SNAPSHOT_SYS_REGS@[i - 35] }
            } else {
                RegRead::Simd { q: (i - 73) as u32 }
            },
    )
}

/// The register that a restore step writes.
pub open spec fn step_target(step: RestoreStep) -> RegRead {
    match step {
        RestoreStep::Gpr { index, value } => RegRead::Gpr { index },
        RestoreStep::Sys { sys_reg, value } => RegRead::Sys { sys_reg },
        RestoreStep::Simd { q, bytes } => RegRead::Simd { q },
    }
}

impl View for CpuState {
    type V = CpuView;

    open spec fn view(&self) -> CpuView {
        CpuView {
            gpr: self.gpr@,
            sys_regs: self.sys_regs@,
            simd: Seq::new(32, |i: int| self.simd@[i].0@),
        }
    }
}

/// Appends 64-bit numbers to `buf`.
fn push_words(buf: &mut Vec<u8>, s: &[u64])
    ensures
        final(buf)@ == old(buf)@ + words(s@),
{
    let mut i: usize = 0;
    assert(buf@ =~= old(buf)@ + words(s@.take(0)));
    while i < s.len()
        invariant
            i <= s@.len(),
            buf@ == old(buf)@ + words(s@.take(i as int)),
        decreases s@.len() - i,
    {
        let mut le = bytes::to_le(s[i], 8);
        proof {
            assert(s@.take(i + 1).drop_last() =~= s@.take(i as int));
        }
        let ghost before = buf@;
        buf.append(&mut le);
        assert(buf@ =~= old(buf)@ + words(s@.take(i + 1)));
        i = i + 1;
    }
    assert(s@.take(i as int) =~= s@);
}

/// Reads the 64-bit number at `off`.
fn word(data: &[u8], off: usize) -> (x: u64)
    requires
        off + 8 <= data@.len(),
    ensures
        x == word_at(data@, off as int),
{
    proof {
        bytes::lemma_le_value_round_trip(data@.subrange(off as int, off + 8));
        bytes::lemma_pow256_values();
    }
    bytes::read_le(data, off, 8)
}

/// The registers to read of a vCPU, in the order in which
/// [`CpuState::capture`] takes their values.
pub fn capture_reads() -> (reads: Vec<RegRead>)
    ensures
        reads@ == read_list(),
{
    let mut reads: Vec<RegRead> = Vec::new();
    let mut i: usize = 0;
    while i < GPR_COUNT
        invariant
            i <= 35,
            reads@ == read_list().take(i as int),
        decreases 35 - i,
    {
        reads.push(RegRead::Gpr { index: i as u32 });
        i = i + 1;
        assert(reads@ =~= read_list().take(i as int));
    }
    let regs = SNAPSHOT_SYS_REGS;
    let mut j: usize = 0;
    while j < 38
        invariant
            j <= 38,
            regs@ == SNAPSHOT_SYS_REGS@,
            regs@.len() == 38,
            reads@ == read_list().take(35 + j),
        decreases 38 - j,
    {
        reads.push(RegRead::Sys { sys_reg: regs[j] });
        j = j + 1;
        assert(reads@ =~= read_list().take(35 + j));
    }
    let mut q: usize = 0;
    while q < 32
        invariant
            q <= 32,
            reads@ == read_list().take(73 + q),
        decreases 32 - q,
    {
        reads.push(RegRead::Simd { q: q as u32 });
        q = q + 1;
        assert(reads@ =~= read_list().take(73 + q));
    }
    assert(reads@ =~= read_list());
    reads
}

impl CpuState {
    /// Assembles the state from what was read of a vCPU: the general
    /// registers by index, the system registers in the order of
    /// SNAPSHOT_SYS_REGS, the SIMD registers by index.
    pub fn capture(gpr: [u64; 35], sys_regs: Vec<u64>, simd: [SimdReg; 32]) -> (s: Self)
        requires
            sys_regs@.len() == SNAPSHOT_SYS_REGS@.len(),
        ensures
            s.gpr == gpr,
            s.sys_regs == sys_regs,
            s.simd == simd,
    {
        CpuState { gpr, sys_regs, simd }
    }

    /// The register writes that bring a vCPU to this state, in order.
    pub fn restore(&self) -> (steps: Vec<RestoreStep>)
        requires
            self.sys_regs@.len() >= SNAPSHOT_SYS_REGS@.len(),
        ensures
            steps@ == restore_steps(*self),
    {
        let mut steps: Vec<RestoreStep> = Vec::new();
        let mut i: usize = 0;
        while i < GPR_COUNT
            invariant
                i <= 35,
                steps@.len() == i,
                forall|k: int|
                    0 <= k < i ==> (#[trigger] steps@[k]) == (RestoreStep::Gpr {
                        index: k as u32,
                        value: self.gpr@[k],
                    }),
            decreases 35 - i,
        {
            steps.push(RestoreStep::Gpr { index: i as u32, value: self.gpr[i] });
            i = i + 1;
        }
        let regs = SNAPSHOT_SYS_REGS;
        let mut j: usize = 0;
        while j < 38
            invariant
                j <= 38,
                regs@ == SNAPSHOT_SYS_REGS@,
                regs@.len() == 38,
                self.sys_regs@.len() >= 38,
                steps@.len() == 35 + j,
                forall|k: int|
                    0 <= k < 35 ==> (#[trigger] steps@[k]) == (RestoreStep::Gpr {
                        index: k as u32,
                        value: self.gpr@[k],
                    }),
                forall|k: int|
                    35 <= k < 35 + j ==> (#[trigger] steps@[k]) == (RestoreStep::Sys {
                        sys_reg: SNAPSHOT_SYS_REGS@[k - 35],
                        value: self.sys_regs@[k - 35],
                    }),
            decreases 38 - j,
        {
            steps.push(RestoreStep::Sys { sys_reg: regs[j], value: self.sys_regs[j] });
            j = j + 1;
        }
        let mut q: usize = 0;
        while q < 32
            invariant
                q <= 32,
                steps@.len() == 73 + q,
                forall|k: int|
                    0 <= k < 35 ==> (#[trigger] steps@[k]) == (RestoreStep::Gpr {
                        index: k as u32,
                        value: self.gpr@[k],
                    }),
                forall|k: int|
                    35 <= k < 73 ==> (#[trigger] steps@[k]) == (RestoreStep::Sys {
                        sys_reg: SNAPSHOT_SYS_REGS@[k - 35],
                        value: self.sys_regs@[k - 35],
                    }),
                forall|k: int|
                    73 <= k < 73 + q ==> (#[trigger] steps@[k]) == (RestoreStep::Simd {
                        q: (k - 73) as u32,
                        bytes: self.simd@[k - 73].0,
                    }),
            decreases 32 - q,
        {
            steps.push(RestoreStep::Simd { q: q as u32, bytes: self.simd[q].0 });
            q = q + 1;
        }
        assert(steps@ =~= restore_steps(*self));
        steps
    }

    /// Serialize to bytes (simple format: raw gpr + sys_reg count + sys_regs + simd).
    pub fn to_bytes(&self) -> (data: Vec<u8>)
        ensures
            data@ == encoded(self@),
    {
        let mut buf: Vec<u8> = Vec::new();
        push_words(&mut buf, self.gpr.as_slice());
        let count: u64 = self.sys_regs.len() as u64;
        let mut le = bytes::to_le(count, 4);
        buf.append(&mut le);
        push_words(&mut buf, self.sys_regs.as_slice());
        let ghost head = buf@;
        let ghost simd = self@.simd;
        let mut i: usize = 0;
        assert(buf@ =~= head + concat(simd.take(0)));
        while i < 32
            invariant
                i <= 32,
                simd == self@.simd,
                buf@ == head + concat(simd.take(i as int)),
            decreases 32 - i,
        {
            proof {
                assert(simd.take(i + 1).drop_last() =~= simd.take(i as int));
            }
            buf.extend_from_slice(self.simd[i].0.as_slice());
            assert(buf@ =~= head + concat(simd.take(i + 1)));
            i = i + 1;
        }
        assert(simd.take(32) =~= simd);
        assert(buf@ =~= encoded(self@));
        buf
    }

    /// Is `data` as long as it announces?
    pub fn is_complete(data: &[u8]) -> (b: bool)
        ensures
            b == complete(data@),
    {
        if data.len() < 284 {
            return false;
        }
        let count: u64 = bytes::read_le(data, 280, 4);
        proof {
            bytes::lemma_le_value_round_trip(data@.subrange(280, 284));
            bytes::lemma_pow256_values();
        }
        data.len() as u64 >= 284 + 8 * count + 512
    }

    /// Deserialize from bytes.
    pub fn from_bytes(data: &[u8]) -> (s: Self)
        requires
            complete(data@),
        ensures
            s@ == decoded(data@),
    {
        let total: usize = data.len();
        let mut gpr: [u64; 35] = [0u64; 35];
        let mut i: usize = 0;
        while i < 35
            invariant
                i <= 35,
                total == data@.len(),
                total >= 284,
                gpr@.len() == 35,
                forall|k: int| 0 <= k < i ==> gpr@[k] == word_at(data@, 8 * k),
            decreases 35 - i,
        {
            gpr[i] = word(data, 8 * i);
            i = i + 1;
        }
        proof {
            bytes::lemma_le_value_round_trip(data@.subrange(280, 284));
            bytes::lemma_pow256_values();
        }
        let count: usize = bytes::read_le(data, 280, 4) as usize;
        let mut sys_regs: Vec<u64> = Vec::with_capacity(count);
        let mut j: usize = 0;
        while j < count
            invariant
                j <= count,
                total == data@.len(),
                count == announced(data@),
                total >= 284 + 8 * count + 512,
                sys_regs@.len() == j,
                forall|k: int| 0 <= k < j ==> sys_regs@[k] == word_at(data@, 284 + 8 * k),
            decreases count - j,
        {
            sys_regs.push(word(data, 284 + 8 * j));
            j = j + 1;
        }
        let base: usize = 284 + 8 * count;
        let mut simd: [SimdReg; 32] = [SimdReg([0u8; 16], []); 32];
        let mut q: usize = 0;
        while q < 32
            invariant
                q <= 32,
                total == data@.len(),
                base == 284 + 8 * count,
                total >= base + 512,
                simd@.len() == 32,
                forall|k: int|
                    0 <= k < q ==> (#[trigger] simd@[k]).0@ == data@.subrange(
                        base + 16 * k,
                        base + 16 * k + 16,
                    ),
            decreases 32 - q,
        {
            simd[q] = SimdReg::new(sixteen(data, base + 16 * q));
            q = q + 1;
        }
        let s = CpuState { gpr, sys_regs, simd };
        assert(s@ =~~= decoded(data@));
        s
    }
}

/// The 16 bytes at `off`.
fn sixteen(data: &[u8], off: usize) -> (b: [u8; 16])
    requires
        off + 16 <= data@.len(),
    ensures
        b@ == data@.subrange(off as int, off + 16),
{
    let total: usize = data.len();
    let mut b: [u8; 16] = [0u8; 16];
    let mut i: usize = 0;
    while i < 16
        invariant
            i <= 16,
            total == data@.len(),
            off + 16 <= total,
            b@.len() == 16,
            forall|k: int| 0 <= k < i ==> b@[k] == data@[off + k],
        decreases 16 - i,
    {
        b[i] = data[off + i];
        i = i + 1;
    }
    assert(b@ =~= data@.subrange(off as int, off + 16));
    b
}

/// A saved VM template: CPU state + memory file path.
pub struct Template {
    pub cpu_state: CpuState,
    pub mem_path: String,
    pub mem_size: usize,
    pub guest_base: u64,
    /// Cached descriptor of the snapshot memory, -1 until first use. It is
    /// reused across forks, which then need not read the file again.
    pub memfd: i32,
}

/// The metadata file of a template.
pub open spec fn meta_text(mem_size: nat, guest_base: nat) -> Seq<char> {
    "mem_size="@ + text::decimal(mem_size) + "\nguest_base=0x"@ + text::hex(guest_base) + "\n"@
}

/// `s` without any number of leading "0x".
pub open spec fn without_0x(s: Seq<char>) -> Seq<char>
    decreases s.len(),
{
    if s.len() >= 2 && s[0] == '0' && s[1] == 'x' {
        without_0x(s.skip(2))
    } else {
        s
    }
}

/// `s` begins with `prefix`.
pub open spec fn has_prefix(s: Seq<char>, prefix: Seq<char>) -> bool {
    s.len() >= prefix.len() && s.take(prefix.len() as int) == prefix
}

/// What one line of metadata does to the values read so far; `None` if its
/// number cannot be read. Lines that name neither value are skipped.
pub open spec fn meta_line(line: Seq<char>, acc: (nat, nat)) -> Option<(nat, nat)> {
    if has_prefix(line, "mem_size="@) {
        match text::parse_spec(line.skip(9), 10, usize::MAX as nat) {
            Some(v) => Some((v, acc.1)),
            None => None,
        }
    } else if has_prefix(line, "guest_base="@) {
        match text::parse_spec(without_0x(line.skip(11)), 16, u64::MAX as nat) {
            Some(v) => Some((acc.0, v)),
            None => None,
        }
    } else {
        Some(acc)
    }
}

/// Characters before the first newline.
pub open spec fn line_len(s: Seq<char>) -> nat
    decreases s.len(),
{
    if s.len() == 0 || s[0] == '\n' {
        0
    } else {
        1 + line_len(s.skip(1))
    }
}

/// The first line of `s`, without its line ending (`\n` or `\r\n`).
pub open spec fn first_line(s: Seq<char>) -> Seq<char> {
    let n = line_len(s) as int;
    if n < s.len() && n > 0 && s[n - 1] == '\r' {
        s.take(n - 1)
    } else {
        s.take(n)
    }
}

/// What follows the first line of `s`.
pub open spec fn other_lines(s: Seq<char>) -> Seq<char> {
    let n = line_len(s) as int;
    if n < s.len() {
        s.skip(n + 1)
    } else {
        Seq::empty()
    }
}

/// The memory size and guest base that metadata gives, starting from `acc`;
/// `None` if one of its numbers cannot be read.
pub open spec fn meta_values(s: Seq<char>, acc: (nat, nat)) -> Option<(nat, nat)>
    decreases s.len(),
    via meta_values_decreases
{
    if s.len() == 0 {
        Some(acc)
    } else {
        match meta_line(first_line(s), acc) {
            Some(next) => meta_values(other_lines(s), next),
            None => None,
        }
    }
}

#[via_fn]
proof fn meta_values_decreases(s: Seq<char>, acc: (nat, nat)) {
    lemma_line_len(s);
}

/// The first line ends at a newline, or with the text.
proof fn lemma_line_len(s: Seq<char>)
    ensures
        line_len(s) <= s.len(),
        line_len(s) < s.len() ==> s[line_len(s) as int] == '\n',
        forall|i: int| 0 <= i < line_len(s) ==> s[i] != '\n',
    decreases s.len(),
{
    if s.len() > 0 && s[0] != '\n' {
        lemma_line_len(s.skip(1));
        assert forall|i: int| 0 <= i < line_len(s) implies s[i] != '\n' by {
            if i > 0 {
                assert(s.skip(1)[i - 1] == s[i]);
            }
        }
    }
}

/// Conversely, the first newline is where the first line ends.
proof fn lemma_line_len_at(s: Seq<char>, n: int)
    requires
        0 <= n <= s.len(),
        n < s.len() ==> s[n] == '\n',
        forall|i: int| 0 <= i < n ==> s[i] != '\n',
    ensures
        line_len(s) == n,
{
    lemma_line_len(s);
    if line_len(s) < n {
        assert(s[line_len(s) as int] != '\n');
    }
}

/// Does `s[from..to]` begin with `prefix`?
fn starts_with(s: &Vec<char>, from: usize, to: usize, prefix: &str) -> (b: bool)
    requires
        from <= to <= s@.len(),
    ensures
        b == has_prefix(s@.subrange(from as int, to as int), prefix@),
{
    let p = text::chars_of(prefix);
    let n: usize = p.len();
    let ghost line = s@.subrange(from as int, to as int);
    if to - from < n {
        return false;
    }
    let mut i: usize = 0;
    while i < n
        invariant
            i <= n,
            n == p@.len(),
            p@ == prefix@,
            from + n <= to <= s@.len(),
            line == s@.subrange(from as int, to as int),
            forall|k: int| 0 <= k < i ==> line[k] == p@[k],
        decreases n - i,
    {
        if s[from + i] != p[i] {
            assert(line.take(n as int)[i as int] != prefix@[i as int]);
            return false;
        }
        i = i + 1;
    }
    assert(line.take(n as int) =~= prefix@);
    true
}

/// Reads one line of metadata.
fn read_meta_line(s: &Vec<char>, from: usize, to: usize, acc: (usize, u64)) -> (r: Option<
    (usize, u64),
>)
    requires
        from <= to <= s@.len(),
    ensures
        match r {
            Some((a, b)) => meta_line(
                s@.subrange(from as int, to as int),
                (acc.0 as nat, acc.1 as nat),
            ) == Some((a as nat, b as nat)),
            None => meta_line(
                s@.subrange(from as int, to as int),
                (acc.0 as nat, acc.1 as nat),
            ) is None,
        },
{
    proof {
        reveal_strlit("mem_size=");
        reveal_strlit("guest_base=");
    }
    let ghost line = s@.subrange(from as int, to as int);
    if starts_with(s, from, to, "mem_size=") {
        let digits = vstd::slice::slice_subrange(s.as_slice(), from + 9, to);
        assert(digits@ =~= line.skip(9));
        match text::parse_number(digits, 10, usize::MAX as u64) {
            Some(v) => Some((v as usize, acc.1)),
            None => None,
        }
    } else if starts_with(s, from, to, "guest_base=") {
        let mut start: usize = from + 11;
        assert(s@.subrange(start as int, to as int) =~= line.skip(11));
        while to - start >= 2 && s[start] == '0' && s[start + 1] == 'x'
            invariant
                from + 11 <= start <= to <= s@.len(),
                without_0x(s@.subrange(start as int, to as int)) == without_0x(line.skip(11)),
            decreases to - start,
        {
            assert(s@.subrange(start as int, to as int).skip(2) =~= s@.subrange(
                start + 2,
                to as int,
            ));
            start = start + 2;
        }
        let digits = vstd::slice::slice_subrange(s.as_slice(), start, to);
        match text::parse_number(digits, 16, u64::MAX) {
            Some(v) => Some((acc.0, v)),
            None => None,
        }
    } else {
        Some(acc)
    }
}

/// Reads the metadata of a template: memory size and guest base. A value that
/// is not given is zero, and the last of several counts; `None` if a number
/// cannot be read.
pub fn parse_meta(meta: &str) -> (r: Option<(usize, u64)>)
    ensures
        match r {
            Some((a, b)) => meta_values(meta@, (0, 0)) == Some((a as nat, b as nat)),
            None => meta_values(meta@, (0, 0)) is None,
        },
{
    let s = text::chars_of(meta);
    let n: usize = s.len();
    let mut acc: (usize, u64) = (0, 0);
    let mut from: usize = 0;
    assert(s@.skip(0) =~= s@);
    while from < n
        invariant
            from <= n,
            n == s@.len(),
            s@ == meta@,
            meta_values(s@.skip(from as int), (acc.0 as nat, acc.1 as nat)) == meta_values(
                meta@,
                (0, 0),
            ),
        decreases n - from,
    {
        let ghost rest = s@.skip(from as int);
        let mut to: usize = from;
        while to < n && s[to] != '\n'
            invariant
                from <= to <= n,
                n == s@.len(),
                forall|k: int| from <= k < to ==> s@[k] != '\n',
            decreases n - to,
        {
            to = to + 1;
        }
        proof {
            assert forall|i: int| 0 <= i < to - from implies rest[i] != '\n' by {
                assert(s@[from + i] != '\n');
            }
            lemma_line_len_at(rest, to - from);
        }
        let end: usize = if to < n && to > from && s[to - 1] == '\r' {
            to - 1
        } else {
            to
        };
        assert(first_line(rest) =~= s@.subrange(from as int, end as int));
        match read_meta_line(&s, from, end, acc) {
            Some(next) => {
                acc = next;
            },
            None => {
                return None;
            },
        }
        if to < n {
            assert(other_lines(rest) =~= s@.skip(to + 1));
            from = to + 1;
        } else {
            assert(other_lines(rest) =~= s@.skip(n as int));
            from = n;
        }
    }
    assert(s@.skip(n as int) =~= Seq::empty());
    Some(acc)
}

impl Template {
    /// A template whose memory has not been opened yet.
    pub fn new(cpu_state: CpuState, mem_path: String, mem_size: usize, guest_base: u64) -> (t: Self)
        ensures
            t.cpu_state == cpu_state,
            t.mem_path == mem_path,
            t.mem_size == mem_size,
            t.guest_base == guest_base,
            t.memfd == -1,
    {
        Template { cpu_state, mem_path, mem_size, guest_base, memfd: -1 }
    }

    /// The contents of the two files that describe a template besides its
    /// memory: `cpu.state` and `meta.txt`.
    pub fn save(&self) -> (files: (Vec<u8>, String))
        ensures
            files.0@ == encoded(self.cpu_state@),
            files.1@ == meta_text(self.mem_size as nat, self.guest_base as nat),
    {
        let mut meta = String::from_str("mem_size=");
        text::push_decimal(&mut meta, self.mem_size as u64);
        meta.append("\nguest_base=0x");
        text::push_hex(&mut meta, self.guest_base);
        meta.append("\n");
        assert(meta@ =~= meta_text(self.mem_size as nat, self.guest_base as nat));
        (self.cpu_state.to_bytes(), meta)
    }

    /// The template that `cpu.state` and `meta.txt` describe; `None` if
    /// `cpu.state` is cut short or a number of `meta.txt` cannot be read.
    pub fn load(state_data: &[u8], meta: &str, mem_path: String) -> (r: Option<Self>)
        ensures
            r is Some <==> complete(state_data@) && meta_values(meta@, (0, 0)) is Some,
            r matches Some(t) ==> {
                &&& t.cpu_state@ == decoded(state_data@)
                &&& t.mem_path == mem_path
                &&& meta_values(meta@, (0, 0)) == Some((t.mem_size as nat, t.guest_base as nat))
                &&& t.memfd == -1
            },
    {
        if !CpuState::is_complete(state_data) {
            return None;
        }
        let cpu_state = CpuState::from_bytes(state_data);
        match parse_meta(meta) {
            Some((mem_size, guest_base)) => Some(
                Template::new(cpu_state, mem_path, mem_size, guest_base),
            ),
            None => None,
        }
    }

    /// The descriptor of the snapshot memory, if it is open.
    pub fn cached_memfd(&self) -> (fd: Option<i32>)
        ensures
            fd == (if self.memfd >= 0 {
                Some(self.memfd)
            } else {
                None
            }),
    {
        if self.memfd >= 0 {
            Some(self.memfd)
        } else {
            None
        }
    }

    /// Remembers the descriptor of the snapshot memory.
    pub fn set_memfd(&mut self, fd: i32)
        ensures
            *final(self) == (Template { memfd: fd, ..*old(self) }),
    {
        self.memfd = fd;
    }
}

// Laws

/// Words are as long as eight bytes each, and each is found at its place.
proof fn lemma_words(s: Seq<u64>)
    ensures
        words(s).len() == 8 * s.len(),
        forall|i: int|
            0 <= i < s.len() ==> words(s).subrange(8 * i, 8 * i + 8) == bytes::le_bytes(
                #[trigger] s[i] as nat,
                8,
            ),
    decreases s.len(),
{
    if s.len() > 0 {
        let init = s.drop_last();
        lemma_words(init);
        bytes::lemma_le_bytes_len(s.last() as nat, 8);
        assert forall|i: int| 0 <= i < s.len() implies words(s).subrange(8 * i, 8 * i + 8)
            == bytes::le_bytes(#[trigger] s[i] as nat, 8) by {
            if i < init.len() {
                assert(init[i] == s[i]);
                assert(words(s).subrange(8 * i, 8 * i + 8) =~= words(init).subrange(
                    8 * i,
                    8 * i + 8,
                ));
            } else {
                assert(words(s).subrange(8 * i, 8 * i + 8) =~= bytes::le_bytes(s[i] as nat, 8));
            }
        }
    }
}

/// Strings of 16 bytes are found at their places.
proof fn lemma_concat(s: Seq<Seq<u8>>)
    requires
        forall|i: int| 0 <= i < s.len() ==> (#[trigger] s[i]).len() == 16,
    ensures
        concat(s).len() == 16 * s.len(),
        forall|i: int|
            0 <= i < s.len() ==> concat(s).subrange(16 * i, 16 * i + 16) == #[trigger] s[i],
    decreases s.len(),
{
    if s.len() > 0 {
        let init = s.drop_last();
        lemma_concat(init);
        assert forall|i: int| 0 <= i < s.len() implies concat(s).subrange(16 * i, 16 * i + 16)
            == #[trigger] s[i] by {
            if i < init.len() {
                assert(init[i] == s[i]);
                assert(concat(s).subrange(16 * i, 16 * i + 16) =~= concat(init).subrange(
                    16 * i,
                    16 * i + 16,
                ));
            } else {
                assert(concat(s).subrange(16 * i, 16 * i + 16) =~= s[i]);
            }
        }
    }
}

/// A vCPU's state as it is captured: 35 general registers, a number of system
/// registers that fits in the file's count, 32 SIMD registers of 16 bytes.
pub open spec fn state_wf(c: CpuView) -> bool {
    &&& c.gpr.len() == 35
    &&& c.sys_regs.len() < 0x1_0000_0000
    &&& c.simd.len() == 32
    &&& forall|i: int| 0 <= i < 32 ==> (#[trigger] c.simd[i]).len() == 16
}

/// A state that was written is read back unchanged, register for register.
pub proof fn law_cpu_state_round_trip(c: CpuView)
    requires
        state_wf(c),
    ensures
        complete(encoded(c)),
        decoded(encoded(c)) == c,
{
    let data = encoded(c);
    let n = c.sys_regs.len();
    lemma_words(c.gpr);
    lemma_words(c.sys_regs);
    lemma_concat(c.simd);
    bytes::lemma_pow256_values();
    bytes::lemma_le_round_trip(n, 4);
    assert(data.subrange(280, 284) =~= bytes::le_bytes(n, 4));
    assert(announced(data) == n);
    assert forall|i: int| 0 <= i < 35 implies word_at(data, 8 * i) == c.gpr[i] by {
        assert(data.subrange(8 * i, 8 * i + 8) =~= words(c.gpr).subrange(8 * i, 8 * i + 8));
        bytes::lemma_le_round_trip(c.gpr[i] as nat, 8);
    }
    assert forall|i: int| 0 <= i < n implies word_at(data, 284 + 8 * i) == c.sys_regs[i] by {
        assert(data.subrange(284 + 8 * i, 284 + 8 * i + 8) =~= words(c.sys_regs).subrange(
            8 * i,
            8 * i + 8,
        ));
        bytes::lemma_le_round_trip(c.sys_regs[i] as nat, 8);
    }
    let base = 284 + 8 * n;
    assert forall|i: int| 0 <= i < 32 implies data.subrange(base + 16 * i, base + 16 * i + 16)
        == c.simd[i] by {
        assert(data.subrange(base + 16 * i, base + 16 * i + 16) =~= concat(c.simd).subrange(
            16 * i,
            16 * i + 16,
        ));
    }
    let d = decoded(data);
    assert(d.gpr =~= c.gpr);
    assert(d.sys_regs =~= c.sys_regs);
    assert(d.simd =~= c.simd);
}

/// The metadata of a template is read back as it was written.
#[verifier::spinoff_prover]
#[verifier::rlimit(60)]
pub proof fn law_meta_round_trip(mem_size: nat, guest_base: nat)
    requires
        mem_size <= usize::MAX,
        guest_base <= u64::MAX,
    ensures
        meta_values(meta_text(mem_size, guest_base), (0, 0)) == Some((mem_size, guest_base)),
{
    reveal_strlit("mem_size=");
    reveal_strlit("\nguest_base=0x");
    reveal_strlit("guest_base=");
    reveal_strlit("\n");
    let d = text::decimal(mem_size);
    let h = text::hex(guest_base);
    text::lemma_radix_text(mem_size, 10);
    text::lemma_radix_text(guest_base, 16);
    let s = meta_text(mem_size, guest_base);
    let k = 9 + d.len();
    // the first line
    assert forall|i: int| 0 <= i < k implies s[i] != '\n' && s[i] != '\r' by {
        if i >= 9 {
            assert(s[i] == d[i - 9]);
            assert(text::digit_value(d[i - 9], 10) is Some);
        }
    }
    assert(s[k as int] == '\n');
    lemma_line_len_at(s, k as int);
    assert(first_line(s) =~= "mem_size="@ + d);
    assert(first_line(s).take(9) =~= "mem_size="@);
    assert(first_line(s).skip(9) =~= d);
    text::law_number_round_trip(mem_size, 10, usize::MAX as nat);
    assert(meta_line(first_line(s), (0, 0)) == Some((mem_size, 0nat)));
    // the second line
    let s2 = other_lines(s);
    let m = 13 + h.len();
    assert forall|i: int| 0 <= i < m implies s2[i] != '\n' && s2[i] != '\r' by {
        assert(s2[i] == s[k + 1 + i]);
        if i >= 13 {
            assert(s2[i] == h[i - 13]);
            assert(text::digit_value(h[i - 13], 16) is Some);
        } else {
            assert(s2[i] == "\nguest_base=0x"@[i + 1]);
        }
    }
    assert(s2[m as int] == '\n');
    lemma_line_len_at(s2, m as int);
    let line = first_line(s2);
    assert(line =~= "guest_base="@ + seq!['0', 'x'] + h);
    assert(line.take(11) =~= "guest_base="@);
    assert(line[0] == 'g' && "mem_size="@[0] == 'm');
    assert(!has_prefix(line, "mem_size="@)) by {
        if has_prefix(line, "mem_size="@) {
            assert(line.take(9)[0] == "mem_size="@[0]);
        }
    }
    let v = line.skip(11);
    assert(v =~= seq!['0', 'x'] + h);
    assert(v.skip(2) =~= h);
    assert(without_0x(v) == without_0x(h));
    assert(without_0x(h) == h) by {
        if h.len() >= 2 && h[0] == '0' && h[1] == 'x' {
            assert(text::digit_value(h[1], 16) is Some);
        }
    }
    text::law_number_round_trip(guest_base, 16, u64::MAX as nat);
    assert(meta_line(line, (mem_size, 0)) == Some((mem_size, guest_base)));
    assert(other_lines(s2) =~= Seq::empty());
    reveal_with_fuel(meta_values, 3);
}

/// A restore writes exactly the registers that a capture reads, in the same
/// order.
pub proof fn law_restore_writes_what_capture_reads(s: CpuState, i: int)
    requires
        0 <= i < read_list().len(),
    ensures
        restore_steps(s).len() == read_list().len(),
        step_target(restore_steps(s)[i]) == read_list()[i],
{
}

/// A vCPU as far as snapshots see it: what each of its registers holds.
#[verifier::ext_equal]
pub struct RegisterFile {
    /// General registers by index.
    pub gpr: Map<u32, u64>,
    /// System registers.
    pub sys: Map<SysReg, u64>,
    /// SIMD/FP registers by number.
    pub simd: Map<u32, Seq<u8>>,
}

/// The vCPU after one register write.
pub open spec fn applied(r: RegisterFile, step: RestoreStep) -> RegisterFile {
    match step {
        RestoreStep::Gpr { index, value } => RegisterFile { gpr: r.gpr.insert(index, value), ..r },
        RestoreStep::Sys { sys_reg, value } => RegisterFile {
            sys: r.sys.insert(sys_reg, value),
            ..r
        },
        RestoreStep::Simd { q, bytes } => RegisterFile { simd: r.simd.insert(q, bytes@), ..r },
    }
}

/// The vCPU after register writes, in order.
pub open spec fn applied_all(r: RegisterFile, steps: Seq<RestoreStep>) -> RegisterFile
    decreases steps.len(),
{
    if steps.len() == 0 {
        r
    } else {
        applied(applied_all(r, steps.drop_last()), steps.last())
    }
}

/// The value that reading `reg` of the vCPU gives, as a number; SIMD/FP
/// registers are 128 bits wide.
pub open spec fn read_of(r: RegisterFile, reg: RegRead) -> nat {
    match reg {
        RegRead::Gpr { index } => r.gpr[index] as nat,
        RegRead::Sys { sys_reg } => r.sys[sys_reg] as nat,
        RegRead::Simd { q } => bytes::le_value(r.simd[q]),
    }
}

/// Steps that write other registers leave a register alone.
proof fn lemma_untouched(r: RegisterFile, steps: Seq<RestoreStep>, reg: RegRead)
    requires
        forall|i: int| 0 <= i < steps.len() ==> step_target(#[trigger] steps[i]) != reg,
    ensures
        match reg {
            RegRead::Gpr { index } => applied_all(r, steps).gpr[index] == r.gpr[index],
            RegRead::Sys { sys_reg } => applied_all(r, steps).sys[sys_reg] == r.sys[sys_reg],
            RegRead::Simd { q } => applied_all(r, steps).simd[q] == r.simd[q],
        },
    decreases steps.len(),
{
    if steps.len() > 0 {
        assert(step_target(steps[steps.len() - 1]) != reg);
        lemma_untouched(r, steps.drop_last(), reg);
    }
}

/// A step that no later one overwrites decides what its register holds.
proof fn lemma_written(r: RegisterFile, steps: Seq<RestoreStep>, i: int)
    requires
        0 <= i < steps.len(),
        forall|k: int|
            i < k < steps.len() ==> step_target(#[trigger] steps[k]) != step_target(steps[i]),
    ensures
        match steps[i] {
            RestoreStep::Gpr { index, value } => applied_all(r, steps).gpr[index] == value,
            RestoreStep::Sys { sys_reg, value } => applied_all(r, steps).sys[sys_reg] == value,
            RestoreStep::Simd { q, bytes } => applied_all(r, steps).simd[q] == bytes@,
        },
    decreases steps.len(),
{
    if i < steps.len() - 1 {
        assert(step_target(steps[steps.len() - 1]) != step_target(steps[i]));
        assert(steps.drop_last()[i] == steps[i]);
        lemma_written(r, steps.drop_last(), i);
    }
}

/// No restore writes a register twice.
proof fn lemma_targets_differ(s: CpuState, i: int, k: int)
    requires
        0 <= i < k < 105,
    ensures
        step_target(restore_steps(s)[i]) != step_target(restore_steps(s)[k]),
{
    if 35 <= i < 73 && 35 <= k < 73 {
        registers::law_snapshot_holds_every_register_once(SysReg::MPIDR_EL1, i - 35, k - 35);
    }
}

/// A restore gives every register the value that was captured of it: on any
/// vCPU, each general register, each system register of SNAPSHOT_SYS_REGS and
/// each SIMD/FP register then holds its own entry of the state.
pub proof fn law_restore_gives_each_register_its_value(r: RegisterFile, s: CpuState, i: int)
    requires
        s.sys_regs@.len() >= 38,
    ensures
        ({
            let after = applied_all(r, restore_steps(s));
            &&& 0 <= i < 35 ==> after.gpr[i as u32] == s.gpr@[i]
            &&& 0 <= i < 38 ==> after.sys[SNAPSHOT_SYS_REGS@[i]] == s.sys_regs@[i]
            &&& 0 <= i < 32 ==> after.simd[i as u32] == s.simd@[i].0@
        }),
{
    let steps = restore_steps(s);
    assert forall|a: int, b: int| 0 <= a < b < 105 implies step_target(#[trigger] steps[b])
        != step_target(#[trigger] steps[a]) by {
        lemma_targets_differ(s, a, b);
    }
    if 0 <= i < 35 {
        lemma_written(r, steps, i);
        assert(steps[i] == (RestoreStep::Gpr { index: i as u32, value: s.gpr@[i] }));
    }
    if 0 <= i < 38 {
        lemma_written(r, steps, 35 + i);
        assert(steps[35 + i] == (RestoreStep::Sys {
            sys_reg: SNAPSHOT_SYS_REGS@[i],
            value: s.sys_regs@[i],
        }));
    }
    if 0 <= i < 32 {
        lemma_written(r, steps, 73 + i);
        assert(steps[73 + i] == (RestoreStep::Simd { q: i as u32, bytes: s.simd@[i].0 }));
    }
}

/// A restore writes nothing else: the CPU's identity, the hypervisor's timer
/// control, and register numbers that do not exist keep what they had.
pub proof fn law_restore_leaves_other_registers_alone(r: RegisterFile, s: CpuState, n: u32)
    ensures
        ({
            let after = applied_all(r, restore_steps(s));
            &&& after.sys[SysReg::MPIDR_EL1] == r.sys[SysReg::MPIDR_EL1]
            &&& after.sys[SysReg::CNTHCTL_EL2] == r.sys[SysReg::CNTHCTL_EL2]
            &&& n >= 35 ==> after.gpr[n] == r.gpr[n]
            &&& n >= 32 ==> after.simd[n] == r.simd[n]
        }),
{
    let steps = restore_steps(s);
    assert forall|i: int| 35 <= i < 73 implies step_target(#[trigger] steps[i]) != (RegRead::Sys {
        sys_reg: SysReg::MPIDR_EL1,
    }) && step_target(steps[i]) != (RegRead::Sys { sys_reg: SysReg::CNTHCTL_EL2 }) by {
        let j = i - 35;
        registers::law_snapshot_holds_every_register_once(SysReg::MPIDR_EL1, j, j);
        registers::law_snapshot_holds_every_register_once(SysReg::CNTHCTL_EL2, j, j);
        assert(SNAPSHOT_SYS_REGS@.contains(SNAPSHOT_SYS_REGS@[j]));
    }
    lemma_untouched(r, steps, RegRead::Sys { sys_reg: SysReg::MPIDR_EL1 });
    lemma_untouched(r, steps, RegRead::Sys { sys_reg: SysReg::CNTHCTL_EL2 });
    if n >= 35 {
        lemma_untouched(r, steps, RegRead::Gpr { index: n });
    }
    if n >= 32 {
        lemma_untouched(r, steps, RegRead::Simd { q: n });
    }
}

/// What a capture of the vCPU takes: the values of the general registers by
/// index, of the system registers in the order of SNAPSHOT_SYS_REGS, and of
/// the SIMD/FP registers by number.
pub open spec fn captured(r: RegisterFile) -> CpuView {
    CpuView {
        gpr: Seq::new(35, |i: int| r.gpr[i as u32]),
        sys_regs: Seq::new(38, |i: int| r.sys[SNAPSHOT_SYS_REGS@[i]]),
        simd: Seq::new(32, |i: int| r.simd[i as u32]),
    }
}

/// Snapshot and restore undo each other: a vCPU brought to the state `s`, from
/// whatever state it was in, is captured as `s`.
pub proof fn law_capture_after_restore(r: RegisterFile, s: CpuState)
    requires
        s.sys_regs@.len() == 38,
    ensures
        captured(applied_all(r, restore_steps(s))) == s@,
{
    let after = applied_all(r, restore_steps(s));
    assert forall|i: int| 0 <= i < 38 implies captured(after).sys_regs[i] == s@.sys_regs[i] by {
        law_restore_gives_each_register_its_value(r, s, i);
    }
    assert forall|i: int| 0 <= i < 35 implies captured(after).gpr[i] == s@.gpr[i] by {
        law_restore_gives_each_register_its_value(r, s, i);
    }
    assert forall|i: int| 0 <= i < 32 implies captured(after).simd[i] == s@.simd[i] by {
        law_restore_gives_each_register_its_value(r, s, i);
    }
    assert(captured(after).gpr =~= s@.gpr);
    assert(captured(after).sys_regs =~= s@.sys_regs);
    assert(captured(after).simd =~= s@.simd);
}

/// The reads of a capture, in order, are the 35 general registers, the system
/// registers of SNAPSHOT_SYS_REGS and the 32 SIMD/FP registers: reading them of
/// a vCPU that was brought to the state `s` gives the entries of `s` one after
/// the other.
pub proof fn law_reads_after_restore(r: RegisterFile, s: CpuState, i: int)
    requires
        s.sys_regs@.len() == 38,
    ensures
        read_list().len() == 35 + 38 + 32,
        ({
            let after = applied_all(r, restore_steps(s));
            &&& 0 <= i < 35 ==> read_of(after, read_list()[i]) == s.gpr@[i]
            &&& 0 <= i < 38 ==> read_of(after, read_list()[35 + i]) == s.sys_regs@[i]
            &&& 0 <= i < 32 ==> read_of(after, read_list()[73 + i]) == bytes::le_value(
                s.simd@[i].0@,
            )
        }),
        0 <= i < 35 ==> read_list()[i] == (RegRead::Gpr { index: i as u32 }),
        0 <= i < 38 ==> read_list()[35 + i] == (RegRead::Sys { sys_reg: SNAPSHOT_SYS_REGS@[i] }),
        0 <= i < 32 ==> read_list()[73 + i] == (RegRead::Simd { q: i as u32 }),
{
    law_restore_gives_each_register_its_value(r, s, i);
}

/// Where the file holds what: general register `i` at byte 8i, the number of
/// system registers at byte 280 in four bytes, system register `i` at 284 + 8i,
/// and the 16 bytes of SIMD/FP register `i` behind them; nothing follows. All
/// numbers are little-endian.
pub proof fn law_state_file_layout(c: CpuView, i: int)
    requires
        state_wf(c),
    ensures
        ({
            let data = encoded(c);
            let n = c.sys_regs.len() as int;
            &&& data.len() == 284 + 8 * n + 512
            &&& bytes::le_value(data.subrange(280, 284)) == n
            &&& 0 <= i < 35 ==> bytes::le_value(data.subrange(8 * i, 8 * i + 8)) == c.gpr[i]
            &&& 0 <= i < n ==> bytes::le_value(data.subrange(284 + 8 * i, 292 + 8 * i))
                == c.sys_regs[i]
            &&& 0 <= i < 32 ==> data.subrange(284 + 8 * n + 16 * i, 300 + 8 * n + 16 * i)
                == c.simd[i]
        }),
{
    let data = encoded(c);
    let n = c.sys_regs.len();
    lemma_words(c.gpr);
    lemma_words(c.sys_regs);
    lemma_concat(c.simd);
    bytes::lemma_pow256_values();
    bytes::lemma_le_round_trip(n, 4);
    assert(data.subrange(280, 284) =~= bytes::le_bytes(n, 4));
    if 0 <= i < 35 {
        assert(data.subrange(8 * i, 8 * i + 8) =~= words(c.gpr).subrange(8 * i, 8 * i + 8));
        bytes::lemma_le_round_trip(c.gpr[i] as nat, 8);
    }
    if 0 <= i < n {
        assert(data.subrange(284 + 8 * i, 292 + 8 * i) =~= words(c.sys_regs).subrange(
            8 * i,
            8 * i + 8,
        ));
        bytes::lemma_le_round_trip(c.sys_regs[i] as nat, 8);
    }
    if 0 <= i < 32 {
        let base = 284 + 8 * n;
        assert(data.subrange(base + 16 * i, base + 16 * i + 16) =~= concat(c.simd).subrange(
            16 * i,
            16 * i + 16,
        ));
    }
}

/// A state file is refused exactly if it is shorter than the layout asks for
/// with the number of system registers that it gives itself; what stands
/// behind that is not looked at.
pub proof fn law_only_the_announced_part_counts(data: Seq<u8>, rest: Seq<u8>)
    ensures
        data.len() < 284 ==> !complete(data),
        data.len() >= 284 ==> (complete(data) <==> data.len() >= 796 + 8 * bytes::le_value(
            data.subrange(280, 284),
        )),
        complete(data) ==> complete(data + rest) && decoded(data + rest) == decoded(data),
{
    if complete(data) {
        let all = data + rest;
        assert(all.subrange(280, 284) =~= data.subrange(280, 284));
        let a = decoded(all);
        let b = decoded(data);
        assert forall|i: int| 0 <= i < 35 implies a.gpr[i] == b.gpr[i] by {
            assert(all.subrange(8 * i, 8 * i + 8) =~= data.subrange(8 * i, 8 * i + 8));
        }
        let n = announced(data);
        assert forall|i: int| 0 <= i < n implies a.sys_regs[i] == b.sys_regs[i] by {
            let p = 284 + 8 * i;
            assert(all.subrange(p, p + 8) =~= data.subrange(p, p + 8));
        }
        assert forall|i: int| 0 <= i < 32 implies a.simd[i] == b.simd[i] by {
            let p = 284 + 8 * n + 16 * i;
            assert(all.subrange(p, p + 16) =~= data.subrange(p, p + 16));
        }
        assert(a.gpr =~= b.gpr);
        assert(a.sys_regs =~= b.sys_regs);
        assert(a.simd =~= b.simd);
    }
}

/// What one line of metadata says: `mem_size=` and a decimal number, or
/// `guest_base=` and a hexadecimal one with or without `0x` in front. Each sets
/// its own value, and any other line sets none.
pub proof fn law_metadata_lines(n: nat, acc: (nat, nat), line: Seq<char>)
    requires
        n <= usize::MAX,
        line.len() > 0,
        line[0] != 'm',
        line[0] != 'g',
    ensures
        meta_line("mem_size="@ + text::decimal(n), acc) == Some((n, acc.1)),
        meta_line("guest_base="@ + text::hex(n), acc) == Some((acc.0, n)),
        meta_line("guest_base=0x"@ + text::hex(n), acc) == Some((acc.0, n)),
        meta_line("mem_size="@, acc) is None,
        meta_line("guest_base="@, acc) is None,
        meta_line(line, acc) == Some(acc),
{
    reveal_strlit("mem_size=");
    reveal_strlit("guest_base=");
    reveal_strlit("guest_base=0x");
    let d = text::decimal(n);
    let h = text::hex(n);
    text::lemma_radix_text(n, 10);
    text::lemma_radix_text(n, 16);
    text::law_number_round_trip(n, 10, usize::MAX as nat);
    text::law_number_round_trip(n, 16, u64::MAX as nat);
    let l1 = "mem_size="@ + d;
    assert(l1.take(9) =~= "mem_size="@);
    assert(l1.skip(9) =~= d);
    assert(without_0x(h) == h) by {
        if h.len() >= 2 && h[0] == '0' && h[1] == 'x' {
            assert(text::digit_value(h[1], 16) is Some);
        }
    }
    let l2 = "guest_base="@ + h;
    assert(l2.take(11) =~= "guest_base="@);
    assert(l2.skip(11) =~= h);
    lemma_not_mem_size(l2);
    let l3 = "guest_base=0x"@ + h;
    assert(l3.take(11) =~= "guest_base="@);
    let v = l3.skip(11);
    assert(v =~= seq!['0', 'x'] + h);
    assert(v.skip(2) =~= h);
    assert(without_0x(v) == without_0x(h));
    lemma_not_mem_size(l3);
    assert("mem_size="@.take(9) =~= "mem_size="@);
    assert("mem_size="@.skip(9) =~= Seq::empty());
    assert("guest_base="@.take(11) =~= "guest_base="@);
    assert("guest_base="@.skip(11) =~= Seq::empty());
    lemma_not_mem_size("guest_base="@);
    assert(!has_prefix(line, "mem_size="@)) by {
        if has_prefix(line, "mem_size="@) {
            assert(line.take(9)[0] == "mem_size="@[0]);
        }
    }
    assert(!has_prefix(line, "guest_base="@)) by {
        if has_prefix(line, "guest_base="@) {
            assert(line.take(11)[0] == "guest_base="@[0]);
        }
    }
}

/// A line that begins with `g` gives no memory size.
proof fn lemma_not_mem_size(line: Seq<char>)
    requires
        line.len() > 0,
        line[0] == 'g',
    ensures
        !has_prefix(line, "mem_size="@),
{
    reveal_strlit("mem_size=");
    if has_prefix(line, "mem_size="@) {
        assert(line.take(9)[0] == "mem_size="@[0]);
    }
}

/// Metadata is read line by line: a line ends at a newline, a carriage return
/// before it is not part of the line, and the last line need not end. What is
/// read of the first line is the start for the others.
pub proof fn law_metadata_is_read_by_lines(line: Seq<char>, rest: Seq<char>, acc: (nat, nat))
    requires
        forall|i: int| 0 <= i < line.len() ==> line[i] != '\n' && line[i] != '\r',
    ensures
        meta_values(line.push('\n') + rest, acc) == (match meta_line(line, acc) {
            Some(next) => meta_values(rest, next),
            None => None,
        }),
        meta_values(line.push('\r').push('\n') + rest, acc) == (match meta_line(line, acc) {
            Some(next) => meta_values(rest, next),
            None => None,
        }),
        line.len() > 0 ==> meta_values(line, acc) == meta_line(line, acc),
        meta_values(Seq::empty(), acc) == Some(acc),
{
    let n = line.len() as int;
    let s = line.push('\n') + rest;
    lemma_line_len_at(s, n);
    assert(first_line(s) =~= line);
    assert(other_lines(s) =~= rest);
    let r = line.push('\r').push('\n') + rest;
    lemma_line_len_at(r, n + 1);
    assert(first_line(r) =~= line);
    assert(other_lines(r) =~= rest);
    if n > 0 {
        lemma_line_len_at(line, n);
        assert(first_line(line) =~= line);
        assert(other_lines(line) =~= Seq::empty());
        reveal_with_fuel(meta_values, 2);
    }
}

/// The metadata of a template is two lines, the memory size in decimal and the
/// guest base in hexadecimal.
pub proof fn law_metadata_text(mem_size: nat, guest_base: nat)
    ensures
        meta_text(mem_size, guest_base) == ("mem_size="@ + text::decimal(mem_size)).push('\n') + (
        "guest_base=0x"@ + text::hex(guest_base)).push('\n'),
{
    reveal_strlit("\nguest_base=0x");
    reveal_strlit("guest_base=0x");
    reveal_strlit("\n");
    assert("\nguest_base=0x"@ =~= seq!['\n'] + "guest_base=0x"@);
    assert("\n"@ =~= seq!['\n']);
    assert(meta_text(mem_size, guest_base) =~= ("mem_size="@ + text::decimal(mem_size)).push('\n')
        + ("guest_base=0x"@ + text::hex(guest_base)).push('\n'));
}

} // verus!
