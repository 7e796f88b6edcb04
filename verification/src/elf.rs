//! ELF loading for the bare-metal guest.
//!
//! The `goblin` crate reads the file's headers; which segments are loaded,
//! and which files are refused, is decided here.

use crate::bytes;
use crate::layout::GUEST_BASE;
use crate::text;
use vstd::prelude::*;

verus! {

/// `e_machine` of AArch64.
pub const EM_AARCH64: u16 = 183;

/// `p_type` of a loadable segment.
pub const PT_LOAD: u32 = 1;

/// What `goblin` finds in the file `data`: machine, entry point, and type,
/// file offset, file size, virtual address and flags of each program header
/// in order; or the text of its error.
pub uninterp spec fn elf_headers(data: Seq<u8>) -> Result<
    (u16, u64, Seq<(u32, u64, u64, u64, u32)>),
    Seq<char>,
>;

/// `goblin::elf::Elf::parse`: reads the headers of an ELF file. What it finds,
/// and the text of its error where it refuses the file, depend on the file's
/// bytes alone.
#[verifier::external_body]
fn parse_elf(data: &[u8]) -> (r: Result<(u16, u64, Vec<(u32, u64, u64, u64, u32)>), String>)
    ensures
        match r {
            Ok((machine, entry, headers)) => elf_headers(data@) == Ok::<
                (u16, u64, Seq<(u32, u64, u64, u64, u32)>),
                Seq<char>,
            >((machine, entry, headers@)),
            Err(message) => elf_headers(data@) == Err::<
                (u16, u64, Seq<(u32, u64, u64, u64, u32)>),
                Seq<char>,
            >(message@),
        },
{
    match goblin::elf::Elf::parse(data) {
        Ok(elf) => Ok((
            elf.header.e_machine,
            elf.entry,
            elf.program_headers.iter()
                .map(|h| (h.p_type, h.p_offset, h.p_filesz, h.p_vaddr, h.p_flags))
                .collect(),
        )),
        Err(e) => Err(e.to_string()),
    }
}

/// A segment to load.
#[derive(Clone, Copy)]
pub struct LoadSegment<'a> {
    pub vaddr: u64,
    pub data: &'a [u8],
    pub flags: u32,
}

/// A file that can be loaded.
pub struct GuestElf<'a> {
    pub entry: u64,
    pub loads: Vec<LoadSegment<'a>>,
}

/// A segment as contracts speak of it: address, bytes and flags.
pub open spec fn segment_view(s: LoadSegment) -> (u64, Seq<u8>, u32) {
    (s.vaddr, s.data@, s.flags)
}

/// The segments as contracts speak of them.
pub open spec fn segments_view(s: Seq<LoadSegment>) -> Seq<(u64, Seq<u8>, u32)> {
    Seq::new(s.len(), |i: int| segment_view(s[i]))
}

/// The letter of a flag bit.
pub open spec fn flag_char(set: bool, letter: char) -> char {
    if set {
        letter
    } else {
        '-'
    }
}

impl<'a> LoadSegment<'a> {
    /// The flags as text, such as "R-X".
    pub fn flags_str(&self) -> (s: String)
        ensures
            s@ == seq![
                flag_char((self.flags / 4) % 2 == 1, 'R'),
                flag_char((self.flags / 2) % 2 == 1, 'W'),
                flag_char(self.flags % 2 == 1, 'X'),
            ],
    {
        proof {
            reveal_strlit("R");
            reveal_strlit("W");
            reveal_strlit("X");
            reveal_strlit("-");
        }
        let r = if (self.flags / 4) % 2 == 1 {
            "R"
        } else {
            "-"
        };
        let w = if (self.flags / 2) % 2 == 1 {
            "W"
        } else {
            "-"
        };
        let x = if self.flags % 2 == 1 {
            "X"
        } else {
            "-"
        };
        let mut s = String::from_str(r);
        s.append(w);
        s.append(x);
        assert(s@ =~= seq![
            flag_char((self.flags / 4) % 2 == 1, 'R'),
            flag_char((self.flags / 2) % 2 == 1, 'W'),
            flag_char(self.flags % 2 == 1, 'X'),
        ]);
        s
    }
}

/// The loadable segments of a file, in order; or the address of the first one
/// whose bytes lie beyond the end of the file.
pub open spec fn load_segments(data: Seq<u8>, headers: Seq<(u32, u64, u64, u64, u32)>) -> Result<
    Seq<(u64, Seq<u8>, u32)>,
    u64,
>
    decreases headers.len(),
{
    if headers.len() == 0 {
        Ok(Seq::empty())
    } else {
        let (p_type, p_offset, p_filesz, p_vaddr, p_flags) = headers.last();
        match load_segments(data, headers.drop_last()) {
            Err(vaddr) => Err(vaddr),
            Ok(loads) => if p_type != PT_LOAD {
                Ok(loads)
            } else if p_offset + p_filesz > data.len() {
                Err(p_vaddr)
            } else {
                Ok(
                    loads.push(
                        (p_vaddr, data.subrange(p_offset as int, p_offset + p_filesz), p_flags),
                    ),
                )
            },
        }
    }
}

/// What loading the file `data` gives, its headers being read: the entry point
/// and the segments, or the message of the refusal.
pub open spec fn guest_elf(
    data: Seq<u8>,
    machine: u16,
    entry: u64,
    headers: Seq<(u32, u64, u64, u64, u32)>,
) -> Result<(u64, Seq<(u64, Seq<u8>, u32)>), Seq<char>> {
    if machine != EM_AARCH64 {
        Err("Not an aarch64 ELF (e_machine="@ + text::decimal(machine as nat) + ")"@)
    } else {
        match load_segments(data, headers) {
            Err(vaddr) => Err(
                "LOAD segment at 0x"@ + text::hex(vaddr as nat)
                    + ": file data extends past end of file"@,
            ),
            Ok(loads) => if loads.len() == 0 {
                Err("No PT_LOAD segments found"@)
            } else {
                Ok((entry, loads))
            },
        }
    }
}

/// What loading the file `data` gives.
pub open spec fn parsed(data: Seq<u8>) -> Result<(u64, Seq<(u64, Seq<u8>, u32)>), Seq<char>> {
    match elf_headers(data) {
        Ok((machine, entry, headers)) => guest_elf(data, machine, entry, headers),
        Err(message) => Err("ELF parse error: "@ + message),
    }
}

/// The result as contracts speak of it.
pub open spec fn result_view(r: Result<GuestElf, String>) -> Result<
    (u64, Seq<(u64, Seq<u8>, u32)>),
    Seq<char>,
> {
    match r {
        Ok(elf) => Ok((elf.entry, segments_view(elf.loads@))),
        Err(message) => Err(message@),
    }
}

/// A segment that is out of range is not mended by what follows it.
proof fn lemma_first_error(data: Seq<u8>, headers: Seq<(u32, u64, u64, u64, u32)>, k: int)
    requires
        0 <= k <= headers.len(),
        load_segments(data, headers.take(k)) is Err,
    ensures
        load_segments(data, headers) == load_segments(data, headers.take(k)),
    decreases headers.len() - k,
{
    if k == headers.len() {
        assert(headers.take(k) =~= headers);
    } else {
        assert(headers.take(k + 1).drop_last() =~= headers.take(k));
        lemma_first_error(data, headers, k + 1);
    }
}

impl<'a> GuestElf<'a> {
    /// Reads an ELF file.
    pub fn parse(data: &'a [u8]) -> (r: Result<Self, String>)
        ensures
            result_view(r) == parsed(data@),
    {
        match parse_elf(data) {
            Ok((machine, entry, headers)) => Self::from_headers(
                data,
                machine,
                entry,
                headers.as_slice(),
            ),
            Err(message) => Err(String::from_str("ELF parse error: ").concat(message.as_str())),
        }
    }

    /// Collects the loadable segments of an AArch64 file whose headers have
    /// been read.
    pub fn from_headers(
        data: &'a [u8],
        machine: u16,
        entry: u64,
        headers: &[(u32, u64, u64, u64, u32)],
    ) -> (r: Result<Self, String>)
        ensures
            result_view(r) == guest_elf(data@, machine, entry, headers@),
    {
        if machine != EM_AARCH64 {
            let mut message = text::with_decimal("Not an aarch64 ELF (e_machine=", machine as u64);
            message.append(")");
            return Err(message);
        }
        let size: usize = data.len();
        let mut loads: Vec<LoadSegment<'a>> = Vec::new();
        let mut i: usize = 0;
        assert(segments_view(loads@) =~= Seq::empty());
        while i < headers.len()
            invariant
                i <= headers@.len(),
                size == data@.len(),
                machine == EM_AARCH64,
                load_segments(data@, headers@.take(i as int)) == Ok::<
                    Seq<(u64, Seq<u8>, u32)>,
                    u64,
                >(segments_view(loads@)),
            decreases headers@.len() - i,
        {
            let (p_type, p_offset, p_filesz, p_vaddr, p_flags) = headers[i];
            proof {
                assert(headers@.take(i + 1).drop_last() =~= headers@.take(i as int));
            }
            if p_type == PT_LOAD {
                if p_offset > size as u64 || p_filesz > size as u64 - p_offset {
                    proof {
                        lemma_first_error(data@, headers@, i + 1);
                    }
                    let mut message = String::from_str("LOAD segment at 0x");
                    text::push_hex(&mut message, p_vaddr);
                    message.append(": file data extends past end of file");
                    return Err(message);
                }
                let from: usize = p_offset as usize;
                let to: usize = from + p_filesz as usize;
                let ghost before = segments_view(loads@);
                loads.push(
                    LoadSegment {
                        vaddr: p_vaddr,
                        data: vstd::slice::slice_subrange(data, from, to),
                        flags: p_flags,
                    },
                );
                assert(segments_view(loads@) =~= before.push(
                    (p_vaddr, data@.subrange(p_offset as int, p_offset + p_filesz), p_flags),
                ));
            }
            i = i + 1;
        }
        assert(headers@.take(i as int) =~= headers@);
        if loads.len() == 0 {
            return Err(String::from_str("No PT_LOAD segments found"));
        }
        Ok(GuestElf { entry, loads })
    }
}

/// The segment lies within guest memory of `size` bytes.
pub open spec fn segment_fits(s: (u64, Seq<u8>, u32), size: int) -> bool {
    GUEST_BASE <= s.0 && s.0 - GUEST_BASE + s.1.len() <= size
}

/// All segments lie within guest memory.
pub open spec fn all_fit(loads: Seq<(u64, Seq<u8>, u32)>, size: int) -> bool {
    forall|i: int| 0 <= i < loads.len() ==> segment_fits(#[trigger] loads[i], size)
}

/// Guest memory with the segments copied in, in order.
pub open spec fn loaded(mem: Seq<u8>, loads: Seq<(u64, Seq<u8>, u32)>) -> Seq<u8>
    decreases loads.len(),
{
    if loads.len() == 0 {
        mem
    } else {
        let s = loads.last();
        bytes::overlay(loaded(mem, loads.drop_last()), s.0 - GUEST_BASE, s.1)
    }
}

/// Loading keeps the size of memory.
proof fn lemma_loaded_len(mem: Seq<u8>, loads: Seq<(u64, Seq<u8>, u32)>)
    ensures
        loaded(mem, loads).len() == mem.len(),
    decreases loads.len(),
{
    if loads.len() > 0 {
        lemma_loaded_len(mem, loads.drop_last());
    }
}

/// Load the guest ELF into its memory region. Returns false, with the memory
/// untouched, if a segment exceeds the region.
pub fn load_guest_elf(elf: &GuestElf, mem: &mut [u8]) -> (ok: bool)
    ensures
        ok == all_fit(segments_view(elf.loads@), old(mem)@.len() as int),
        final(mem)@ == (if ok {
            loaded(old(mem)@, segments_view(elf.loads@))
        } else {
            old(mem)@
        }),
{
    let size: usize = mem.len();
    let ghost segs = segments_view(elf.loads@);
    let n: usize = elf.loads.len();
    let mut i: usize = 0;
    while i < n
        invariant
            i <= n,
            n == elf.loads@.len(),
            segs == segments_view(elf.loads@),
            size == old(mem)@.len(),
            mem@ == old(mem)@,
            forall|k: int| 0 <= k < i ==> segment_fits(#[trigger] segs[k], size as int),
        decreases n - i,
    {
        let s = elf.loads[i];
        let len: u64 = s.data.len() as u64;
        if s.vaddr < GUEST_BASE || s.vaddr - GUEST_BASE > size as u64 || len > size as u64 - (
        s.vaddr - GUEST_BASE) {
            assert(!segment_fits(segs[i as int], size as int));
            return false;
        }
        i = i + 1;
    }
    let ghost m0 = mem@;
    let mut j: usize = 0;
    assert(segs.take(0) =~= Seq::empty());
    while j < n
        invariant
            j <= n,
            n == elf.loads@.len(),
            segs == segments_view(elf.loads@),
            m0.len() == size,
            forall|k: int| 0 <= k < n ==> segment_fits(#[trigger] segs[k], size as int),
            mem@ == loaded(m0, segs.take(j as int)),
        decreases n - j,
    {
        let s = elf.loads[j];
        proof {
            assert(segment_fits(segs[j as int], size as int));
            assert(segs.take(j + 1).drop_last() =~= segs.take(j as int));
            lemma_loaded_len(m0, segs.take(j as int));
        }
        bytes::write_at(mem, (s.vaddr - GUEST_BASE) as usize, s.data);
        j = j + 1;
    }
    assert(segs.take(n as int) =~= segs);
    true
}

// Laws

/// Every segment of a file that parses has its bytes within the file, and
/// there is at least one.
pub proof fn law_segments_lie_in_the_file(
    data: Seq<u8>,
    machine: u16,
    entry: u64,
    headers: Seq<(u32, u64, u64, u64, u32)>,
)
    requires
        guest_elf(data, machine, entry, headers) is Ok,
    ensures
        machine == EM_AARCH64,
        guest_elf(data, machine, entry, headers)->Ok_0.0 == entry,
        1 <= guest_elf(data, machine, entry, headers)->Ok_0.1.len() <= headers.len(),
        forall|i: int|
            0 <= i < headers.len() && (#[trigger] headers[i]).0 == PT_LOAD ==> headers[i].1
                + headers[i].2 <= data.len(),
{
    lemma_loads_in_file(data, headers);
}

proof fn lemma_loads_in_file(data: Seq<u8>, headers: Seq<(u32, u64, u64, u64, u32)>)
    requires
        load_segments(data, headers) is Ok,
    ensures
        load_segments(data, headers)->Ok_0.len() <= headers.len(),
        forall|i: int|
            0 <= i < headers.len() && (#[trigger] headers[i]).0 == PT_LOAD ==> headers[i].1
                + headers[i].2 <= data.len(),
    decreases headers.len(),
{
    if headers.len() > 0 {
        let init = headers.drop_last();
        lemma_loads_in_file(data, init);
        assert forall|i: int|
            0 <= i < headers.len() && (#[trigger] headers[i]).0 == PT_LOAD implies headers[i].1
            + headers[i].2 <= data.len() by {
            if i < init.len() {
                assert(init[i] == headers[i]);
            }
        }
    }
}

/// The header asks for bytes to be loaded.
pub open spec fn is_load(h: (u32, u64, u64, u64, u32)) -> bool {
    h.0 == 1
}

/// What is loaded is exactly what the loadable headers ask for, in their order:
/// the bytes of the file from the given offset on, as many as the header says,
/// to the given address, with the given flags. A file is refused for a header
/// whose bytes are not all there, and then for the first such.
pub proof fn law_segments_are_what_headers_say(
    data: Seq<u8>,
    headers: Seq<(u32, u64, u64, u64, u32)>,
)
    ensures
        match load_segments(data, headers) {
            Ok(loads) => {
                &&& loads == headers.filter(
                    |h: (u32, u64, u64, u64, u32)| is_load(h),
                ).map_values(
                    |h: (u32, u64, u64, u64, u32)|
                        (h.3, data.subrange(h.1 as int, h.1 + h.2), h.4),
                )
                &&& forall|i: int|
                    0 <= i < headers.len() && is_load(#[trigger] headers[i]) ==> headers[i].1
                        + headers[i].2 <= data.len()
            },
            Err(vaddr) => exists|k: int|
                {
                    &&& 0 <= k < headers.len()
                    &&& is_load(#[trigger] headers[k])
                    &&& headers[k].1 + headers[k].2 > data.len()
                    &&& headers[k].3 == vaddr
                    &&& forall|i: int|
                        0 <= i < k && is_load(#[trigger] headers[i]) ==> headers[i].1
                            + headers[i].2 <= data.len()
                },
        },
    decreases headers.len(),
{
    let pick = |h: (u32, u64, u64, u64, u32)| is_load(h);
    let f = |h: (u32, u64, u64, u64, u32)| (h.3, data.subrange(h.1 as int, h.1 + h.2), h.4);
    reveal(Seq::filter);
    if headers.len() == 0 {
        assert(headers.filter(pick).map_values(f) =~= Seq::empty());
    } else {
        let init = headers.drop_last();
        let last = headers.last();
        law_segments_are_what_headers_say(data, init);
        assert(forall|i: int| 0 <= i < init.len() ==> #[trigger] init[i] == headers[i]);
        match load_segments(data, init) {
            Err(vaddr) => {
                let k = choose|k: int|
                    {
                        &&& 0 <= k < init.len()
                        &&& is_load(#[trigger] init[k])
                        &&& init[k].1 + init[k].2 > data.len()
                        &&& init[k].3 == vaddr
                        &&& forall|i: int|
                            0 <= i < k && is_load(#[trigger] init[i]) ==> init[i].1 + init[i].2
                                <= data.len()
                    };
                assert(is_load(headers[k]));
                assert forall|i: int| 0 <= i < k && is_load(#[trigger] headers[i]) implies headers[
                i].1 + headers[i].2 <= data.len() by {
                    assert(is_load(init[i]));
                }
            },
            Ok(loads) => {
                assert forall|i: int|
                    0 <= i < init.len() && is_load(#[trigger] headers[i]) implies headers[i].1
                    + headers[i].2 <= data.len() by {
                    assert(is_load(init[i]));
                }
                if is_load(last) {
                    assert(headers.filter(pick) =~= init.filter(pick).push(last));
                    assert(headers[headers.len() - 1] == last);
                    if last.1 + last.2 <= data.len() {
                        assert(headers.filter(pick).map_values(f) =~= init.filter(pick).map_values(
                            f,
                        ).push(f(last)));
                    }
                } else {
                    assert(headers.filter(pick) =~= init.filter(pick));
                }
            },
        }
    }
}

/// Which files are refused, and how: of another machine than AArch64 (183), with
/// a loadable header beyond the end of the file, or with none. The entry point
/// of any other is the header's.
pub proof fn law_what_is_refused(
    data: Seq<u8>,
    machine: u16,
    entry: u64,
    headers: Seq<(u32, u64, u64, u64, u32)>,
)
    ensures
        ({
            let r = guest_elf(data, machine, entry, headers);
            let loads = load_segments(data, headers);
            &&& r is Ok <==> machine == 183 && loads is Ok && loads->Ok_0.len() > 0
            &&& r matches Ok((e, l)) ==> e == entry && l == loads->Ok_0
            &&& machine != 183 ==> r == Err::<(u64, Seq<(u64, Seq<u8>, u32)>), Seq<char>>(
                "Not an aarch64 ELF (e_machine="@ + text::decimal(machine as nat) + ")"@,
            )
            &&& machine == 183 && loads is Err ==> r == Err::<
                (u64, Seq<(u64, Seq<u8>, u32)>),
                Seq<char>,
            >(
                "LOAD segment at 0x"@ + text::hex(loads->Err_0 as nat)
                    + ": file data extends past end of file"@,
            )
            &&& machine == 183 && loads is Ok && loads->Ok_0.len() == 0 ==> r == Err::<
                (u64, Seq<(u64, Seq<u8>, u32)>),
                Seq<char>,
            >("No PT_LOAD segments found"@)
        }),
{
}

/// The segment holds the byte at address `addr`.
pub open spec fn covers(s: (u64, Seq<u8>, u32), addr: int) -> bool {
    s.0 <= addr < s.0 + s.1.len()
}

/// After loading, every address holds the byte of the last segment that covers
/// it, and what no segment covers is as it was. Memory begins at 0x4000_0000.
pub proof fn law_memory_after_loading(
    mem: Seq<u8>,
    loads: Seq<(u64, Seq<u8>, u32)>,
    addr: int,
    k: int,
)
    requires
        all_fit(loads, mem.len() as int),
        0x4000_0000 <= addr < 0x4000_0000 + mem.len(),
    ensures
        loaded(mem, loads).len() == mem.len(),
        0 <= k < loads.len() && covers(loads[k], addr) && (forall|j: int|
            k < j < loads.len() ==> !covers(#[trigger] loads[j], addr)) ==> loaded(mem, loads)[addr
            - 0x4000_0000] == loads[k].1[addr - loads[k].0],
        (forall|j: int| 0 <= j < loads.len() ==> !covers(#[trigger] loads[j], addr)) ==> loaded(
            mem,
            loads,
        )[addr - 0x4000_0000] == mem[addr - 0x4000_0000],
    decreases loads.len(),
{
    lemma_loaded_len(mem, loads);
    if loads.len() > 0 {
        let init = loads.drop_last();
        let last = loads[loads.len() - 1];
        assert(forall|j: int| 0 <= j < init.len() ==> #[trigger] init[j] == loads[j]);
        assert(segment_fits(last, mem.len() as int));
        assert(all_fit(init, mem.len() as int)) by {
            assert forall|j: int| 0 <= j < init.len() implies segment_fits(
                #[trigger] init[j],
                mem.len() as int,
            ) by {
                assert(segment_fits(loads[j], mem.len() as int));
            }
        }
        lemma_loaded_len(mem, init);
        law_memory_after_loading(mem, init, addr, k);
    }
}

/// A segment fits exactly if all of it lies in the guest's memory.
pub proof fn law_which_segments_fit(s: (u64, Seq<u8>, u32), size: int)
    ensures
        segment_fits(s, size) <==> 0x4000_0000 <= s.0 && s.0 + s.1.len() <= 0x4000_0000 + size,
{
}

} // verus!
