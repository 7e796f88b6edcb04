//! The heap of the bare-metal guest.
//!
//! A bump allocator: memory is handed out once, upwards, and never taken back.
//! The VM is torn down after each invocation. On top of it stand the C
//! allocation functions, which keep the size of each block in a header in
//! front of it.
//!
//! Addresses are guest addresses; the heap's memory is a slice that starts at
//! the heap's first address.

use crate::bytes;
use crate::layout::{HEAP_GPA, HEAP_SIZE};
use vstd::prelude::*;

verus! {

/// Bytes in front of a block that hold its size.
pub const MALLOC_HEADER_SIZE: u64 = 16;

/// The greatest size of an object: `isize::MAX` on the guest.
pub const MAX_OBJECT: u64 = 0x7FFF_FFFF_FFFF_FFFF;

/// The least multiple of `align` that is no less than `x`.
pub open spec fn align_up(x: int, align: int) -> int {
    (x + align - 1) / align * align
}

/// A size and alignment that can be asked for: rounded up to the alignment,
/// the size is no greater than the greatest object.
pub open spec fn valid_layout(size: int, align: int) -> bool {
    0 < align && size + align - 1 <= MAX_OBJECT
}

/// The bump allocator.
#[derive(Clone, Copy, Debug, PartialEq, Eq, Structural)]
pub struct BumpAllocator {
    /// First address that has not been handed out.
    pub next: u64,
    /// First address beyond the heap.
    pub end: u64,
}

impl BumpAllocator {
    /// What has been handed out lies in the heap.
    pub open spec fn wf(self) -> bool {
        HEAP_GPA <= self.next <= self.end && self.end == HEAP_GPA + HEAP_SIZE
    }

    /// The allocator of a fresh guest.
    pub fn new() -> (a: BumpAllocator)
        ensures
            a.wf(),
            a.next == HEAP_GPA,
    {
        BumpAllocator { next: HEAP_GPA, end: HEAP_GPA + HEAP_SIZE as u64 }
    }

    /// Hands out `size` bytes at a multiple of `align`; `None` if the heap
    /// cannot hold them.
    pub fn allocate(&mut self, size: u64, align: u64) -> (p: Option<u64>)
        requires
            old(self).wf(),
            valid_layout(size as int, align as int),
        ensures
            final(self).wf(),
            match p {
                Some(a) => a == align_up(old(self).next as int, align as int) && final(self).next
                    == a + size,
                None => align_up(old(self).next as int, align as int) + size > old(self).end
                    && *final(self) == *old(self),
            },
    {
        let current: u64 = self.next;
        proof {
            lemma_align_up(current as int, align as int);
        }
        let aligned: u64 = (current + (align - 1)) / align * align;
        let new_next: u64 = aligned + size;
        if new_next > self.end {
            return None;
        }
        self.next = new_next;
        Some(aligned)
    }

    /// Takes nothing back.
    pub fn dealloc(&mut self, ptr: u64)
        ensures
            *final(self) == *old(self),
    {
    }
}

/// Rounding up.
pub proof fn lemma_align_up(x: int, align: int)
    requires
        0 <= x,
        0 < align,
    ensures
        x <= align_up(x, align) <= x + align - 1,
        align_up(x, align) % align == 0,
{
    let q = (x + align - 1) / align;
    let r = (x + align - 1) % align;
    assert(x + align - 1 == q * align + r && 0 <= r < align) by (nonlinear_arith)
        requires
            q == (x + align - 1) / align,
            r == (x + align - 1) % align,
            0 <= x,
            0 < align,
    ;
    assert((q * align) % align == 0) by (nonlinear_arith)
        requires
            0 < align,
    ;
}

/// The C heap: the allocator together with the memory it hands out.
pub open spec fn heap_wf(a: BumpAllocator, mem: Seq<u8>) -> bool {
    a.wf() && mem.len() == HEAP_SIZE
}

/// Bytes that a block of `size` bytes takes, without its header.
pub open spec fn block_len(size: u64) -> int {
    if size == 0 {
        1
    } else {
        size as int
    }
}

/// Where a block of `size` bytes goes; `None` if the heap cannot hold it.
pub open spec fn block_at(a: BumpAllocator, size: u64) -> Option<int> {
    let p = align_up(a.next as int, 16) + MALLOC_HEADER_SIZE;
    if p + block_len(size) <= a.end {
        Some(p)
    } else {
        None
    }
}

/// The heap after `malloc(size)`.
pub open spec fn malloc_next(a: BumpAllocator, size: u64) -> BumpAllocator {
    match block_at(a, size) {
        Some(p) => BumpAllocator { next: (p + block_len(size)) as u64, end: a.end },
        None => a,
    }
}

/// Heap memory after `malloc(size)`: the size is in the header.
pub open spec fn malloc_mem(a: BumpAllocator, mem: Seq<u8>, size: u64) -> Seq<u8> {
    match block_at(a, size) {
        Some(p) => bytes::overlay(
            mem,
            p - MALLOC_HEADER_SIZE - HEAP_GPA,
            bytes::le_bytes(size as nat, 8),
        ),
        None => mem,
    }
}

/// The size in the header of the block at `p`.
pub open spec fn header(mem: Seq<u8>, p: int) -> nat {
    let at = p - MALLOC_HEADER_SIZE - HEAP_GPA;
    bytes::le_value(mem.subrange(at, at + 8))
}

/// The bytes of the block at `p`.
pub open spec fn contents(mem: Seq<u8>, p: int, size: int) -> Seq<u8> {
    mem.subrange(p - HEAP_GPA, p - HEAP_GPA + size)
}

/// `p` is a block of the heap, with its size in its header.
pub open spec fn is_block(a: BumpAllocator, mem: Seq<u8>, p: u64) -> bool {
    HEAP_GPA + MALLOC_HEADER_SIZE <= p && p + header(mem, p as int) <= a.next
}

/// Allocates `size` bytes.
pub fn malloc(a: &mut BumpAllocator, mem: &mut [u8], size: u64) -> (p: Option<u64>)
    requires
        heap_wf(*old(a), old(mem)@),
    ensures
        heap_wf(*final(a), final(mem)@),
        match p {
            Some(q) => block_at(*old(a), size) == Some(q as int),
            None => block_at(*old(a), size) is None,
        },
        *final(a) == malloc_next(*old(a), size),
        final(mem)@ == malloc_mem(*old(a), old(mem)@, size),
{
    proof {
        lemma_align_up(a.next as int, 16);
    }
    let len: u64 = if size == 0 {
        1
    } else {
        size
    };
    if len > MAX_OBJECT - 15 - MALLOC_HEADER_SIZE {
        return None;
    }
    match a.allocate(MALLOC_HEADER_SIZE + len, 16) {
        None => None,
        Some(ptr) => {
            let size_bytes = bytes::to_le(size, 8);
            proof {
                bytes::lemma_le_bytes_len(size as nat, 8);
            }
            bytes::write_at(mem, (ptr - HEAP_GPA) as usize, size_bytes.as_slice());
            Some(ptr + MALLOC_HEADER_SIZE)
        },
    }
}

/// Heap memory with `n` zero bytes at `p`.
pub open spec fn zeroed(mem: Seq<u8>, p: int, n: int) -> Seq<u8> {
    bytes::overlay(mem, p - HEAP_GPA, Seq::new(n as nat, |i: int| 0u8))
}

/// Allocates `count` times `size` zero bytes; `None` also if there is no such
/// number.
pub fn calloc(a: &mut BumpAllocator, mem: &mut [u8], count: u64, size: u64) -> (p: Option<u64>)
    requires
        heap_wf(*old(a), old(mem)@),
    ensures
        heap_wf(*final(a), final(mem)@),
        count * size > u64::MAX ==> p is None && *final(a) == *old(a) && final(mem)@ == old(mem)@,
        count * size <= u64::MAX ==> {
            let n = (count * size) as u64;
            &&& *final(a) == malloc_next(*old(a), n)
            &&& match p {
                Some(q) => block_at(*old(a), n) == Some(q as int) && final(mem)@ == zeroed(
                    malloc_mem(*old(a), old(mem)@, n),
                    q as int,
                    n as int,
                ),
                None => block_at(*old(a), n) is None && final(mem)@ == old(mem)@,
            }
        },
{
    let total: u64 = match count.checked_mul(size) {
        Some(t) => t,
        None => {
            return None;
        },
    };
    proof {
        lemma_align_up(a.next as int, 16);
    }
    let r = malloc(a, mem, total);
    match r {
        None => None,
        Some(ptr) => {
            let from: usize = (ptr - HEAP_GPA) as usize;
            let n: usize = total as usize;
            let ghost m0 = mem@;
            let mut i: usize = 0;
            while i < n
                invariant
                    i <= n,
                    n == total,
                    from == ptr - HEAP_GPA,
                    ptr >= HEAP_GPA,
                    from + n <= m0.len(),
                    m0.len() == HEAP_SIZE,
                    mem@ == zeroed(m0, ptr as int, i as int),
                decreases n - i,
            {
                mem[from + i] = 0;
                assert(mem@ =~= zeroed(m0, ptr as int, i + 1));
                i = i + 1;
            }
            assert(n == 0 ==> mem@ =~= zeroed(m0, ptr as int, 0));
            Some(ptr)
        },
    }
}

/// The lesser of two numbers.
pub open spec fn lesser(x: int, y: int) -> int {
    if x < y {
        x
    } else {
        y
    }
}

/// Heap memory after `realloc(ptr, new_size)` of a block that holds `old_size`
/// bytes: what both blocks can hold is copied.
pub open spec fn realloc_mem(a: BumpAllocator, mem: Seq<u8>, ptr: u64, new_size: u64) -> Seq<u8> {
    match block_at(a, new_size) {
        Some(p) => bytes::overlay(
            malloc_mem(a, mem, new_size),
            p - HEAP_GPA,
            contents(mem, ptr as int, lesser(header(mem, ptr as int) as int, new_size as int)),
        ),
        None => mem,
    }
}

/// Allocates `new_size` bytes and copies the block at `ptr` there, as far as
/// both reach. The old block stays as it is. Without a block this is `malloc`.
pub fn realloc(a: &mut BumpAllocator, mem: &mut [u8], ptr: Option<u64>, new_size: u64) -> (p:
    Option<u64>)
    requires
        heap_wf(*old(a), old(mem)@),
        ptr matches Some(q) ==> is_block(*old(a), old(mem)@, q),
    ensures
        heap_wf(*final(a), final(mem)@),
        match p {
            Some(q) => block_at(*old(a), new_size) == Some(q as int),
            None => block_at(*old(a), new_size) is None,
        },
        *final(a) == malloc_next(*old(a), new_size),
        final(mem)@ == (match ptr {
            Some(q) => realloc_mem(*old(a), old(mem)@, q, new_size),
            None => malloc_mem(*old(a), old(mem)@, new_size),
        }),
{
    let old_ptr: u64 = match ptr {
        None => {
            return malloc(a, mem, new_size);
        },
        Some(q) => q,
    };
    let ghost mem0 = mem@;
    let old_size: u64 = bytes::read_le(mem, (old_ptr - MALLOC_HEADER_SIZE - HEAP_GPA) as usize, 8);
    proof {
        lemma_align_up(a.next as int, 16);
        bytes::lemma_le_bytes_len(new_size as nat, 8);
    }
    let new_ptr = malloc(a, mem, new_size);
    match new_ptr {
        None => None,
        Some(to_ptr) => {
            let n: usize = if old_size < new_size {
                old_size as usize
            } else {
                new_size as usize
            };
            let from: usize = (old_ptr - HEAP_GPA) as usize;
            let to: usize = (to_ptr - HEAP_GPA) as usize;
            let ghost m1 = mem@;
            let ghost block = contents(mem0, old_ptr as int, n as int);
            assert forall|k: int| from <= k < from + n implies m1[k] == mem0[k] by {}
            let mut i: usize = 0;
            while i < n
                invariant
                    i <= n,
                    from + n <= to - MALLOC_HEADER_SIZE,
                    to + n <= m1.len(),
                    m1.len() == HEAP_SIZE == mem@.len(),
                    block.len() == n,
                    forall|k: int| 0 <= k < n ==> #[trigger] block[k] == m1[from + k],
                    mem@ == bytes::overlay(m1, to as int, block.take(i as int)),
                decreases n - i,
            {
                let b: u8 = mem[from + i];
                assert(b == block[i as int]);
                mem[to + i] = b;
                assert(mem@ =~= bytes::overlay(m1, to as int, block.take(i + 1)));
                i = i + 1;
            }
            assert(block.take(n as int) =~= block);
            Some(to_ptr)
        },
    }
}

/// Frees nothing.
pub fn free(a: &mut BumpAllocator, ptr: u64)
    ensures
        *final(a) == *old(a),
{
    a.dealloc(ptr)
}

// Laws

/// A block is aligned to 16 bytes, lies in the heap, and header and contents
/// lie beyond everything handed out before.
pub proof fn law_blocks_are_fresh(a: BumpAllocator, size: u64)
    requires
        a.wf(),
        block_at(a, size) is Some,
    ensures
        block_at(a, size)->0 % 16 == 0,
        a.next <= block_at(a, size)->0 - MALLOC_HEADER_SIZE,
        block_at(a, size)->0 + block_len(size) == malloc_next(a, size).next <= a.end,
{
    lemma_align_up(a.next as int, 16);
}

/// No later allocation touches what was handed out before: blocks of two
/// allocations do not overlap, and the first keeps its header and contents.
pub proof fn law_blocks_are_disjoint(
    a: BumpAllocator,
    mem: Seq<u8>,
    p: u64,
    size: u64,
)
    requires
        heap_wf(a, mem),
        is_block(a, mem, p),
    ensures
        is_block(malloc_next(a, size), malloc_mem(a, mem, size), p),
        header(malloc_mem(a, mem, size), p as int) == header(mem, p as int),
        contents(malloc_mem(a, mem, size), p as int, header(mem, p as int) as int) == contents(
            mem,
            p as int,
            header(mem, p as int) as int,
        ),
        block_at(a, size) is Some ==> p + header(mem, p as int) <= block_at(a, size)->0
            - MALLOC_HEADER_SIZE,
{
    lemma_align_up(a.next as int, 16);
    let m1 = malloc_mem(a, mem, size);
    bytes::lemma_le_bytes_len(size as nat, 8);
    let n = header(mem, p as int) as int;
    let at = p - MALLOC_HEADER_SIZE - HEAP_GPA;
    assert(m1.subrange(at, at + 8) =~= mem.subrange(at, at + 8));
    assert(contents(m1, p as int, n) =~= contents(mem, p as int, n));
}

/// A fresh block is a block of the heap that knows its size.
pub proof fn law_header_holds_size(a: BumpAllocator, mem: Seq<u8>, size: u64)
    requires
        heap_wf(a, mem),
        block_at(a, size) is Some,
    ensures
        header(malloc_mem(a, mem, size), block_at(a, size)->0) == size,
        is_block(malloc_next(a, size), malloc_mem(a, mem, size), block_at(a, size)->0 as u64),
{
    lemma_align_up(a.next as int, 16);
    let p = block_at(a, size)->0;
    let at = p - MALLOC_HEADER_SIZE - HEAP_GPA;
    bytes::lemma_le_bytes_len(size as nat, 8);
    bytes::lemma_pow256_values();
    bytes::lemma_le_round_trip(size as nat, 8);
    assert(malloc_mem(a, mem, size).subrange(at, at + 8) =~= bytes::le_bytes(size as nat, 8));
}

/// A block keeps its contents through `realloc`, as far as the new size
/// reaches, and the old block is left as it was.
pub proof fn law_realloc_keeps_contents(a: BumpAllocator, mem: Seq<u8>, p: u64, new_size: u64)
    requires
        heap_wf(a, mem),
        is_block(a, mem, p),
        block_at(a, new_size) is Some,
    ensures
        ({
            let n = lesser(header(mem, p as int) as int, new_size as int);
            let q = block_at(a, new_size)->0;
            let m = realloc_mem(a, mem, p, new_size);
            &&& contents(m, q, n) == contents(mem, p as int, n)
            &&& contents(m, p as int, header(mem, p as int) as int) == contents(
                mem,
                p as int,
                header(mem, p as int) as int,
            )
            &&& header(m, q) == new_size
        }),
{
    lemma_align_up(a.next as int, 16);
    let n = lesser(header(mem, p as int) as int, new_size as int);
    let q = block_at(a, new_size)->0;
    let m1 = malloc_mem(a, mem, new_size);
    let m = realloc_mem(a, mem, p, new_size);
    bytes::lemma_le_bytes_len(new_size as nat, 8);
    law_header_holds_size(a, mem, new_size);
    let at = q - MALLOC_HEADER_SIZE - HEAP_GPA;
    assert(m.subrange(at, at + 8) =~= m1.subrange(at, at + 8));
    assert(contents(m, q, n) =~= contents(mem, p as int, n));
    let len = header(mem, p as int) as int;
    assert(contents(m, p as int, len) =~= contents(mem, p as int, len));
}

/// Rounding up gives the least multiple that is no less.
pub proof fn law_align_up_is_least(x: int, align: int, other: int)
    requires
        0 <= x <= other,
        0 < align,
        other % align == 0,
    ensures
        x <= align_up(x, align) <= other,
        align_up(x, align) % align == 0,
        align_up(x, align) < x + align,
{
    lemma_align_up(x, align);
    let a = align_up(x, align);
    if other < a {
        let d = a - other;
        vstd::arithmetic::div_mod::lemma_sub_mod_noop(a, other, align);
        vstd::arithmetic::div_mod::lemma_small_mod(0, align as nat);
        assert(d % align == 0);
        assert(0 < d < align);
        vstd::arithmetic::div_mod::lemma_small_mod(d as nat, align as nat);
    }
}

/// Where `malloc` puts a block: behind everything handed out before, in the
/// first 16 bytes of whole alignment the header and behind it the block. A block
/// of no bytes takes one, so that no two blocks share an address. It fails
/// exactly if the block would reach beyond the heap.
pub proof fn law_where_blocks_go(a: BumpAllocator, size: u64)
    requires
        a.wf(),
    ensures
        ({
            let len = if size > 0 {
                size as int
            } else {
                1
            };
            &&& block_at(a, size) matches Some(p) ==> {
                &&& p % 16 == 0
                &&& a.next + 16 <= p < a.next + 32
                &&& malloc_next(a, size).next == p + len
                &&& p + len <= a.end
            }
            &&& block_at(a, size) is None ==> malloc_next(a, size) == a && a.next + 31 + len
                > a.end
            &&& a.next + 31 + len <= a.end ==> block_at(a, size) is Some
            &&& malloc_next(a, size).end == a.end
        }),
{
    lemma_align_up(a.next as int, 16);
}

/// A fresh heap of 60 MiB begins at 0x4020_0000, and its first block 16 bytes
/// behind that; it holds a block of anything up to all the rest.
pub proof fn law_fresh_heap(size: u64)
    ensures
        ({
            let a = BumpAllocator { next: HEAP_GPA, end: (HEAP_GPA + HEAP_SIZE) as u64 };
            &&& a.wf()
            &&& 0 < size <= 0x3C0_0000 - 16 ==> block_at(a, size) == Some(0x4020_0010int)
            &&& size > 0x3C0_0000 - 16 ==> block_at(a, size) is None
        }),
{
}

/// `malloc` writes the size into the header, eight little-endian bytes 16 bytes
/// in front of the block, and nothing anywhere else.
pub proof fn law_malloc_writes_the_header_only(
    a: BumpAllocator,
    mem: Seq<u8>,
    size: u64,
    i: int,
)
    requires
        heap_wf(a, mem),
        0 <= i < mem.len(),
    ensures
        malloc_mem(a, mem, size).len() == mem.len(),
        block_at(a, size) is None ==> malloc_mem(a, mem, size) == mem,
        block_at(a, size) matches Some(p) ==> {
            let at = p - 16 - 0x4020_0000;
            &&& i < at || i >= at + 8 ==> malloc_mem(a, mem, size)[i] == mem[i]
            &&& bytes::le_value(malloc_mem(a, mem, size).subrange(at, at + 8)) == size
        },
{
    lemma_align_up(a.next as int, 16);
    bytes::lemma_le_bytes_len(size as nat, 8);
    if let Some(p) = block_at(a, size) {
        let at = p - 16 - 0x4020_0000;
        bytes::lemma_pow256_values();
        bytes::lemma_le_round_trip(size as nat, 8);
        assert(malloc_mem(a, mem, size).subrange(at, at + 8) =~= bytes::le_bytes(size as nat, 8));
    }
}

/// What `calloc` hands out holds zeros, and nothing else is cleared.
pub proof fn law_calloc_clears_the_block(mem: Seq<u8>, p: int, n: int, i: int)
    requires
        0x4020_0000 <= p,
        0 <= n,
        p - 0x4020_0000 + n <= mem.len(),
        0 <= i < mem.len(),
    ensures
        zeroed(mem, p, n).len() == mem.len(),
        p - 0x4020_0000 <= i < p - 0x4020_0000 + n ==> zeroed(mem, p, n)[i] == 0,
        i < p - 0x4020_0000 || i >= p - 0x4020_0000 + n ==> zeroed(mem, p, n)[i] == mem[i],
{
}

/// `realloc` moves a block with its bytes: each byte that both the old block
/// and the new one have is found at the same place in the new one.
pub proof fn law_realloc_moves_bytes(
    a: BumpAllocator,
    mem: Seq<u8>,
    p: u64,
    new_size: u64,
    i: int,
)
    requires
        heap_wf(a, mem),
        is_block(a, mem, p),
        block_at(a, new_size) is Some,
        0 <= i < header(mem, p as int),
        i < new_size,
    ensures
        realloc_mem(a, mem, p, new_size)[block_at(a, new_size)->0 - 0x4020_0000 + i] == mem[p
            - 0x4020_0000 + i],
{
    lemma_align_up(a.next as int, 16);
    bytes::lemma_le_bytes_len(new_size as nat, 8);
}

} // verus!
