//! Little-endian integers in byte sequences.
//!
//! Guest memory, snapshots and register values all hold integers with the
//! least significant byte first. The model is arithmetic: byte `k` of `x` is
//! the `k`-th digit of `x` in base 256.

use vstd::prelude::*;

verus! {

/// 256 to the power `n`.
pub open spec fn pow256(n: nat) -> nat
    decreases n,
{
    if n == 0 {
        1
    } else {
        256 * pow256((n - 1) as nat)
    }
}

/// The `n` lowest bytes of `x`, least significant first.
pub open spec fn le_bytes(x: nat, n: nat) -> Seq<u8>
    decreases n,
{
    if n == 0 {
        Seq::empty()
    } else {
        seq![(x % 256) as u8] + le_bytes(x / 256, (n - 1) as nat)
    }
}

/// The `n` lowest bytes of `x`, most significant first.
pub open spec fn be_bytes(x: nat, n: nat) -> Seq<u8> {
    le_bytes(x, n).reverse()
}

/// The number that `s` encodes, least significant byte first.
pub open spec fn le_value(s: Seq<u8>) -> nat
    decreases s.len(),
{
    if s.len() == 0 {
        0
    } else {
        s[0] as nat + 256 * le_value(s.drop_first())
    }
}

/// `le_bytes(x, n)` has exactly `n` bytes.
pub proof fn lemma_le_bytes_len(x: nat, n: nat)
    ensures
        le_bytes(x, n).len() == n,
    decreases n,
{
    if n > 0 {
        lemma_le_bytes_len(x / 256, (n - 1) as nat);
    }
}

/// A number below `256^n` is what its `n` bytes decode to.
pub proof fn lemma_le_round_trip(x: nat, n: nat)
    requires
        x < pow256(n),
    ensures
        le_value(le_bytes(x, n)) == x,
        le_bytes(x, n).len() == n,
    decreases n,
{
    if n > 0 {
        let rest = le_bytes(x / 256, (n - 1) as nat);
        lemma_le_round_trip(x / 256, (n - 1) as nat);
        assert(le_bytes(x, n).drop_first() =~= rest);
    }
}

/// The `n` lowest bytes of a number hold its remainder modulo `256^n`.
pub proof fn lemma_le_bytes_low(x: nat, n: nat)
    ensures
        le_value(le_bytes(x, n)) == x % pow256(n),
    decreases n,
{
    lemma_pow256_le(0, n);
    if n > 0 {
        let m = (n - 1) as nat;
        lemma_le_bytes_low(x / 256, m);
        lemma_pow256_le(0, m);
        assert(le_bytes(x, n).drop_first() =~= le_bytes(x / 256, m));
        vstd::arithmetic::div_mod::lemma_breakdown(x as int, 256, pow256(m) as int);
    }
}

/// Bytes are what the number they encode encodes to.
pub proof fn lemma_le_value_round_trip(s: Seq<u8>)
    ensures
        le_bytes(le_value(s), s.len()) == s,
        le_value(s) < pow256(s.len()),
    decreases s.len(),
{
    if s.len() > 0 {
        let rest = s.drop_first();
        lemma_le_value_round_trip(rest);
        let x = le_value(s);
        assert(x % 256 == s[0] && x / 256 == le_value(rest));
        assert(seq![s[0]] + rest =~= s);
    }
}

/// The powers that bound 1-, 2-, 4- and 8-byte numbers.
pub proof fn lemma_pow256_values()
    ensures
        pow256(0) == 1,
        pow256(1) == 0x100,
        pow256(2) == 0x1_0000,
        pow256(4) == 0x1_0000_0000,
        pow256(8) == 0x1_0000_0000_0000_0000,
{
    reveal_with_fuel(pow256, 9);
}

/// Reads the `n`-byte little-endian number at `off`.
pub fn read_le(s: &[u8], off: usize, n: usize) -> (x: u64)
    requires
        n <= 8,
        off + n <= s@.len(),
    ensures
        x == le_value(s@.subrange(off as int, off + n)),
{
    let len: usize = s.len();
    let mut x: u64 = 0;
    let mut i: usize = n;
    proof {
        lemma_pow256_values();
        assert(s@.subrange(off + n, off + n) =~= Seq::<u8>::empty());
    }
    while i > 0
        invariant
            i <= n <= 8,
            off + n <= len,
            len == s@.len(),
            x == le_value(s@.subrange(off + i, off + n)),
        decreases i,
    {
        let ghost tail = s@.subrange(off + i, off + n);
        i = i - 1;
        let b: u8 = s[off + i];
        proof {
            let now = s@.subrange(off + i, off + n);
            assert(now.drop_first() =~= tail);
            lemma_le_value_round_trip(now);
            lemma_pow256_le(now.len(), 8);
            lemma_pow256_values();
        }
        x = x * 256 + b as u64;
    }
    x
}

/// `pow256` is monotone.
pub proof fn lemma_pow256_le(a: nat, b: nat)
    requires
        a <= b,
    ensures
        pow256(a) <= pow256(b),
        pow256(a) > 0,
    decreases b,
{
    if a < b {
        lemma_pow256_le(a, (b - 1) as nat);
    } else if b > 0 {
        lemma_pow256_le((a - 1) as nat, (b - 1) as nat);
    }
}

/// The `n` lowest bytes of `x` as a vector.
pub fn to_le(x: u64, n: usize) -> (v: Vec<u8>)
    requires
        n <= 8,
    ensures
        v@ == le_bytes(x as nat, n as nat),
{
    let mut v: Vec<u8> = Vec::new();
    let mut rest: u64 = x;
    let mut i: usize = 0;
    while i < n
        invariant
            i <= n,
            v@ + le_bytes(rest as nat, (n - i) as nat) == le_bytes(x as nat, n as nat),
        decreases n - i,
    {
        let b: u8 = (rest % 256) as u8;
        proof {
            assert(v@.push(b) + le_bytes((rest / 256) as nat, (n - i - 1) as nat) =~= v@ + le_bytes(
                rest as nat,
                (n - i) as nat,
            ));
        }
        v.push(b);
        rest = rest / 256;
        i = i + 1;
    }
    assert(v@ + Seq::<u8>::empty() =~= v@);
    v
}

/// `m` with `data` written over it at offset `off`.
pub open spec fn overlay(m: Seq<u8>, off: int, data: Seq<u8>) -> Seq<u8> {
    Seq::new(
        m.len(),
        |i: int|
            if off <= i < off + data.len() {
                data[i - off]
            } else {
                m[i]
            },
    )
}

/// Copies `data` into `mem` at offset `off`.
pub fn write_at(mem: &mut [u8], off: usize, data: &[u8])
    requires
        off + data@.len() <= old(mem)@.len(),
    ensures
        final(mem)@ == overlay(old(mem)@, off as int, data@),
{
    let n: usize = data.len();
    let ghost before = mem@;
    let ghost total: usize = mem.len();
    let mut i: usize = 0;
    while i < n
        invariant
            i <= n,
            n == data@.len(),
            off + n <= before.len(),
            before.len() == total,
            mem@.len() == before.len(),
            mem@ == overlay(before, off as int, data@.take(i as int)),
        decreases n - i,
    {
        mem[off + i] = data[i];
        proof {
            assert(mem@ =~= overlay(before, off as int, data@.take(i + 1)));
        }
        i = i + 1;
    }
    assert(data@.take(n as int) =~= data@);
}

/// The longest prefix of `s` that holds no zero byte: what `s` holds as a
/// NUL-terminated string.
pub open spec fn until_nul(s: Seq<u8>) -> Seq<u8>
    decreases s.len(),
{
    if s.len() == 0 || s[0] == 0 {
        Seq::empty()
    } else {
        seq![s[0]] + until_nul(s.drop_first())
    }
}

/// `s` holds no zero byte.
pub open spec fn nul_free(s: Seq<u8>) -> bool {
    forall|i: int| 0 <= i < s.len() ==> s[i] != 0
}

/// A NUL-free string followed by NUL, or by nothing, reads back as itself.
pub proof fn lemma_until_nul(s: Seq<u8>, n: int)
    requires
        0 <= n <= s.len(),
        forall|i: int| 0 <= i < n ==> s[i] != 0,
        n < s.len() ==> s[n] == 0,
    ensures
        until_nul(s) == s.take(n),
    decreases n,
{
    if n > 0 {
        let rest = s.drop_first();
        assert forall|i: int| 0 <= i < n - 1 implies rest[i] != 0 by {
            assert(s[i + 1] != 0);
        }
        lemma_until_nul(rest, n - 1);
        assert(seq![s[0]] + rest.take(n - 1) =~= s.take(n));
    } else {
        assert(s.take(0) =~= Seq::<u8>::empty());
    }
}

/// Length of the NUL-terminated string at `off`, looking at no more than
/// `limit` bytes.
pub fn nul_len(s: &[u8], off: usize, limit: usize) -> (n: usize)
    requires
        off + limit <= s@.len(),
    ensures
        n <= limit,
        s@.subrange(off as int, off + n) == until_nul(s@.subrange(off as int, off + limit)),
        nul_free(s@.subrange(off as int, off + n)),
        n < limit ==> s@[off + n] == 0,
{
    let total: usize = s.len();
    let mut n: usize = 0;
    while n < limit && s[off + n] != 0
        invariant
            n <= limit,
            off + limit <= total,
            total == s@.len(),
            forall|j: int| off <= j < off + n ==> s@[j] != 0,
        decreases limit - n,
    {
        n = n + 1;
    }
    proof {
        let window = s@.subrange(off as int, off + limit);
        assert forall|i: int| 0 <= i < n implies window[i] != 0 by {
            assert(s@[off + i] != 0);
        }
        lemma_until_nul(window, n as int);
        assert(window.take(n as int) =~= s@.subrange(off as int, off + n));
    }
    n
}

/// Compares two byte strings.
pub fn equal(a: &[u8], b: &[u8]) -> (r: bool)
    ensures
        r == (a@ == b@),
{
    if a.len() != b.len() {
        return false;
    }
    let n: usize = a.len();
    let mut i: usize = 0;
    while i < n
        invariant
            i <= n,
            n == a@.len() == b@.len(),
            forall|j: int| 0 <= j < i ==> a@[j] == b@[j],
        decreases n - i,
    {
        if a[i] != b[i] {
            return false;
        }
        i = i + 1;
    }
    assert(a@ =~= b@);
    true
}

/// ASCII text as bytes.
pub open spec fn ascii_bytes(s: Seq<char>) -> Seq<u8> {
    Seq::new(s.len(), |i: int| s[i] as u8)
}

/// The bytes of an ASCII text.
pub fn ascii(s: &'static str) -> (b: &'static [u8])
    requires
        vstd::utf8::is_ascii_chars(s@),
    ensures
        b@ == ascii_bytes(s@),
{
    broadcast use vstd::string::is_ascii_spec_bytes;

    let b = s.as_bytes();
    assert(vstd::string::is_ascii(s));
    assert(b@ =~= ascii_bytes(s@));
    b
}

/// The number that `s` encodes, most significant byte first.
pub open spec fn be_value(s: Seq<u8>) -> nat
    decreases s.len(),
{
    if s.len() == 0 {
        0
    } else {
        256 * be_value(s.drop_last()) + s.last() as nat
    }
}

/// Read backwards, bytes stand for the same number in the other byte order.
pub proof fn lemma_be_value_reversed(s: Seq<u8>)
    ensures
        be_value(s.reverse()) == le_value(s),
    decreases s.len(),
{
    if s.len() > 0 {
        lemma_be_value_reversed(s.drop_first());
        assert(s.reverse().drop_last() =~= s.drop_first().reverse());
        assert(s.reverse().last() == s[0]);
    }
}

// Laws

/// Byte `k` of a number is its `k`-th digit in base 256: first in little-endian
/// order, last in big-endian order.
pub proof fn law_bytes_are_digits(x: nat, n: nat, k: int)
    requires
        0 <= k < n,
    ensures
        le_bytes(x, n).len() == n,
        le_bytes(x, n)[k] == (x / pow256(k as nat)) % 256,
        be_bytes(x, n).len() == n,
        be_bytes(x, n)[n - 1 - k] == (x / pow256(k as nat)) % 256,
    decreases n,
{
    lemma_le_bytes_len(x, n);
    let rest = (n - 1) as nat;
    let p = pow256(k as nat);
    if k == 0 {
        assert(p == 1);
        assert(x / p == x) by (nonlinear_arith)
            requires
                p == 1,
        ;
    } else {
        let q = pow256((k - 1) as nat);
        lemma_pow256_positive((k - 1) as nat);
        law_bytes_are_digits(x / 256, rest, k - 1);
        vstd::arithmetic::div_mod::lemma_div_denominator(x as int, 256, q as int);
        assert(p == 256 * q);
        assert(le_bytes(x, n)[k] == le_bytes(x / 256, rest)[k - 1]);
    }
}

/// A number that fits in `n` bytes is what its big-endian bytes stand for.
pub proof fn law_big_endian_round_trip(x: nat, n: nat)
    requires
        x < pow256(n),
    ensures
        be_value(be_bytes(x, n)) == x,
{
    lemma_le_round_trip(x, n);
    lemma_be_value_reversed(le_bytes(x, n));
}

/// Powers of 256 are positive.
pub proof fn lemma_pow256_positive(n: nat)
    ensures
        pow256(n) > 0,
    decreases n,
{
    if n > 0 {
        lemma_pow256_positive((n - 1) as nat);
    }
}

/// Writing puts the data at its place and leaves every other byte alone.
pub proof fn law_overlay(m: Seq<u8>, off: int, data: Seq<u8>, i: int)
    requires
        0 <= off,
        off + data.len() <= m.len(),
        0 <= i < m.len(),
    ensures
        overlay(m, off, data).len() == m.len(),
        overlay(m, off, data).subrange(off, off + data.len()) == data,
        i < off || i >= off + data.len() ==> overlay(m, off, data)[i] == m[i],
{
    assert(overlay(m, off, data).subrange(off, off + data.len()) =~= data);
}

/// A string ends at its first NUL: what is read holds none, is what stands
/// before it, and what follows does not matter.
pub proof fn law_strings_end_at_the_first_nul(text: Seq<u8>, rest: Seq<u8>)
    requires
        nul_free(text),
    ensures
        until_nul(text) == text,
        until_nul(text.push(0) + rest) == text,
{
    lemma_until_nul(text, text.len() as int);
    assert(text.take(text.len() as int) =~= text);
    let s = text.push(0) + rest;
    lemma_until_nul(s, text.len() as int);
    assert(s.take(text.len() as int) =~= text);
}

} // verus!
