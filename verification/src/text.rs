//! Numbers as text.
//!
//! Decimal and lower-case hexadecimal, written without leading zeros and read
//! with an optional leading `+`, as the template metadata, the command line
//! and the error messages have them.

use vstd::prelude::*;

verus! {

/// The digit of value `d`, lower case.
pub open spec fn digit_char(d: nat) -> char {
    if d < 10 {
        ('0' as nat + d) as char
    } else {
        ('a' as nat + (d - 10) as nat) as char
    }
}

/// `x` written in base `radix`.
pub open spec fn radix_text(x: nat, radix: nat) -> Seq<char>
    decreases x,
{
    if x < radix || radix < 2 {
        seq![digit_char(x)]
    } else {
        proof {
            assert(x / radix < x) by (nonlinear_arith)
                requires
                    x >= radix,
                    radix >= 2,
            ;
        }
        radix_text(x / radix, radix).push(digit_char(x % radix))
    }
}

/// `x` in decimal.
pub open spec fn decimal(x: nat) -> Seq<char> {
    radix_text(x, 10)
}

/// `x` in hexadecimal, lower case, without prefix.
pub open spec fn hex(x: nat) -> Seq<char> {
    radix_text(x, 16)
}

/// The value of `c` as a digit in base `radix` (at most 16), either case.
pub open spec fn digit_value(c: char, radix: nat) -> Option<nat> {
    let v: int = if '0' <= c <= '9' {
        c as int - '0' as int
    } else if 'a' <= c <= 'f' {
        c as int - 'a' as int + 10
    } else if 'A' <= c <= 'F' {
        c as int - 'A' as int + 10
    } else {
        16
    };
    if v < radix {
        Some(v as nat)
    } else {
        None
    }
}

/// The number that the digits `s` write; `None` if one of them is no digit.
pub open spec fn digits_value(s: Seq<char>, radix: nat) -> Option<nat>
    decreases s.len(),
{
    if s.len() == 0 {
        Some(0)
    } else {
        match (digits_value(s.drop_last(), radix), digit_value(s.last(), radix)) {
            (Some(v), Some(d)) => Some(v * radix + d),
            _ => None,
        }
    }
}

/// The number that `s` writes: an optional `+`, then at least one digit, and
/// no more than `max`.
pub open spec fn parse_spec(s: Seq<char>, radix: nat, max: nat) -> Option<nat> {
    let digits = if s.len() > 0 && s[0] == '+' {
        s.drop_first()
    } else {
        s
    };
    match digits_value(digits, radix) {
        Some(v) => if digits.len() > 0 && v <= max {
            Some(v)
        } else {
            None
        },
        None => None,
    }
}

/// The digit of value `d` as a string.
fn digit_str(d: u64) -> (s: &'static str)
    requires
        d < 16,
    ensures
        s@ == seq![digit_char(d as nat)],
{
    proof {
        reveal_strlit("0");
        reveal_strlit("1");
        reveal_strlit("2");
        reveal_strlit("3");
        reveal_strlit("4");
        reveal_strlit("5");
        reveal_strlit("6");
        reveal_strlit("7");
        reveal_strlit("8");
        reveal_strlit("9");
        reveal_strlit("a");
        reveal_strlit("b");
        reveal_strlit("c");
        reveal_strlit("d");
        reveal_strlit("e");
        reveal_strlit("f");
    }
    let s = match d {
        0 => "0",
        1 => "1",
        2 => "2",
        3 => "3",
        4 => "4",
        5 => "5",
        6 => "6",
        7 => "7",
        8 => "8",
        9 => "9",
        10 => "a",
        11 => "b",
        12 => "c",
        13 => "d",
        14 => "e",
        _ => "f",
    };
    assert(s@ =~= seq![digit_char(d as nat)]);
    s
}

/// Appends `x` in base `radix` to `out`.
fn push_radix(out: &mut String, x: u64, radix: u64)
    requires
        2 <= radix <= 16,
    ensures
        final(out)@ == old(out)@ + radix_text(x as nat, radix as nat),
    decreases x,
{
    if x >= radix {
        proof {
            assert(x / radix < x) by (nonlinear_arith)
                requires
                    x >= radix >= 2,
            ;
        }
        push_radix(out, x / radix, radix);
    }
    let ghost so_far = out@;
    out.append(digit_str(x % radix));
    proof {
        if x < radix {
            assert(x % radix == x) by (nonlinear_arith)
                requires
                    x < radix,
            ;
        }
        assert(out@ =~= old(out)@ + radix_text(x as nat, radix as nat));
    }
}

/// Appends `x` in decimal to `out`.
pub fn push_decimal(out: &mut String, x: u64)
    ensures
        final(out)@ == old(out)@ + decimal(x as nat),
{
    push_radix(out, x, 10)
}

/// Appends `x` in hexadecimal to `out`.
pub fn push_hex(out: &mut String, x: u64)
    ensures
        final(out)@ == old(out)@ + hex(x as nat),
{
    push_radix(out, x, 16)
}

/// The value of `c` as a digit.
fn digit(c: char, radix: u64) -> (d: Option<u64>)
    requires
        radix <= 16,
    ensures
        match d {
            Some(v) => digit_value(c, radix as nat) == Some(v as nat),
            None => digit_value(c, radix as nat) is None,
        },
{
    let n: u32 = c as u32;
    let v: u64 = if '0' <= c && c <= '9' {
        (n - 48) as u64
    } else if 'a' <= c && c <= 'f' {
        (n - 87) as u64
    } else if 'A' <= c && c <= 'F' {
        (n - 55) as u64
    } else {
        16
    };
    if v < radix {
        Some(v)
    } else {
        None
    }
}

/// Reads a number no greater than `max` in base `radix`, with an optional
/// leading `+`.
pub fn parse_number(s: &[char], radix: u64, max: u64) -> (r: Option<u64>)
    requires
        2 <= radix <= 16,
    ensures
        match r {
            Some(v) => parse_spec(s@, radix as nat, max as nat) == Some(v as nat),
            None => parse_spec(s@, radix as nat, max as nat) is None,
        },
{
    let n: usize = s.len();
    let start: usize = if n > 0 && s[0] == '+' {
        1
    } else {
        0
    };
    if start == n {
        assert(s@.subrange(start as int, n as int) =~= Seq::<char>::empty());
        assert(start == 1 ==> s@.drop_first() =~= Seq::<char>::empty());
        return None;
    }
    let ghost digits = s@.subrange(start as int, n as int);
    assert(digits =~= if s@.len() > 0 && s@[0] == '+' {
        s@.drop_first()
    } else {
        s@
    });
    let mut i: usize = start;
    let mut v: u64 = 0;
    while i < n
        invariant
            start <= i <= n,
            n == s@.len(),
            2 <= radix <= 16,
            v <= max,
            digits == s@.subrange(start as int, n as int),
            digits_value(digits.take(i - start), radix as nat) == Some(v as nat),
            parse_spec(s@, radix as nat, max as nat) == (match digits_value(
                digits,
                radix as nat,
            ) {
                Some(x) => if x <= max {
                    Some(x)
                } else {
                    None
                },
                None => None,
            }),
        decreases n - i,
    {
        let c: char = s[i];
        let ghost k = i - start;
        proof {
            assert(digits.take(k + 1).drop_last() =~= digits.take(k));
            assert(digits.take(k + 1).last() == c);
        }
        match digit(c, radix) {
            None => {
                proof {
                    lemma_prefix_bound(digits, radix as nat, k + 1);
                }
                return None;
            },
            Some(d) => {
                assert(v * radix <= u64::MAX * 16) by (nonlinear_arith)
                    requires
                        v <= u64::MAX,
                        radix <= 16,
                ;
                let wide: u128 = v as u128 * radix as u128 + d as u128;
                if wide > max as u128 {
                    proof {
                        lemma_prefix_bound(digits, radix as nat, k + 1);
                    }
                    return None;
                }
                v = wide as u64;
            },
        }
        i = i + 1;
    }
    assert(digits.take(n - start) =~= digits);
    Some(v)
}

/// A prefix that writes no number, or too large a one, cannot be mended by
/// what follows.
proof fn lemma_prefix_bound(s: Seq<char>, radix: nat, k: int)
    requires
        0 <= k <= s.len(),
        radix >= 1,
    ensures
        digits_value(s.take(k), radix) is None ==> digits_value(s, radix) is None,
        (digits_value(s, radix) is Some && digits_value(s.take(k), radix) is Some) ==> digits_value(
            s,
            radix,
        )->0 >= digits_value(s.take(k), radix)->0,
    decreases s.len() - k,
{
    if k == s.len() {
        assert(s.take(k) =~= s);
    } else {
        lemma_prefix_bound(s, radix, k + 1);
        assert(s.take(k + 1).drop_last() =~= s.take(k));
        match digits_value(s.take(k), radix) {
            Some(v) => {
                assert(v * radix >= v) by (nonlinear_arith)
                    requires
                        radix >= 1,
                ;
            },
            None => {},
        }
    }
}

/// The characters of `s`.
pub fn chars_of(s: &str) -> (v: Vec<char>)
    ensures
        v@ == s@,
{
    let mut v: Vec<char> = Vec::new();
    for c in it: s.chars()
        invariant
            v@ == s@.take(it.index() as int),
            it.seq() == s@,
    {
        v.push(c);
    }
    assert(s@.take(s@.len() as int) =~= s@);
    v
}

/// `s` as a string of its own, with the number `x` in decimal behind it.
pub fn with_decimal(s: &str, x: u64) -> (r: String)
    ensures
        r@ == s@ + decimal(x as nat),
{
    let mut r = String::from_str(s);
    push_decimal(&mut r, x);
    r
}

/// How the standard library shows `s` for debugging: in quotes, with escapes
/// where a character would not show as itself.
pub uninterp spec fn debug_text(s: Seq<char>) -> Seq<char>;

/// `<str as std::fmt::Debug>::fmt`, through `format!`: the debug text of a
/// string depends on the string alone. Which characters are escaped, and how,
/// is left unsaid.
#[verifier::external_body]
pub(crate) fn debug_of(s: &str) -> (shown: String)
    ensures
        shown@ == debug_text(s@),
{
    format!("{:?}", s)
}

/// `std::str::from_utf8`: the text that `b` encodes, if `b` is valid UTF-8.
#[verifier::external_body]
pub(crate) fn from_utf8(b: &[u8]) -> (s: Option<&str>)
    ensures
        match s {
            Some(t) => vstd::utf8::valid_utf8(b@) && t@ == vstd::utf8::decode_utf8(b@),
            None => !vstd::utf8::valid_utf8(b@),
        },
{
    std::str::from_utf8(b).ok()
}

/// `s` and `x` in hexadecimal, appended to `out`.
pub fn push_field(out: &mut String, s: &str, x: u64)
    ensures
        final(out)@ == old(out)@ + s@ + hex(x as nat),
{
    out.append(s);
    push_hex(out, x);
}

// Laws

/// What is written is read back: a number that fits reads as itself.
pub proof fn law_number_round_trip(x: nat, radix: nat, max: nat)
    requires
        2 <= radix <= 16,
        x <= max,
    ensures
        parse_spec(radix_text(x, radix), radix, max) == Some(x),
{
    lemma_radix_text(x, radix);
    let t = radix_text(x, radix);
    assert(digit_value(t[0], radix) is Some);
}

/// The text of a number is made of its digits.
pub proof fn lemma_radix_text(x: nat, radix: nat)
    requires
        2 <= radix <= 16,
    ensures
        radix_text(x, radix).len() >= 1,
        digits_value(radix_text(x, radix), radix) == Some(x),
        forall|i: int|
            0 <= i < radix_text(x, radix).len() ==> digit_value(
                #[trigger] radix_text(x, radix)[i],
                radix,
            ) is Some && !('A' <= radix_text(x, radix)[i] <= 'F'),
    decreases x,
{
    let t = radix_text(x, radix);
    if x < radix {
        assert(t.drop_last() =~= Seq::<char>::empty());
        reveal_with_fuel(digits_value, 2);
        assert(0 * radix == 0) by (nonlinear_arith);
    } else {
        assert(x / radix < x && x == (x / radix) * radix + x % radix && x % radix < radix)
            by (nonlinear_arith)
            requires
                x >= radix >= 2,
        ;
        lemma_radix_text(x / radix, radix);
        assert(t.drop_last() =~= radix_text(x / radix, radix));
        assert forall|i: int| 0 <= i < t.len() implies digit_value(#[trigger] t[i], radix) is Some
            && !('A' <= t[i] <= 'F') by {
            if i < t.len() - 1 {
                assert(t[i] == radix_text(x / radix, radix)[i]);
            }
        }
    }
}

/// Numbers are written with the usual digits, most significant first: a digit
/// for itself, and a number of more digits as what comes before its last digit
/// followed by that digit.
pub proof fn law_positional_notation(x: nat, d: nat, radix: nat)
    requires
        2 <= radix <= 16,
        d < radix,
    ensures
        radix_text(d, radix) == seq![digit_char(d)],
        x > 0 ==> radix_text(x * radix + d, radix) == radix_text(x, radix).push(digit_char(d)),
        d < 10 ==> digit_char(d) as int == '0' as int + d,
        d >= 10 ==> digit_char(d) as int == 'a' as int + (d - 10),
{
    if x > 0 {
        let y = x * radix + d;
        assert(y >= radix && y / radix == x && y % radix == d) by (nonlinear_arith)
            requires
                x > 0,
                radix >= 2,
                d < radix,
                y == x * radix + d,
        ;
    }
}

/// Reading digits goes from the left: each digit multiplies what came before by
/// the base. Letters count from ten in either case, and anything else is no
/// digit.
pub proof fn law_reading_digits(s: Seq<char>, c: char, radix: nat, v: nat, d: nat)
    requires
        2 <= radix <= 16,
        digits_value(s, radix) == Some(v),
        d < radix,
    ensures
        c as int == '0' as int + d && d < 10 ==> digits_value(s.push(c), radix) == Some(
            v * radix + d,
        ),
        (c as int == 'a' as int + d - 10 || c as int == 'A' as int + d - 10) && d >= 10
            ==> digits_value(s.push(c), radix) == Some(v * radix + d),
        !('0' <= c <= '9') && !('a' <= c <= 'f') && !('A' <= c <= 'F') ==> digits_value(
            s.push(c),
            radix,
        ) is None,
{
    assert(s.push(c).drop_last() =~= s);
}

/// A number may have one plus sign in front, needs at least one digit, and must
/// not exceed the limit.
pub proof fn law_what_is_a_number(s: Seq<char>, radix: nat, max: nat, v: nat)
    requires
        2 <= radix <= 16,
        s.len() > 0,
        digits_value(s, radix) == Some(v),
    ensures
        v <= max ==> parse_spec(s, radix, max) == Some(v),
        v <= max ==> parse_spec(seq!['+'] + s, radix, max) == Some(v),
        v > max ==> parse_spec(s, radix, max) is None,
        parse_spec(Seq::empty(), radix, max) is None,
        parse_spec(seq!['+'], radix, max) is None,
        parse_spec(seq!['-'] + s, radix, max) is None,
{
    assert((seq!['+'] + s).drop_first() =~= s);
    assert(seq!['+'].drop_first() =~= Seq::empty());
    lemma_first_is_digit(s, radix);
    lemma_bad_first(seq!['-'] + s, radix);
}

/// Digits begin with a digit.
proof fn lemma_first_is_digit(s: Seq<char>, radix: nat)
    requires
        s.len() > 0,
        digits_value(s, radix) is Some,
    ensures
        digit_value(s[0], radix) is Some,
    decreases s.len(),
{
    if s.len() > 1 {
        lemma_first_is_digit(s.drop_last(), radix);
    }
}

/// Text that does not begin with a digit is no number.
proof fn lemma_bad_first(s: Seq<char>, radix: nat)
    requires
        s.len() > 0,
        digit_value(s[0], radix) is None,
    ensures
        digits_value(s, radix) is None,
    decreases s.len(),
{
    if s.len() > 1 {
        lemma_bad_first(s.drop_last(), radix);
    }
}

/// `line` says `value` behind the label `label`.
pub open spec fn says(line: Seq<char>, label: Seq<char>, value: Seq<char>) -> bool {
    exists|a: Seq<char>, b: Seq<char>| line == #[trigger] (a + label + value + b)
}

/// A line made of what comes before a label, the label, its value and the rest.
pub proof fn lemma_says(
    line: Seq<char>,
    a: Seq<char>,
    label: Seq<char>,
    value: Seq<char>,
    b: Seq<char>,
)
    requires
        line =~= a + label + value + b,
    ensures
        says(line, label, value),
{
}

/// Decimal text has base ten and hexadecimal text base sixteen, the letters in
/// lower case and nothing in front.
pub proof fn law_decimal_and_hexadecimal(x: nat, d: nat)
    ensures
        d < 10 ==> decimal(d) == seq![('0' as nat + d) as char],
        d < 10 && x > 0 ==> decimal(10 * x + d) == decimal(x).push(('0' as nat + d) as char),
        d < 10 ==> hex(d) == seq![('0' as nat + d) as char],
        10 <= d < 16 ==> hex(d) == seq![('a' as nat + (d - 10) as nat) as char],
        d < 16 && x > 0 ==> hex(16 * x + d) == hex(x) + hex(d),
{
    if d < 10 {
        law_positional_notation(x, d, 10);
        assert(x * 10 == 10 * x);
    }
    if d < 16 {
        law_positional_notation(x, d, 16);
        assert(x * 16 == 16 * x);
        if x > 0 {
            assert(hex(16 * x + d) =~= hex(x) + hex(d));
        }
    }
}

} // verus!
