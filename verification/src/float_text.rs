//! Which texts `f32::from_str` accepts. The grammar, as the standard library
//! documents it:
//!
//! ```text
//! Float  ::= Sign? ( 'inf' | 'infinity' | 'nan' | Number )
//! Number ::= ( Digit+ | Digit+ '.' Digit* | Digit* '.' Digit+ ) Exp?
//! Exp    ::= 'e' Sign? Digit+
//! Sign   ::= [+-]
//! Digit  ::= [0-9]
//! ```
//!
//! where letters are matched without regard to case.
use vstd::prelude::*;

use crate::num::is_digit;
use crate::spotify_url::ascii_lower_char;

verus! {

pub open spec fn all_digits(s: Seq<char>) -> bool {
    forall|i: int| 0 <= i < s.len() ==> is_digit(#[trigger] s[i])
}

/// The position of the first `a` or `b` in `s`, or `s.len()` when neither occurs.
pub open spec fn first_of(s: Seq<char>, a: char, b: char) -> int
    decreases s.len(),
{
    if s.len() == 0 {
        0
    } else if s[0] == a || s[0] == b {
        0
    } else {
        1 + first_of(s.drop_first(), a, b)
    }
}

/// `Digit+ | Digit+ '.' Digit* | Digit* '.' Digit+`.
pub open spec fn is_mantissa(m: Seq<char>) -> bool {
    let d = first_of(m, '.', '.');
    let before = m.take(d);
    let after = if d < m.len() {
        m.skip(d + 1)
    } else {
        Seq::empty()
    };
    all_digits(before) && all_digits(after) && before.len() + after.len() > 0
}

/// `Sign? Digit+`.
pub open spec fn is_exponent_digits(e: Seq<char>) -> bool {
    let d = if e.len() > 0 && (e[0] == '+' || e[0] == '-') {
        e.drop_first()
    } else {
        e
    };
    d.len() > 0 && all_digits(d)
}

/// `Number` of the grammar.
pub open spec fn is_number(b: Seq<char>) -> bool {
    let e = first_of(b, 'e', 'E');
    if e < b.len() {
        is_mantissa(b.take(e)) && is_exponent_digits(b.skip(e + 1))
    } else {
        is_mantissa(b)
    }
}

pub open spec fn lower_ascii(s: Seq<char>) -> Seq<char> {
    s.map_values(|c: char| ascii_lower_char(c))
}

/// Whether `f32::from_str` accepts `s`.
pub open spec fn is_float_text(s: Seq<char>) -> bool {
    let b = if s.len() > 0 && (s[0] == '+' || s[0] == '-') {
        s.drop_first()
    } else {
        s
    };
    let l = lower_ascii(b);
    l == "inf"@ || l == "infinity"@ || l == "nan"@ || is_number(b)
}

fn first_of_exec(s: &[char], lo: usize, hi: usize, a: char, b: char) -> (r: usize)
    requires
        lo <= hi <= s@.len(),
    ensures
        r - lo == first_of(s@.subrange(lo as int, hi as int), a, b),
        lo <= r <= hi,
{
    let mut i = lo;
    while i < hi && s[i] != a && s[i] != b
        invariant
            lo <= i <= hi <= s@.len(),
            first_of(s@.subrange(lo as int, hi as int), a, b) == (i - lo) + first_of(
                s@.subrange(i as int, hi as int),
                a,
                b,
            ),
        decreases hi - i,
    {
        assert(s@.subrange(i as int, hi as int).drop_first() =~= s@.subrange(i + 1, hi as int));
        i = i + 1;
    }
    i
}

fn digits_between(s: &[char], lo: usize, hi: usize) -> (r: bool)
    requires
        lo <= hi <= s@.len(),
    ensures
        r == all_digits(s@.subrange(lo as int, hi as int)),
{
    let mut i = lo;
    while i < hi
        invariant
            lo <= i <= hi <= s@.len(),
            forall|k: int| lo <= k < i ==> is_digit(s@[k]),
        decreases hi - i,
    {
        if !('0' <= s[i] && s[i] <= '9') {
            assert(s@.subrange(lo as int, hi as int)[i - lo] == s@[i as int]);
            return false;
        }
        i = i + 1;
    }
    assert forall|k: int| 0 <= k < hi - lo implies is_digit(
        #[trigger] s@.subrange(lo as int, hi as int)[k],
    ) by {
        assert(s@.subrange(lo as int, hi as int)[k] == s@[lo + k]);
    }
    true
}

fn mantissa_ok(s: &[char], lo: usize, hi: usize) -> (r: bool)
    requires
        lo <= hi <= s@.len(),
    ensures
        r == is_mantissa(s@.subrange(lo as int, hi as int)),
{
    let ghost m = s@.subrange(lo as int, hi as int);
    let d = first_of_exec(s, lo, hi, '.', '.');
    assert(m.take(d - lo) =~= s@.subrange(lo as int, d as int));
    let before = digits_between(s, lo, d);
    let (after, alen) = if d < hi {
        assert(m.skip(d - lo + 1) =~= s@.subrange(d + 1, hi as int));
        (digits_between(s, d + 1, hi), hi - d - 1)
    } else {
        assert(Seq::<char>::empty() =~= s@.subrange(hi as int, hi as int));
        (digits_between(s, hi, hi), 0)
    };
    before && after && (d - lo) + alen > 0
}

fn exponent_ok(s: &[char], lo: usize, hi: usize) -> (r: bool)
    requires
        lo <= hi <= s@.len(),
    ensures
        r == is_exponent_digits(s@.subrange(lo as int, hi as int)),
{
    let ghost e = s@.subrange(lo as int, hi as int);
    let start = if lo < hi && (s[lo] == '+' || s[lo] == '-') {
        assert(e.drop_first() =~= s@.subrange(lo + 1, hi as int));
        lo + 1
    } else {
        lo
    };
    start < hi && digits_between(s, start, hi)
}

fn number_ok(s: &[char], lo: usize) -> (r: bool)
    requires
        lo <= s@.len(),
    ensures
        r == is_number(s@.skip(lo as int)),
{
    let hi = s.len();
    let ghost b = s@.skip(lo as int);
    assert(b =~= s@.subrange(lo as int, hi as int));
    let e = first_of_exec(s, lo, hi, 'e', 'E');
    if e < hi {
        assert(b.take(e - lo) =~= s@.subrange(lo as int, e as int));
        assert(b.skip(e - lo + 1) =~= s@.subrange(e + 1, hi as int));
        mantissa_ok(s, lo, e) && exponent_ok(s, e + 1, hi)
    } else {
        mantissa_ok(s, lo, hi)
    }
}

fn lower_equals(s: &[char], lo: usize, lit: &str) -> (r: bool)
    requires
        lo <= s@.len(),
    ensures
        r == (lower_ascii(s@.skip(lo as int)) == lit@),
{
    let t = crate::text::chars_of(lit);
    if s.len() - lo != t.len() {
        assert(lower_ascii(s@.skip(lo as int)).len() != lit@.len());
        return false;
    }
    let mut i: usize = 0;
    while i < t.len()
        invariant
            t@ == lit@,
            lo <= s@.len(),
            s@.len() - lo == t@.len(),
            i <= t@.len(),
            forall|k: int| 0 <= k < i ==> ascii_lower_char(s@[lo + k]) == t@[k],
        decreases t@.len() - i,
    {
        assert(lo + i < s.len());
        let c = s[lo + i];
        let l = if 'A' <= c && c <= 'Z' {
            ((c as u32) + 32) as u8 as char
        } else {
            c
        };
        assert(l == ascii_lower_char(c)) by {
            if 'A' <= c && c <= 'Z' {
                assert(((c as u32) + 32) as u8 as char == ((c as u32) + 32) as char);
            }
        }
        if l != t[i] {
            assert(lower_ascii(s@.skip(lo as int))[i as int] != lit@[i as int]);
            return false;
        }
        i = i + 1;
    }
    assert(lower_ascii(s@.skip(lo as int)) =~= lit@);
    true
}

/// Whether `f32::from_str` accepts the characters of `s`.
pub fn check_float_text(s: &[char]) -> (r: bool)
    ensures
        r == is_float_text(s@),
{
    let lo: usize = if s.len() > 0 && (s[0] == '+' || s[0] == '-') {
        1
    } else {
        0
    };
    assert(lo == 1 ==> s@.skip(1) =~= s@.drop_first());
    assert(lo == 0 ==> s@.skip(0) =~= s@);
    lower_equals(s, lo, "inf") || lower_equals(s, lo, "infinity") || lower_equals(s, lo, "nan")
        || number_ok(s, lo)
}

} // verus!
