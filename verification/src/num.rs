//! Decimal integers: reading them the way `str::parse` does for the
//! primitive integer types, and writing them the way `Display` does.
use vstd::prelude::*;

verus! {

/// Why a text is not an integer of the wanted type; the variants and their
/// messages are those of `core::num::IntErrorKind`.
#[derive(Clone, Copy, Debug, PartialEq, Eq, Structural)]
pub enum IntErrorKind {
    Empty,
    InvalidDigit,
    PosOverflow,
    NegOverflow,
}

pub open spec fn is_digit(c: char) -> bool {
    '0' <= c && c <= '9'
}

pub open spec fn digit_value(c: char) -> int {
    (c as int) - ('0' as int)
}

/// Reads `d` from the left: each character must be a digit, and the value read
/// so far must stay within `[min, max]`; the first failure decides the error.
pub open spec fn scan_digits(d: Seq<char>, negative: bool, min: int, max: int) -> Result<
    int,
    IntErrorKind,
>
    decreases d.len(),
{
    if d.len() == 0 {
        Ok(0)
    } else {
        match scan_digits(d.drop_last(), negative, min, max) {
            Err(e) => Err(e),
            Ok(v) => {
                if !is_digit(d.last()) {
                    Err(IntErrorKind::InvalidDigit)
                } else if negative {
                    let w = v * 10 - digit_value(d.last());
                    if w < min {
                        Err(IntErrorKind::NegOverflow)
                    } else {
                        Ok(w)
                    }
                } else {
                    let w = v * 10 + digit_value(d.last());
                    if w > max {
                        Err(IntErrorKind::PosOverflow)
                    } else {
                        Ok(w)
                    }
                }
            },
        }
    }
}

/// What `str::parse` gives for an integer type whose range is `[min, max]`
/// (`signed` says whether a leading `-` is accepted).
pub open spec fn parse_int_spec(s: Seq<char>, signed: bool, min: int, max: int) -> Result<
    int,
    IntErrorKind,
> {
    if s.len() == 0 {
        Err(IntErrorKind::Empty)
    } else if s.len() == 1 && (s[0] == '+' || s[0] == '-') {
        Err(IntErrorKind::InvalidDigit)
    } else if s[0] == '+' {
        scan_digits(s.drop_first(), false, min, max)
    } else if s[0] == '-' && signed {
        scan_digits(s.drop_first(), true, min, max)
    } else {
        scan_digits(s, false, min, max)
    }
}

proof fn lemma_scan_in_range(d: Seq<char>, negative: bool, min: int, max: int)
    requires
        min <= 0 <= max,
    ensures
        scan_digits(d, negative, min, max) matches Ok(v) ==> min <= v <= max && (negative ==> v
            <= 0) && (!negative ==> v >= 0),
    decreases d.len(),
{
    if d.len() > 0 {
        lemma_scan_in_range(d.drop_last(), negative, min, max);
    }
}

proof fn lemma_scan_err_prefix(d: Seq<char>, k: int, negative: bool, min: int, max: int)
    requires
        0 <= k <= d.len(),
        scan_digits(d.take(k), negative, min, max) is Err,
    ensures
        scan_digits(d, negative, min, max) == scan_digits(d.take(k), negative, min, max),
    decreases d.len() - k,
{
    if k < d.len() {
        let t = d.take(k + 1);
        assert(t.drop_last() =~= d.take(k));
        lemma_scan_err_prefix(d, k + 1, negative, min, max);
    } else {
        assert(d.take(k) =~= d);
    }
}

fn scan_digits_exec(d: &[char], start: usize, negative: bool, min: i128, max: i128) -> (r: Result<
    i128,
    IntErrorKind,
>)
    requires
        start <= d@.len(),
        -0x1_0000_0000_0000_0000 <= min <= 0 <= max <= 0x1_0000_0000_0000_0000,
    ensures
        match scan_digits(d@.skip(start as int), negative, min as int, max as int) {
            Ok(v) => r == Ok::<i128, IntErrorKind>(v as i128),
            Err(e) => r == Err::<i128, IntErrorKind>(e),
        },
{
    let ghost ds = d@.skip(start as int);
    let mut v: i128 = 0;
    let mut i: usize = start;
    while i < d.len()
        invariant
            start <= i <= d@.len(),
            ds == d@.skip(start as int),
            -0x1_0000_0000_0000_0000 <= min <= 0 <= max <= 0x1_0000_0000_0000_0000,
            scan_digits(ds.take(i - start), negative, min as int, max as int) == Ok::<
                int,
                IntErrorKind,
            >(v as int),
            min <= v <= max,
            negative ==> v <= 0,
            !negative ==> v >= 0,
        decreases d@.len() - i,
    {
        let c = d[i];
        let ghost pre = ds.take(i - start);
        let ghost cur = ds.take(i + 1 - start);
        assert(cur.drop_last() =~= pre);
        assert(cur.last() == c);
        if !('0' <= c && c <= '9') {
            proof { lemma_scan_err_prefix(ds, i + 1 - start, negative, min as int, max as int); }
            return Err(IntErrorKind::InvalidDigit);
        }
        let dv: i128 = (c as u32 - '0' as u32) as i128;
        assert(dv == digit_value(c));
        if negative {
            let w = v * 10 - dv;
            if w < min {
                proof { lemma_scan_err_prefix(ds, i + 1 - start, negative, min as int, max as int); }
                return Err(IntErrorKind::NegOverflow);
            }
            v = w;
        } else {
            let w = v * 10 + dv;
            if w > max {
                proof { lemma_scan_err_prefix(ds, i + 1 - start, negative, min as int, max as int); }
                return Err(IntErrorKind::PosOverflow);
            }
            v = w;
        }
        i = i + 1;
    }
    assert(ds.take(d@.len() - start) =~= ds);
    Ok(v)
}

/// Reads `s` as `str::parse` does for an integer type with range `[min, max]`.
pub fn parse_int(s: &[char], signed: bool, min: i128, max: i128) -> (r: Result<i128, IntErrorKind>)
    requires
        -0x1_0000_0000_0000_0000 <= min <= 0 <= max <= 0x1_0000_0000_0000_0000,
    ensures
        match parse_int_spec(s@, signed, min as int, max as int) {
            Ok(v) => r == Ok::<i128, IntErrorKind>(v as i128),
            Err(e) => r == Err::<i128, IntErrorKind>(e),
        },
        r matches Ok(v) ==> min <= v <= max,
        parse_int_spec(s@, signed, min as int, max as int) matches Ok(v) ==> min <= v <= max,
{
    proof {
        lemma_scan_in_range(s@, false, min as int, max as int);
        lemma_scan_in_range(s@.drop_first(), false, min as int, max as int);
        lemma_scan_in_range(s@.drop_first(), true, min as int, max as int);
    }
    if s.len() == 0 {
        return Err(IntErrorKind::Empty);
    }
    if s.len() == 1 && (s[0] == '+' || s[0] == '-') {
        return Err(IntErrorKind::InvalidDigit);
    }
    if s[0] == '+' {
        assert(s@.skip(1) =~= s@.drop_first());
        scan_digits_exec(s, 1, false, min, max)
    } else if s[0] == '-' && signed {
        assert(s@.skip(1) =~= s@.drop_first());
        scan_digits_exec(s, 1, true, min, max)
    } else {
        assert(s@.skip(0) =~= s@);
        scan_digits_exec(s, 0, false, min, max)
    }
}

/// `str::parse::<u16>`.
pub fn parse_u16(s: &[char]) -> (r: Result<u16, IntErrorKind>)
    ensures
        match parse_int_spec(s@, false, 0, 0xffff) {
            Ok(v) => r == Ok::<u16, IntErrorKind>(v as u16),
            Err(e) => r == Err::<u16, IntErrorKind>(e),
        },
        parse_int_spec(s@, false, 0, 0xffff) matches Ok(v) ==> 0 <= v <= 0xffff,
{
    match parse_int(s, false, 0, 0xffff) {
        Ok(v) => {
            assert(0 <= v <= 0xffff);
            Ok(v as u16)
        },
        Err(e) => Err(e),
    }
}

/// `str::parse::<u32>`.
pub fn parse_u32(s: &[char]) -> (r: Result<u32, IntErrorKind>)
    ensures
        match parse_int_spec(s@, false, 0, 0xffff_ffff) {
            Ok(v) => r == Ok::<u32, IntErrorKind>(v as u32),
            Err(e) => r == Err::<u32, IntErrorKind>(e),
        },
        parse_int_spec(s@, false, 0, 0xffff_ffff) matches Ok(v) ==> 0 <= v <= 0xffff_ffff,
{
    match parse_int(s, false, 0, 0xffff_ffff) {
        Ok(v) => {
            assert(0 <= v <= 0xffff_ffff);
            Ok(v as u32)
        },
        Err(e) => Err(e),
    }
}

/// `str::parse::<u64>`.
pub fn parse_u64(s: &[char]) -> (r: Result<u64, IntErrorKind>)
    ensures
        match parse_int_spec(s@, false, 0, 0xffff_ffff_ffff_ffff) {
            Ok(v) => r == Ok::<u64, IntErrorKind>(v as u64),
            Err(e) => r == Err::<u64, IntErrorKind>(e),
        },
        parse_int_spec(s@, false, 0, 0xffff_ffff_ffff_ffff) matches Ok(v) ==> 0 <= v <= 0xffff_ffff_ffff_ffff,
{
    match parse_int(s, false, 0, 0xffff_ffff_ffff_ffff) {
        Ok(v) => {
            assert(0 <= v <= 0xffff_ffff_ffff_ffff);
            Ok(v as u64)
        },
        Err(e) => Err(e),
    }
}

/// `str::parse::<i32>`.
pub fn parse_i32(s: &[char]) -> (r: Result<i32, IntErrorKind>)
    ensures
        match parse_int_spec(s@, true, -0x8000_0000, 0x7fff_ffff) {
            Ok(v) => r == Ok::<i32, IntErrorKind>(v as i32),
            Err(e) => r == Err::<i32, IntErrorKind>(e),
        },
{
    match parse_int(s, true, -0x8000_0000, 0x7fff_ffff) {
        Ok(v) => {
            assert(-0x8000_0000 <= v <= 0x7fff_ffff);
            Ok(v as i32)
        },
        Err(e) => Err(e),
    }
}

/// `str::parse::<usize>`.
pub fn parse_usize(s: &[char]) -> (r: Result<usize, IntErrorKind>)
    ensures
        match parse_int_spec(s@, false, 0, usize::MAX as int) {
            Ok(v) => r == Ok::<usize, IntErrorKind>(v as usize),
            Err(e) => r == Err::<usize, IntErrorKind>(e),
        },
        parse_int_spec(s@, false, 0, usize::MAX as int) matches Ok(v) ==> 0 <= v <= usize::MAX as int,
{
    match parse_int(s, false, 0, usize::MAX as i128) {
        Ok(v) => {
            assert(0 <= v <= usize::MAX);
            Ok(v as usize)
        },
        Err(e) => Err(e),
    }
}

/// The message that `ParseIntError` displays for each kind.
pub open spec fn int_error_message(k: IntErrorKind) -> Seq<char> {
    match k {
        IntErrorKind::Empty => "cannot parse integer from empty string"@,
        IntErrorKind::InvalidDigit => "invalid digit found in string"@,
        IntErrorKind::PosOverflow => "number too large to fit in target type"@,
        IntErrorKind::NegOverflow => "number too small to fit in target type"@,
    }
}

impl IntErrorKind {
    /// The text that the matching `ParseIntError` displays.
    pub fn message(&self) -> (r: String)
        ensures
            r@ == int_error_message(*self),
    {
        match self {
            IntErrorKind::Empty => String::from_str("cannot parse integer from empty string"),
            IntErrorKind::InvalidDigit => String::from_str("invalid digit found in string"),
            IntErrorKind::PosOverflow => String::from_str("number too large to fit in target type"),
            IntErrorKind::NegOverflow => String::from_str("number too small to fit in target type"),
        }
    }
}

pub open spec fn digit_char(d: int) -> char {
    (('0' as int) + d) as char
}

/// The decimal digits of `n`, most significant first, without leading zeros
/// (`"0"` for zero).
pub open spec fn nat_digits(n: nat) -> Seq<char>
    decreases n,
{
    if n < 10 {
        seq![digit_char(n as int)]
    } else {
        nat_digits(n / 10).push(digit_char((n % 10) as int))
    }
}

/// How `Display` writes the integer `i`.
pub open spec fn int_text(i: int) -> Seq<char> {
    if i < 0 {
        seq!['-'] + nat_digits((-i) as nat)
    } else {
        nat_digits(i as nat)
    }
}

proof fn lemma_digit_char(d: int)
    requires
        0 <= d < 10,
    ensures
        is_digit(digit_char(d)),
        digit_value(digit_char(d)) == d,
{
}

/// The digits of `n` are digits, and there is at least one.
pub proof fn lemma_nat_digits_are_digits(n: nat)
    ensures
        nat_digits(n).len() > 0,
        forall|i: int| 0 <= i < nat_digits(n).len() ==> is_digit(#[trigger] nat_digits(n)[i]),
    decreases n,
{
    if n < 10 {
        lemma_digit_char(n as int);
    } else {
        lemma_nat_digits_are_digits(n / 10);
        lemma_digit_char((n % 10) as int);
        let d = nat_digits(n / 10);
        assert forall|i: int| 0 <= i < nat_digits(n).len() implies is_digit(#[trigger] nat_digits(n)[i]) by {
            if i < d.len() {
                assert(nat_digits(n)[i] == d[i]);
            }
        }
    }
}

/// Reading the digits of `n` gives `n` back, with the sign asked for, when
/// it lies in `[min, max]`.
proof fn lemma_scan_nat_digits(n: nat, negative: bool, min: int, max: int)
    requires
        min <= 0 <= max,
        negative ==> -n >= min,
        !negative ==> n <= max,
    ensures
        scan_digits(nat_digits(n), negative, min, max) == Ok::<int, IntErrorKind>(if negative {
            -n
        } else {
            n as int
        }),
    decreases n,
{
    let s = nat_digits(n);
    if n < 10 {
        lemma_digit_char(n as int);
        assert(s.drop_last() =~= Seq::<char>::empty());
        assert(s.last() == digit_char(n as int));
        assert(scan_digits(s.drop_last(), negative, min, max) == Ok::<int, IntErrorKind>(0));
    } else {
        let q = n / 10;
        let d = n % 10;
        assert(q * 10 + d == n && q <= n && 0 <= d < 10) by (nonlinear_arith)
            requires
                q == n / 10,
                d == n % 10,
                n >= 10,
        ;
        lemma_scan_nat_digits(q, negative, min, max);
        lemma_digit_char(d as int);
        assert(s.drop_last() =~= nat_digits(q));
        assert(s.last() == digit_char(d as int));
        if negative {
            assert(-(q as int) * 10 - d == -(n as int)) by (nonlinear_arith)
                requires
                    q * 10 + d == n,
            ;
        } else {
            assert((q as int) * 10 + d == n as int);
        }
    }
}

/// What `Display` writes for an integer in `[min, max]` reads back as the
/// same integer (negative values need a signed type).
pub proof fn lemma_int_text_reads_back(i: int, signed: bool, min: int, max: int)
    requires
        min <= 0 <= max,
        min <= i <= max,
        i < 0 ==> signed,
    ensures
        parse_int_spec(int_text(i), signed, min, max) == Ok::<int, IntErrorKind>(i),
{
    if i < 0 {
        let n = (-i) as nat;
        lemma_nat_digits_are_digits(n);
        lemma_scan_nat_digits(n, true, min, max);
        let t = int_text(i);
        assert(t[0] == '-');
        assert(t.drop_first() =~= nat_digits(n));
        assert(t.len() > 1);
    } else {
        let n = i as nat;
        lemma_nat_digits_are_digits(n);
        lemma_scan_nat_digits(n, false, min, max);
        assert(is_digit(nat_digits(n)[0]));
    }
}

fn digits_of(n: u64) -> (r: Vec<char>)
    ensures
        r@ == nat_digits(n as nat),
    decreases n,
{
    let d: u64 = n % 10;
    let c: char = if d == 0 {
        '0'
    } else if d == 1 {
        '1'
    } else if d == 2 {
        '2'
    } else if d == 3 {
        '3'
    } else if d == 4 {
        '4'
    } else if d == 5 {
        '5'
    } else if d == 6 {
        '6'
    } else if d == 7 {
        '7'
    } else if d == 8 {
        '8'
    } else {
        '9'
    };
    assert(c == digit_char(d as int));
    if n < 10 {
        let mut v: Vec<char> = Vec::new();
        v.push(c);
        assert(v@ =~= seq![digit_char(n as int)]);
        v
    } else {
        let mut v = digits_of(n / 10);
        v.push(c);
        v
    }
}

/// `n` written in decimal, as `n.to_string()` writes it.
pub fn nat_to_string(n: u64) -> (r: String)
    ensures
        r@ == nat_digits(n as nat),
{
    let d = digits_of(n);
    crate::text::string_from_chars(&d)
}

/// `i` written in decimal, as `i.to_string()` writes it.
pub fn int_to_string(i: i64) -> (r: String)
    ensures
        r@ == int_text(i as int),
{
    if i < 0 {
        let m: u64 = if i == i64::MIN {
            0x8000_0000_0000_0000u64
        } else {
            (-i) as u64
        };
        let mut v: Vec<char> = Vec::new();
        v.push('-');
        let d = digits_of(m);
        v.extend_from_slice(&d);
        assert(v@ =~= seq!['-'] + nat_digits((-(i as int)) as nat));
        crate::text::string_from_chars(&v)
    } else {
        let d = digits_of(i as u64);
        crate::text::string_from_chars(&d)
    }
}

} // verus!
