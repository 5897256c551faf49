//! Parsing of integers from text, with the rules of `from_str_radix` and
//! `str::parse` for the standard integer types: an optional sign, then one
//! or more digits of the radix, read left to right.

use vstd::prelude::*;
use crate::numfmt::{decimal, digit_chars, hex4};
use crate::text::chars_of;

verus! {

/// Why a text is not an integer; the kinds that `core::num::IntErrorKind`
/// names for integer parsing.
#[derive(Debug, Clone, Copy, PartialEq, Eq, Structural)]
pub enum IntErrorKind {
    /// The text is empty.
    Empty,
    /// A character is not a digit of the radix, or the text is a lone sign.
    InvalidDigit,
    /// The value is above the type's maximum.
    PosOverflow,
    /// The value is below the type's minimum.
    NegOverflow,
}

/// The message of an integer parse error of kind `k`, as `Display` writes
/// it for `ParseIntError`.
pub open spec fn int_error_text(k: IntErrorKind) -> Seq<char> {
    match k {
        IntErrorKind::Empty => "cannot parse integer from empty string"@,
        IntErrorKind::InvalidDigit => "invalid digit found in string"@,
        IntErrorKind::PosOverflow => "number too large to fit in target type"@,
        IntErrorKind::NegOverflow => "number too small to fit in target type"@,
    }
}

impl IntErrorKind {
    /// The message of a parse error of this kind.
    pub fn description(&self) -> (r: &'static str)
        ensures
            r@ == int_error_text(*self),
    {
        match self {
            IntErrorKind::Empty => "cannot parse integer from empty string",
            IntErrorKind::InvalidDigit => "invalid digit found in string",
            IntErrorKind::PosOverflow => "number too large to fit in target type",
            IntErrorKind::NegOverflow => "number too small to fit in target type",
        }
    }
}

/// The value of `c` as a digit in `radix`: `0`-`9`, then `a`-`z` or `A`-`Z`
/// for ten and up.
pub open spec fn digit_value(c: char, radix: int) -> Option<int> {
    let u = c as u32;
    let d: int = if 48 <= u <= 57 {
        u - 48
    } else if 97 <= u <= 122 {
        u - 97 + 10
    } else if 65 <= u <= 90 {
        u - 65 + 10
    } else {
        radix
    };
    if d < radix {
        Some(d)
    } else {
        None
    }
}

/// Reads the digits `d` left to right into `acc`, failing at the first
/// character that is no digit or at the first step past `max`.
pub open spec fn scan_up(d: Seq<char>, radix: int, max: int, acc: int) -> Result<int, IntErrorKind>
    decreases d.len(),
{
    if d.len() == 0 {
        Ok(acc)
    } else {
        match digit_value(d[0], radix) {
            None => Err(IntErrorKind::InvalidDigit),
            Some(x) => if acc * radix + x > max {
                Err(IntErrorKind::PosOverflow)
            } else {
                scan_up(d.drop_first(), radix, max, acc * radix + x)
            },
        }
    }
}

/// As `scan_up`, for a negative number: each digit is subtracted.
pub open spec fn scan_down(d: Seq<char>, radix: int, min: int, acc: int) -> Result<
    int,
    IntErrorKind,
>
    decreases d.len(),
{
    if d.len() == 0 {
        Ok(acc)
    } else {
        match digit_value(d[0], radix) {
            None => Err(IntErrorKind::InvalidDigit),
            Some(x) => if acc * radix - x < min {
                Err(IntErrorKind::NegOverflow)
            } else {
                scan_down(d.drop_first(), radix, min, acc * radix - x)
            },
        }
    }
}

/// Reading one more digit continues from where the others left off.
pub proof fn lemma_scan_up_push(d: Seq<char>, c: char, radix: int, max: int, acc: int)
    ensures
        scan_up(d.push(c), radix, max, acc) == match scan_up(d, radix, max, acc) {
            Ok(v) => scan_up(seq![c], radix, max, v),
            Err(e) => Err(e),
        },
    decreases d.len(),
{
    if d.len() == 0 {
        assert(d.push(c) =~= seq![c]);
    } else {
        assert(d.push(c)[0] == d[0]);
        assert(d.push(c).drop_first() =~= d.drop_first().push(c));
        match digit_value(d[0], radix) {
            None => {},
            Some(x) => {
                lemma_scan_up_push(d.drop_first(), c, radix, max, acc * radix + x);
            },
        }
    }
}

/// The decimal digits of `n` read back as `n`, for any bound at least `n`,
/// and hold neither a sign nor anything but digits.
pub proof fn lemma_decimal_reads_back(n: nat, max: int)
    requires
        n <= max,
    ensures
        decimal(n).len() > 0,
        forall|i: int| 0 <= i < decimal(n).len() ==> digit_value(#[trigger] decimal(n)[i], 10) is Some,
        scan_up(decimal(n), 10, max, 0) == Ok::<int, IntErrorKind>(n as int),
    decreases n,
{
    assert forall|d: int| 0 <= d < 10 implies digit_value(#[trigger] digit_chars()[d], 10) == Some(d) by {
        assert(digit_chars()[d] == seq!['0', '1', '2', '3', '4', '5', '6', '7', '8', '9', 'a', 'b', 'c', 'd', 'e', 'f'][d]);
    }
    let t = decimal(n);
    if n < 10 {
        assert(t =~= seq![digit_chars()[n as int]]);
        assert(digit_value(t[0], 10) == Some(n as int));
        assert(t.drop_first() =~= Seq::<char>::empty());
        assert(scan_up(t.drop_first(), 10, max, n as int) == Ok::<int, IntErrorKind>(n as int));
    } else {
        let head = decimal(n / 10);
        let c = digit_chars()[(n % 10) as int];
        lemma_decimal_reads_back(n / 10, max);
        lemma_scan_up_push(head, c, 10, max, 0);
        assert(seq![c].drop_first() =~= Seq::<char>::empty());
        assert((n / 10) * 10 + n % 10 == n);
        assert(digit_value(seq![c][0], 10) == Some((n % 10) as int));
        assert(scan_up(seq![c].drop_first(), 10, max, n as int) == Ok::<int, IntErrorKind>(
            n as int,
        ));
        assert(scan_up(seq![c], 10, max, (n / 10) as int) == Ok::<int, IntErrorKind>(n as int));
        assert forall|i: int| 0 <= i < t.len() implies digit_value(#[trigger] t[i], 10) is Some by {
            if i < head.len() {
                assert(t[i] == head[i]);
            }
        }
    }
}

proof fn lemma_scan_up_bounds(d: Seq<char>, radix: int, max: int, acc: int)
    requires
        2 <= radix,
        0 <= acc <= max,
    ensures
        scan_up(d, radix, max, acc) matches Ok(v) ==> acc <= v <= max,
    decreases d.len(),
{
    if d.len() > 0 {
        if let Some(x) = digit_value(d[0], radix) {
            if acc * radix + x <= max {
                assert(acc * radix >= acc) by (nonlinear_arith)
                    requires
                        acc >= 0,
                        radix >= 2,
                ;
                lemma_scan_up_bounds(d.drop_first(), radix, max, acc * radix + x);
            }
        }
    }
}

proof fn lemma_scan_down_bounds(d: Seq<char>, radix: int, min: int, acc: int)
    requires
        2 <= radix,
        min <= acc <= 0,
    ensures
        scan_down(d, radix, min, acc) matches Ok(v) ==> min <= v <= acc,
    decreases d.len(),
{
    if d.len() > 0 {
        if let Some(x) = digit_value(d[0], radix) {
            if acc * radix - x >= min {
                assert(acc * radix <= acc) by (nonlinear_arith)
                    requires
                        acc <= 0,
                        radix >= 2,
                ;
                assert(x >= 0);
                lemma_scan_down_bounds(d.drop_first(), radix, min, acc * radix - x);
            }
        }
    }
}

/// A parsed value fits the type: it lies between its bounds.
pub proof fn lemma_parse_int_bounds(s: Seq<char>, radix: int, min: int, max: int)
    requires
        2 <= radix,
        min <= 0 <= max,
    ensures
        parse_int(s, radix, min, max) matches Ok(v) ==> min <= v <= max,
{
    if s.len() > 0 {
        lemma_scan_up_bounds(s.drop_first(), radix, max, 0);
        lemma_scan_up_bounds(s, radix, max, 0);
        lemma_scan_down_bounds(s.drop_first(), radix, min, 0);
    }
}

/// The four hex digits of a `u16` read back as it.
pub proof fn lemma_hex4_reads_back(v: u16)
    ensures
        parse_int(hex4(v), 16, 0, u16::MAX as int) == Ok::<int, IntErrorKind>(v as int),
{
    assert forall|d: int| 0 <= d < 16 implies digit_value(#[trigger] digit_chars()[d], 16) == Some(d) by {
        assert(digit_chars()[d] == seq!['0', '1', '2', '3', '4', '5', '6', '7', '8', '9', 'a', 'b', 'c', 'd', 'e', 'f'][d]);
    }
    let t = hex4(v);
    let a = (v / 4096) as int;
    let b = (v / 256 % 16) as int;
    let c = (v / 16 % 16) as int;
    let d = (v % 16) as int;
    let max = u16::MAX as int;
    assert(t.drop_first() =~= seq![digit_chars()[b], digit_chars()[c], digit_chars()[d]]);
    assert(t.drop_first().drop_first() =~= seq![digit_chars()[c], digit_chars()[d]]);
    assert(t.drop_first().drop_first().drop_first() =~= seq![digit_chars()[d]]);
    assert(t.drop_first().drop_first().drop_first().drop_first() =~= Seq::<char>::empty());
    assert(a * 16 + b == v / 256);
    assert((v / 256) * 16 + c == v / 16);
    assert((v / 16) * 16 + d == v);
    assert(scan_up(t.drop_first().drop_first().drop_first().drop_first(), 16, max, v as int) == Ok::<int, IntErrorKind>(v as int));
    assert(scan_up(t.drop_first().drop_first().drop_first(), 16, max, (v / 16) as int) == Ok::<int, IntErrorKind>(v as int));
    assert(scan_up(t.drop_first().drop_first(), 16, max, (v / 256) as int) == Ok::<int, IntErrorKind>(v as int));
    assert(scan_up(t.drop_first(), 16, max, a) == Ok::<int, IntErrorKind>(v as int));
    assert(scan_up(t, 16, max, 0) == Ok::<int, IntErrorKind>(v as int));
}

/// Leading zeros do not change what digits read as.
pub proof fn lemma_scan_up_zeros(d: Seq<char>, k: nat, radix: int, max: int)
    requires
        2 <= radix,
        0 <= max,
    ensures
        scan_up(Seq::new(k, |i: int| '0') + d, radix, max, 0) == scan_up(d, radix, max, 0),
    decreases k,
{
    if k > 0 {
        let s = Seq::new(k, |i: int| '0') + d;
        assert(s[0] == '0');
        assert(s.drop_first() =~= Seq::new((k - 1) as nat, |i: int| '0') + d);
        lemma_scan_up_zeros(d, (k - 1) as nat, radix, max);
    }
}

/// What parsing `s` in `radix` gives for an integer type with the bounds
/// `min` and `max`: a `-` sign is taken only where `min` is negative.
pub open spec fn parse_int(s: Seq<char>, radix: int, min: int, max: int) -> Result<
    int,
    IntErrorKind,
> {
    if s.len() == 0 {
        Err(IntErrorKind::Empty)
    } else if s.len() == 1 && (s[0] == '+' || s[0] == '-') {
        Err(IntErrorKind::InvalidDigit)
    } else if s[0] == '+' {
        scan_up(s.drop_first(), radix, max, 0)
    } else if s[0] == '-' && min < 0 {
        scan_down(s.drop_first(), radix, min, 0)
    } else {
        scan_up(s, radix, max, 0)
    }
}

/// The value of `c` as a digit in `radix`.
pub fn digit_of(c: char, radix: u32) -> (r: Option<u32>)
    requires
        2 <= radix <= 36,
    ensures
        match r {
            Some(d) => digit_value(c, radix as int) == Some(d as int),
            None => digit_value(c, radix as int) is None,
        },
{
    let u: u32 = c as u32;
    let d: u32 = if 48 <= u && u <= 57 {
        u - 48
    } else if 97 <= u && u <= 122 {
        u - 97 + 10
    } else if 65 <= u && u <= 90 {
        u - 65 + 10
    } else {
        radix
    };
    if d < radix {
        Some(d)
    } else {
        None
    }
}

/// Parses `s` as an unsigned 32-bit integer in `radix`, as
/// `u32::from_str_radix` does.
pub fn parse_u32(s: &str, radix: u32) -> (r: Result<u32, IntErrorKind>)
    requires
        2 <= radix <= 36,
    ensures
        match r {
            Ok(v) => parse_int(s@, radix as int, 0, u32::MAX as int) == Ok::<int, IntErrorKind>(
                v as int,
            ),
            Err(k) => parse_int(s@, radix as int, 0, u32::MAX as int) == Err::<int, IntErrorKind>(
                k,
            ),
        },
{
    let v = chars_of(s);
    let n: usize = v.len();
    if n == 0 {
        return Err(IntErrorKind::Empty);
    }
    if n == 1 && (v[0] == '+' || v[0] == '-') {
        return Err(IntErrorKind::InvalidDigit);
    }
    let mut i: usize = if v[0] == '+' {
        1
    } else {
        0
    };
    proof {
        if v@[0] == '+' {
            assert(v@.subrange(1, n as int) =~= s@.drop_first());
        } else {
            assert(v@.subrange(0, n as int) =~= s@);
        }
    }
    let mut acc: u64 = 0;
    while i < n
        invariant
            v@ == s@,
            n == v@.len(),
            i <= n,
            2 <= radix <= 36,
            acc <= u32::MAX,
            parse_int(s@, radix as int, 0, u32::MAX as int) == scan_up(
                v@.subrange(i as int, n as int),
                radix as int,
                u32::MAX as int,
                acc as int,
            ),
        decreases n - i,
    {
        assert(v@.subrange(i as int, n as int).drop_first() =~= v@.subrange(i + 1, n as int));
        match digit_of(v[i], radix) {
            None => {
                return Err(IntErrorKind::InvalidDigit);
            },
            Some(x) => {
                assert(acc * radix <= 0xffff_ffffu64 * 36) by (nonlinear_arith)
                    requires
                        acc <= 0xffff_ffffu64,
                        radix <= 36,
                ;
                let next: u64 = acc * (radix as u64) + (x as u64);
                if next > 0xffff_ffffu64 {
                    return Err(IntErrorKind::PosOverflow);
                }
                acc = next;
            },
        }
        i = i + 1;
    }
    assert(v@.subrange(i as int, n as int).len() == 0);
    Ok(acc as u32)
}

/// Parses `s` as a signed 64-bit integer in `radix`, as
/// `i64::from_str_radix` does (and `str::parse::<i64>` for radix ten).
pub fn parse_i64(s: &str, radix: u32) -> (r: Result<i64, IntErrorKind>)
    requires
        2 <= radix <= 36,
    ensures
        match r {
            Ok(v) => parse_int(s@, radix as int, i64::MIN as int, i64::MAX as int) == Ok::<
                int,
                IntErrorKind,
            >(v as int),
            Err(k) => parse_int(s@, radix as int, i64::MIN as int, i64::MAX as int) == Err::<
                int,
                IntErrorKind,
            >(k),
        },
{
    let v = chars_of(s);
    let n: usize = v.len();
    if n == 0 {
        return Err(IntErrorKind::Empty);
    }
    if n == 1 && (v[0] == '+' || v[0] == '-') {
        return Err(IntErrorKind::InvalidDigit);
    }
    let negative = v[0] == '-';
    let mut i: usize = if v[0] == '+' || v[0] == '-' {
        1
    } else {
        0
    };
    proof {
        if v@[0] == '+' || v@[0] == '-' {
            assert(v@.subrange(1, n as int) =~= s@.drop_first());
        } else {
            assert(v@.subrange(0, n as int) =~= s@);
        }
    }
    let mut acc: i128 = 0;
    while i < n
        invariant
            v@ == s@,
            n == v@.len(),
            i <= n,
            2 <= radix <= 36,
            i64::MIN <= acc <= i64::MAX,
            negative ==> acc <= 0,
            !negative ==> acc >= 0,
            negative ==> parse_int(s@, radix as int, i64::MIN as int, i64::MAX as int)
                == scan_down(
                v@.subrange(i as int, n as int),
                radix as int,
                i64::MIN as int,
                acc as int,
            ),
            !negative ==> parse_int(s@, radix as int, i64::MIN as int, i64::MAX as int)
                == scan_up(
                v@.subrange(i as int, n as int),
                radix as int,
                i64::MAX as int,
                acc as int,
            ),
        decreases n - i,
    {
        assert(v@.subrange(i as int, n as int).drop_first() =~= v@.subrange(i + 1, n as int));
        match digit_of(v[i], radix) {
            None => {
                return Err(IntErrorKind::InvalidDigit);
            },
            Some(x) => {
                assert(i64::MIN * 36 <= acc * radix <= i64::MAX * 36 && (acc <= 0 ==> acc * radix
                    <= 0) && (acc >= 0 ==> acc * radix >= 0)) by (nonlinear_arith)
                    requires
                        i64::MIN <= acc <= i64::MAX,
                        2 <= radix <= 36,
                ;
                if negative {
                    let next: i128 = acc * (radix as i128) - (x as i128);
                    if next < (i64::MIN as i128) {
                        return Err(IntErrorKind::NegOverflow);
                    }
                    acc = next;
                } else {
                    let next: i128 = acc * (radix as i128) + (x as i128);
                    if next > (i64::MAX as i128) {
                        return Err(IntErrorKind::PosOverflow);
                    }
                    acc = next;
                }
            },
        }
        i = i + 1;
    }
    assert(v@.subrange(i as int, n as int).len() == 0);
    Ok(acc as i64)
}

} // verus!
