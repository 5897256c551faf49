//! Writing integers as text: decimal, as `Display` writes unsigned integers,
//! and four lowercase hexadecimal digits, as the format `{:04x}` writes a
//! `u16`.

use vstd::prelude::*;
use crate::text::push_char;

verus! {

/// The digit characters, lowest value first.
pub open spec fn digit_chars() -> Seq<char> {
    seq!['0', '1', '2', '3', '4', '5', '6', '7', '8', '9', 'a', 'b', 'c', 'd', 'e', 'f']
}

/// The digit characters in upper case, lowest value first.
pub open spec fn upper_digit_chars() -> Seq<char> {
    seq!['0', '1', '2', '3', '4', '5', '6', '7', '8', '9', 'A', 'B', 'C', 'D', 'E', 'F']
}

/// The hexadecimal digits of `n` written with the digit characters `table`
/// (`digit_chars()` for `{:x}`, `upper_digit_chars()` for `{:X}`), most
/// significant first, without leading zeros (`0` for zero).
pub open spec fn hex_text(n: nat, table: Seq<char>) -> Seq<char>
    decreases n,
{
    if n < 16 {
        seq![table[n as int]]
    } else {
        hex_text(n / 16, table).push(table[(n % 16) as int])
    }
}

/// `k` zeros, the padding that a width such as `{:08x}` adds.
pub open spec fn zeros(k: nat) -> Seq<char> {
    Seq::new(k, |i: int| '0')
}

/// The decimal digits of `n`, most significant first, without leading zeros
/// (`0` for zero).
pub open spec fn decimal(n: nat) -> Seq<char>
    decreases n,
{
    if n < 10 {
        seq![digit_chars()[n as int]]
    } else {
        decimal(n / 10).push(digit_chars()[(n % 10) as int])
    }
}

/// The four lowercase hexadecimal digits of `v`, most significant first.
pub open spec fn hex4(v: u16) -> Seq<char> {
    seq![
        digit_chars()[(v / 4096) as int],
        digit_chars()[(v / 256 % 16) as int],
        digit_chars()[(v / 16 % 16) as int],
        digit_chars()[(v % 16) as int],
    ]
}

/// The character of the digit `d`.
pub fn digit_char(d: u64) -> (c: char)
    requires
        d < 16,
    ensures
        c == digit_chars()[d as int],
{
    match d {
        0 => '0',
        1 => '1',
        2 => '2',
        3 => '3',
        4 => '4',
        5 => '5',
        6 => '6',
        7 => '7',
        8 => '8',
        9 => '9',
        10 => 'a',
        11 => 'b',
        12 => 'c',
        13 => 'd',
        14 => 'e',
        _ => 'f',
    }
}

/// Appends the decimal digits of `n` to `out`.
pub fn push_decimal(out: &mut String, n: u64)
    ensures
        final(out)@ == old(out)@ + decimal(n as nat),
    decreases n,
{
    if n < 10 {
        push_char(out, digit_char(n));
        assert(out@ =~= old(out)@ + decimal(n as nat));
    } else {
        push_decimal(out, n / 10);
        push_char(out, digit_char(n % 10));
        assert(out@ =~= old(out)@ + decimal(n as nat));
    }
}

/// Appends the four lowercase hexadecimal digits of `v` to `out`.
pub fn push_hex4(out: &mut String, v: u16)
    ensures
        final(out)@ == old(out)@ + hex4(v),
{
    let w: u64 = v as u64;
    push_char(out, digit_char(w / 4096));
    push_char(out, digit_char(w / 256 % 16));
    push_char(out, digit_char(w / 16 % 16));
    push_char(out, digit_char(w % 16));
    assert(out@ =~= old(out)@ + hex4(v));
}

} // verus!
