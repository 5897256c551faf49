//! Vendor Defined Objects of USB Power Delivery: the ID Header VDO of a port
//! partner or cable plug, and the Cable VDO of an e-marked cable.

use vstd::prelude::*;
use crate::numfmt::{digit_chars, hex_text, upper_digit_chars, zeros};
use crate::numparse::{
    IntErrorKind,
    digit_value,
    int_error_text,
    lemma_scan_up_push,
    lemma_scan_up_zeros,
    parse_int,
    parse_u32,
    scan_up,
};
use crate::text::{
    chars_of,
    lemma_trim_unchanged,
    push_chars,
    push_str,
    trim,
    trim_end,
    trim_start,
    trim_str,
};

verus! {

/// Product type of a cable plug (ID Header bits 29..27).
#[derive(Debug, Clone, Copy, PartialEq, Eq, Structural)]
pub enum ProductType {
    PassiveCable,
    ActiveCable,
    AlternateModeAdapter,
    Hub,
    Peripheral,
    Other(u8),
}

/// A decoded ID Header VDO.
#[derive(Debug, Clone, Copy, PartialEq, Eq, Structural)]
pub struct IdHeader {
    /// The VDO as read, every bit of it.
    pub raw: u32,
    /// USB vendor ID (bits 15..0).
    pub usb_vid: u16,
    /// Product type of a cable plug (bits 29..27); `None` when the field is 0.
    pub product_type_cable: Option<ProductType>,
    /// Modal operation supported (bit 26).
    pub modal_operation: bool,
    /// USB communications capable as host (bit 31).
    pub usb_host: bool,
    /// USB communications capable as device (bit 30).
    pub usb_device: bool,
}

/// Maximum current that a cable carries (Cable VDO bits 6..5).
#[derive(Debug, Clone, Copy, PartialEq, Eq, Structural)]
pub enum CableCurrent {
    Reserved,
    A3,
    A5,
    Unknown(u8),
}

/// Highest USB signalling that a cable supports (Cable VDO bits 2..0, USB
/// Highest Speed): 000b USB 2.0, 001b USB 3.2 Gen1, 010b USB 3.2 / USB4
/// Gen2, 011b USB4 Gen3 and 100b USB4 Gen4 (both `Usb4`).
#[derive(Debug, Clone, Copy, PartialEq, Eq, Structural)]
pub enum CableSpeed {
    Usb20,
    Usb32Gen1,
    Usb32Gen2,
    Usb4,
    Unknown(u8),
}

/// A decoded Cable VDO.
#[derive(Debug, Clone, Copy, PartialEq, Eq, Structural)]
pub struct CableVdo {
    /// The VDO as read, every bit of it.
    pub raw: u32,
    pub speed: CableSpeed,
    pub max_current: CableCurrent,
}

/// Why a VDO could not be read.
#[derive(Debug)]
pub enum VdoError {
    /// The text is not a hexadecimal 32-bit number; `input` is the text
    /// after trimming.
    InvalidHex { input: String, kind: IntErrorKind },
}

/// What `{:?}` writes for the text `s`: the text in double quotes, with the
/// characters that `char::escape_debug` escapes written as escapes.
pub uninterp spec fn debug_quoted(s: Seq<char>) -> Seq<char>;

/// Whether every character of `s` is printable ASCII (space to `~`).
pub open spec fn printable_ascii(s: Seq<char>) -> bool {
    forall|i: int| 0 <= i < s.len() ==> 0x20 <= #[trigger] (s[i] as u32) <= 0x7e
}

/// Printable ASCII text with `"` and `\` escaped by a backslash.
pub open spec fn escape_ascii(s: Seq<char>) -> Seq<char>
    decreases s.len(),
{
    if s.len() == 0 {
        Seq::empty()
    } else if s[0] == '"' || s[0] == '\\' {
        seq!['\\', s[0]] + escape_ascii(s.drop_first())
    } else {
        seq![s[0]] + escape_ascii(s.drop_first())
    }
}

/// `format!("{:?}", s)`: the text as `Debug` writes it. For printable ASCII
/// the result is stated: the text in double quotes, with `"` and `\`
/// escaped. For other characters (controls, and characters outside ASCII,
/// which `Debug` keeps or writes as `\u{..}` by Unicode's tables) nothing
/// is stated beyond the name `debug_quoted`.
#[verifier::external_body]
fn debug_text(s: &str) -> (r: String)
    ensures
        r@ == debug_quoted(s@),
        printable_ascii(s@) ==> r@ == seq!['"'] + escape_ascii(s@) + seq!['"'],
{
    format!("{:?}", s)
}

impl VdoError {
    /// The message of the error, as in `invalid VDO hex "0xzz": invalid
    /// digit found in string`.
    pub fn message(&self) -> (r: String)
        ensures
            match self {
                VdoError::InvalidHex { input, kind } => r@ == "invalid VDO hex "@ + debug_quoted(
                    input@,
                ) + ": "@ + int_error_text(*kind),
            },
    {
        match self {
            VdoError::InvalidHex { input, kind } => {
                let mut r = String::new();
                push_str(&mut r, "invalid VDO hex ");
                let quoted = debug_text(input.as_str());
                push_str(&mut r, quoted.as_str());
                push_str(&mut r, ": ");
                push_str(&mut r, kind.description());
                r
            },
        }
    }
}

/// The speed named by the three-bit field value `bits`, as the USB Power
/// Delivery specification assigns them.
pub open spec fn speed_of(bits: int) -> CableSpeed {
    if bits == 0 {
        CableSpeed::Usb20
    } else if bits == 1 {
        CableSpeed::Usb32Gen1
    } else if bits == 2 {
        CableSpeed::Usb32Gen2
    } else if bits == 3 || bits == 4 {
        CableSpeed::Usb4
    } else {
        CableSpeed::Unknown(bits as u8)
    }
}

/// The current named by the two-bit field value `bits`.
pub open spec fn current_of(bits: int) -> CableCurrent {
    if bits == 0 {
        CableCurrent::Reserved
    } else if bits == 1 {
        CableCurrent::A3
    } else if bits == 2 {
        CableCurrent::A5
    } else {
        CableCurrent::Unknown(bits as u8)
    }
}

/// The product type named by the three-bit field value `bits`.
pub open spec fn product_type_of(bits: int) -> Option<ProductType> {
    if bits == 0 {
        None
    } else if bits == 3 {
        Some(ProductType::PassiveCable)
    } else if bits == 4 {
        Some(ProductType::ActiveCable)
    } else {
        Some(ProductType::Other(bits as u8))
    }
}

/// The Cable VDO `raw` decoded: speed from bits 2..0, current from bits 6..5.
pub open spec fn cable_vdo_of(raw: u32) -> CableVdo {
    CableVdo { raw, speed: speed_of((raw % 8) as int), max_current: current_of(((raw / 32) % 4) as int) }
}

/// The ID Header VDO `raw` decoded.
pub open spec fn id_header_of(raw: u32) -> IdHeader {
    IdHeader {
        raw,
        usb_vid: (raw % 0x10000) as u16,
        product_type_cable: product_type_of(((raw / 0x800_0000) % 8) as int),
        modal_operation: (raw / 0x400_0000) % 2 == 1,
        usb_host: (raw / 0x8000_0000) % 2 == 1,
        usb_device: (raw / 0x4000_0000) % 2 == 1,
    }
}

/// `t` without a leading `0x` or `0X`.
pub open spec fn strip_hex_prefix(t: Seq<char>) -> Seq<char> {
    if t.len() >= 2 && t[0] == '0' && (t[1] == 'x' || t[1] == 'X') {
        t.subrange(2, t.len() as int)
    } else {
        t
    }
}

/// What a VDO written as text reads as: the text trimmed, an optional `0x`
/// or `0X` taken off, the rest read as a hexadecimal `u32`.
pub open spec fn vdo_hex_value(s: Seq<char>) -> Result<int, IntErrorKind> {
    parse_int(strip_hex_prefix(trim(s)), 16, 0, u32::MAX as int)
}

/// Whether every character of `d` is a hexadecimal digit, and there is one.
pub open spec fn hex_digits(d: Seq<char>) -> bool {
    d.len() > 0 && forall|i: int| 0 <= i < d.len() ==> digit_value(#[trigger] d[i], 16) is Some
}

/// A VDO reads the same with or without `0x` or `0X` before its digits.
pub proof fn lemma_hex_prefix_optional(d: Seq<char>)
    requires
        hex_digits(d),
    ensures
        vdo_hex_value(seq!['0', 'x'] + d) == vdo_hex_value(d),
        vdo_hex_value(seq!['0', 'X'] + d) == vdo_hex_value(d),
        vdo_hex_value(d) == parse_int(d, 16, 0, u32::MAX as int),
{
    assert(digit_value(d[0], 16) is Some);
    assert(digit_value(d.last(), 16) is Some);
    assert(trim(d) == d);
    if d.len() >= 2 {
        assert(digit_value(d[1], 16) is Some);
    }
    assert(strip_hex_prefix(d) == d);
    let x = seq!['0', 'x'] + d;
    let y = seq!['0', 'X'] + d;
    assert(x.last() == d.last() && y.last() == d.last());
    assert(trim_start(x) == x);
    assert(trim_end(x) == x);
    assert(trim_start(y) == y);
    assert(trim_end(y) == y);
    assert(x.subrange(2, x.len() as int) =~= d);
    assert(y.subrange(2, y.len() as int) =~= d);
}

/// Every character of a number's hexadecimal text is a hexadecimal digit
/// of the value it stands for, and the text reads back as the number.
proof fn lemma_hex_text_reads_back(n: nat, table: Seq<char>)
    requires
        n <= u32::MAX,
        table == digit_chars() || table == upper_digit_chars(),
    ensures
        hex_digits(hex_text(n, table)),
        scan_up(hex_text(n, table), 16, u32::MAX as int, 0) == Ok::<int, IntErrorKind>(n as int),
    decreases n,
{
    assert forall|d: int| 0 <= d < 16 implies digit_value(#[trigger] table[d], 16) == Some(d) by {
        if table == digit_chars() {
            assert(digit_chars()[d] == seq!['0', '1', '2', '3', '4', '5', '6', '7', '8', '9', 'a', 'b', 'c', 'd', 'e', 'f'][d]);
        }
    }
    let t = hex_text(n, table);
    if n < 16 {
        assert(t =~= seq![table[n as int]]);
        assert(digit_value(t[0], 16) == Some(n as int));
        assert(t.drop_first() =~= Seq::<char>::empty());
        assert(scan_up(t.drop_first(), 16, u32::MAX as int, n as int) == Ok::<int, IntErrorKind>(
            n as int,
        ));
    } else {
        let head = hex_text(n / 16, table);
        let c = table[(n % 16) as int];
        lemma_hex_text_reads_back(n / 16, table);
        lemma_scan_up_push(head, c, 16, u32::MAX as int, 0);
        assert(seq![c].drop_first() =~= Seq::<char>::empty());
        assert((n / 16) * 16 + n % 16 == n);
        assert(digit_value(seq![c][0], 16) == Some((n % 16) as int));
        assert(scan_up(seq![c].drop_first(), 16, u32::MAX as int, n as int) == Ok::<
            int,
            IntErrorKind,
        >(n as int));
        assert(scan_up(seq![c], 16, u32::MAX as int, (n / 16) as int) == Ok::<int, IntErrorKind>(
            n as int,
        ));
        assert forall|i: int| 0 <= i < t.len() implies digit_value(#[trigger] t[i], 16) is Some by {
            if i < head.len() {
                assert(t[i] == head[i]);
            }
        }
    }
}

/// A `u32` written in hexadecimal, in either case, padded with zeros or
/// not, after `0x` or not and with a line break after it or not, reads back
/// as that number.
pub proof fn lemma_hex_round_trip(n: u32, upper: bool, pad: nat, prefix: bool, newline: bool)
    ensures
        ({
            let table = if upper {
                upper_digit_chars()
            } else {
                digit_chars()
            };
            let body = zeros(pad) + hex_text(n as nat, table);
            let text = if prefix {
                seq!['0', 'x'] + body
            } else {
                body
            };
            let line = if newline {
                text.push('\n')
            } else {
                text
            };
            vdo_hex_value(line) == Ok::<int, IntErrorKind>(n as int)
        }),
{
    let table = if upper {
        upper_digit_chars()
    } else {
        digit_chars()
    };
    let digits = hex_text(n as nat, table);
    let body = zeros(pad) + digits;
    lemma_hex_text_reads_back(n as nat, table);
    lemma_scan_up_zeros(digits, pad, 16, u32::MAX as int);
    assert forall|i: int| 0 <= i < body.len() implies digit_value(#[trigger] body[i], 16) is Some by {
        if i >= pad {
            assert(body[i] == digits[i - pad]);
        }
    }
    lemma_hex_prefix_optional(body);
    assert(body[0] != '+' && body[0] != '-');
    assert(vdo_hex_value(body) == Ok::<int, IntErrorKind>(n as int));
    let text = if prefix {
        seq!['0', 'x'] + body
    } else {
        body
    };
    assert(digit_value(body[0], 16) is Some);
    assert(digit_value(body.last(), 16) is Some);
    assert(text[0] == '0' || text[0] == body[0]);
    assert(text.last() == body.last());
    lemma_trim_unchanged(text);
}

/// The Cable VDO fields, bit by bit: the speed is read from bits 2..0 alone
/// (000b USB 2.0, 001b USB 3.2 Gen1, 010b USB 3.2 / USB4 Gen2, 011b and 100b
/// USB4, anything else unknown with that value) and the current from bits
/// 6..5 alone (00b reserved, 01b 3 A, 10b 5 A, 11b unknown); every bit of
/// the VDO is kept in `raw`.
pub proof fn lemma_cable_vdo_bits(raw: u32)
    ensures
        cable_vdo_of(raw).raw == raw,
        raw & 7 == 0 ==> cable_vdo_of(raw).speed == CableSpeed::Usb20,
        raw & 7 == 1 ==> cable_vdo_of(raw).speed == CableSpeed::Usb32Gen1,
        raw & 7 == 2 ==> cable_vdo_of(raw).speed == CableSpeed::Usb32Gen2,
        raw & 7 == 3 ==> cable_vdo_of(raw).speed == CableSpeed::Usb4,
        raw & 7 == 4 ==> cable_vdo_of(raw).speed == CableSpeed::Usb4,
        raw & 7 >= 5 ==> cable_vdo_of(raw).speed == CableSpeed::Unknown((raw & 7) as u8),
        (raw >> 5) & 3 == 0 ==> cable_vdo_of(raw).max_current == CableCurrent::Reserved,
        (raw >> 5) & 3 == 1 ==> cable_vdo_of(raw).max_current == CableCurrent::A3,
        (raw >> 5) & 3 == 2 ==> cable_vdo_of(raw).max_current == CableCurrent::A5,
        (raw >> 5) & 3 == 3 ==> cable_vdo_of(raw).max_current == CableCurrent::Unknown(3),
        cable_vdo_of(raw).speed == cable_vdo_of(raw & 7).speed,
        cable_vdo_of(raw).max_current == cable_vdo_of(raw & 0x60).max_current,
{
    assert(raw & 7 == raw % 8) by (bit_vector);
    assert((raw >> 5) & 3 == (raw / 32) % 4) by (bit_vector);
    assert((raw & 7) % 8 == raw % 8) by (bit_vector);
    assert(((raw & 0x60) / 32) % 4 == (raw / 32) % 4) by (bit_vector);
}

/// The ID Header fields, bit by bit: the vendor ID is bits 15..0, modal
/// operation bit 26, product type bits 29..27 (000b none, 011b passive
/// cable, 100b active cable, any other value kept as it is), USB device
/// capability bit 30 and USB host capability bit 31; every bit is kept in
/// `raw`.
pub proof fn lemma_id_header_bits(raw: u32)
    ensures
        id_header_of(raw).raw == raw,
        id_header_of(raw).usb_vid as u32 == raw & 0xffff,
        id_header_of(raw).modal_operation == ((raw >> 26) & 1 == 1),
        id_header_of(raw).usb_device == ((raw >> 30) & 1 == 1),
        id_header_of(raw).usb_host == ((raw >> 31) & 1 == 1),
        (raw >> 27) & 7 == 0 ==> id_header_of(raw).product_type_cable is None,
        (raw >> 27) & 7 == 3 ==> id_header_of(raw).product_type_cable == Some(
            ProductType::PassiveCable,
        ),
        (raw >> 27) & 7 == 4 ==> id_header_of(raw).product_type_cable == Some(
            ProductType::ActiveCable,
        ),
        (raw >> 27) & 7 != 0 && (raw >> 27) & 7 != 3 && (raw >> 27) & 7 != 4
            ==> id_header_of(raw).product_type_cable == Some(
            ProductType::Other(((raw >> 27) & 7) as u8),
        ),
{
    assert(raw & 0xFFFF == raw % 0x10000) by (bit_vector);
    assert((raw >> 27) & 7 == (raw / 0x800_0000) % 8) by (bit_vector);
    assert((raw >> 26) & 1 == (raw / 0x400_0000) % 2) by (bit_vector);
    assert((raw >> 31) & 1 == (raw / 0x8000_0000) % 2) by (bit_vector);
    assert((raw >> 30) & 1 == (raw / 0x4000_0000) % 2) by (bit_vector);
}

/// Decodes a Cable VDO. Every value decodes.
pub fn decode_cable_vdo(raw: u32) -> (r: Result<CableVdo, VdoError>)
    ensures
        r matches Ok(v) && v == cable_vdo_of(raw),
{
    let speed_bits: u32 = raw & 0b111;
    let current_bits: u32 = (raw >> 5) & 0b11;
    assert(raw & 0b111 == raw % 8) by (bit_vector);
    assert((raw >> 5) & 0b11 == (raw / 32) % 4) by (bit_vector);
    let speed = match speed_bits {
        0 => CableSpeed::Usb20,
        1 => CableSpeed::Usb32Gen1,
        2 => CableSpeed::Usb32Gen2,
        3 | 4 => CableSpeed::Usb4,
        other => CableSpeed::Unknown(other as u8),
    };
    let max_current = match current_bits {
        0 => CableCurrent::Reserved,
        1 => CableCurrent::A3,
        2 => CableCurrent::A5,
        other => CableCurrent::Unknown(other as u8),
    };
    Ok(CableVdo { raw, speed, max_current })
}

/// Reads a VDO written as hexadecimal text, with or without `0x`, and with
/// surrounding whitespace.
pub fn parse_vdo_hex(s: &str) -> (r: Result<u32, VdoError>)
    ensures
        match r {
            Ok(v) => vdo_hex_value(s@) == Ok::<int, IntErrorKind>(v as int),
            Err(VdoError::InvalidHex { input, kind }) => input@ == trim(s@) && vdo_hex_value(s@)
                == Err::<int, IntErrorKind>(kind),
        },
{
    let trimmed = trim_str(s);
    let v = chars_of(trimmed.as_str());
    let n: usize = v.len();
    let start: usize = if n >= 2 && v[0] == '0' && (v[1] == 'x' || v[1] == 'X') {
        2
    } else {
        0
    };
    let mut digits = String::new();
    push_chars(&mut digits, &v, start, n);
    assert(digits@ =~= strip_hex_prefix(trim(s@)));
    match parse_u32(digits.as_str(), 16) {
        Ok(value) => Ok(value),
        Err(kind) => Err(VdoError::InvalidHex { input: trimmed, kind }),
    }
}

/// Decodes an ID Header VDO. Every value decodes.
pub fn decode_id_header(raw: u32) -> (r: Result<IdHeader, VdoError>)
    ensures
        r matches Ok(h) && h == id_header_of(raw),
{
    assert(raw & 0xFFFF == raw % 0x10000) by (bit_vector);
    assert((raw >> 27) & 0b111 == (raw / 0x800_0000) % 8) by (bit_vector);
    assert((raw >> 26) & 1 == (raw / 0x400_0000) % 2) by (bit_vector);
    assert((raw >> 31) & 1 == (raw / 0x8000_0000) % 2) by (bit_vector);
    assert((raw >> 30) & 1 == (raw / 0x4000_0000) % 2) by (bit_vector);
    let usb_vid: u16 = (raw & 0xFFFF) as u16;
    let product_type_cable_bits: u8 = ((raw >> 27) & 0b111) as u8;
    let product_type_cable = match product_type_cable_bits {
        0 => None,
        3 => Some(ProductType::PassiveCable),
        4 => Some(ProductType::ActiveCable),
        other => Some(ProductType::Other(other)),
    };
    Ok(
        IdHeader {
            raw,
            usb_vid,
            product_type_cable,
            modal_operation: (raw >> 26) & 1 == 1,
            usb_host: (raw >> 31) & 1 == 1,
            usb_device: (raw >> 30) & 1 == 1,
        },
    )
}

} // verus!
