use usb_mess::numparse::{parse_i64, parse_u32, IntErrorKind};

#[test]
fn decimal_u32_bounds() {
    assert_eq!(parse_u32("4294967295", 10), Ok(u32::MAX));
    assert_eq!(parse_u32("4294967296", 10), Err(IntErrorKind::PosOverflow));
    assert_eq!(parse_u32("007", 10), Ok(7));
    assert_eq!(parse_u32("+3", 10), Ok(3));
    assert_eq!(parse_u32("-3", 10), Err(IntErrorKind::InvalidDigit));
    assert_eq!(parse_u32(" 3", 10), Err(IntErrorKind::InvalidDigit));
    assert_eq!(parse_u32("", 10), Err(IntErrorKind::Empty));
    assert_eq!(parse_u32("z", 36), Ok(35));
}

#[test]
fn decimal_i64_bounds() {
    assert_eq!(parse_i64("-9223372036854775808", 10), Ok(i64::MIN));
    assert_eq!(parse_i64("9223372036854775807", 10), Ok(i64::MAX));
    assert_eq!(parse_i64("-9223372036854775809", 10), Err(IntErrorKind::NegOverflow));
    assert_eq!(parse_i64("9223372036854775808", 10), Err(IntErrorKind::PosOverflow));
    assert_eq!(parse_i64("-", 10), Err(IntErrorKind::InvalidDigit));
    assert_eq!(parse_i64("19500000", 10), Ok(19_500_000));
    assert_eq!(parse_i64("-12", 10), Ok(-12));
    assert_eq!(parse_i64("1.5", 10), Err(IntErrorKind::InvalidDigit));
}

#[test]
fn parsing_agrees_with_std() {
    let samples = [
        "", "+", "-", "0", "+0", "-0", "12", "-12", "+12", "abc", "ff", "FF", "7fffffff",
        "80000000", "ffffffff", "100000000", "4294967295", "4294967296",
        "9223372036854775807", "9223372036854775808", "-9223372036854775808",
        "-9223372036854775809", "1_0", " 1", "1 ", "١٢", "99999999999999999999x",
    ];
    for s in samples {
        for radix in [10u32, 16] {
            let ours = parse_u32(s, radix).map_err(|k| format!("{:?}", k));
            let std = u32::from_str_radix(s, radix).map_err(|e| format!("{:?}", e.kind()));
            assert_eq!(ours, std, "u32 {:?} radix {}", s, radix);
            let ours = parse_i64(s, radix).map_err(|k| format!("{:?}", k));
            let std = i64::from_str_radix(s, radix).map_err(|e| format!("{:?}", e.kind()));
            assert_eq!(ours, std, "i64 {:?} radix {}", s, radix);
        }
    }
}
