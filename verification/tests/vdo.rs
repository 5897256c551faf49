use usb_mess::numparse::IntErrorKind;
use usb_mess::vdo::{
    decode_cable_vdo, decode_id_header, parse_vdo_hex, CableCurrent, CableSpeed, ProductType,
    VdoError,
};

#[test]
fn id_header_apple_passive_cable() {
    // Real Apple 240W USB4 cable ID header VDO (vendor 0x05ac, passive cable plug)
    let v = decode_id_header(0x1c0005ac).unwrap();
    assert_eq!(v.usb_vid, 0x05ac);
    assert!(matches!(v.product_type_cable, Some(ProductType::PassiveCable)));
}

#[test]
fn id_header_unknown_bits_preserved() {
    let v = decode_id_header(0xdeadbeef).unwrap();
    assert_eq!(v.raw, 0xdeadbeef);
}

#[test]
fn id_header_flag_bits() {
    let v = decode_id_header(0xdeadbeef).unwrap();
    assert_eq!(v.usb_vid, 0xbeef);
    assert_eq!(v.product_type_cable, Some(ProductType::PassiveCable));
    assert!(v.modal_operation);
    assert!(v.usb_host);
    assert!(v.usb_device);
    let w = decode_id_header(0x1c0005ac).unwrap();
    assert!(w.modal_operation);
    assert!(!w.usb_host);
    assert!(!w.usb_device);
}

#[test]
fn id_header_product_types() {
    assert_eq!(decode_id_header(0x0000_1234).unwrap().product_type_cable, None);
    assert_eq!(
        decode_id_header(0x2000_0000).unwrap().product_type_cable,
        Some(ProductType::ActiveCable)
    );
    assert_eq!(
        decode_id_header(0x0800_0000).unwrap().product_type_cable,
        Some(ProductType::Other(1))
    );
    assert_eq!(
        decode_id_header(0x3800_0000).unwrap().product_type_cable,
        Some(ProductType::Other(7))
    );
}

#[test]
fn cable_vdo_fields() {
    let v = decode_cable_vdo(0x22).unwrap();
    assert_eq!(v.raw, 0x22);
    assert_eq!(v.speed, CableSpeed::Usb32Gen2);
    assert_eq!(v.max_current, CableCurrent::A3);
    let v = decode_cable_vdo(0x44).unwrap();
    assert_eq!(v.speed, CableSpeed::Usb4);
    assert_eq!(v.max_current, CableCurrent::A5);
    let v = decode_cable_vdo(0xffff_ff80).unwrap();
    assert_eq!(v.speed, CableSpeed::Usb20);
    assert_eq!(v.max_current, CableCurrent::Reserved);
    let v = decode_cable_vdo(0x61).unwrap();
    assert_eq!(v.speed, CableSpeed::Usb32Gen1);
    assert_eq!(v.max_current, CableCurrent::Unknown(3));
    let v = decode_cable_vdo(0x07).unwrap();
    assert_eq!(v.speed, CableSpeed::Unknown(7));
    let v = decode_cable_vdo(0x02).unwrap();
    assert_eq!(v.speed, CableSpeed::Usb32Gen2);
    let v = decode_cable_vdo(0x03).unwrap();
    assert_eq!(v.speed, CableSpeed::Usb4);
    let v = decode_cable_vdo(0x05).unwrap();
    assert_eq!(v.speed, CableSpeed::Unknown(5));
    let v = decode_cable_vdo(0x06).unwrap();
    assert_eq!(v.speed, CableSpeed::Unknown(6));
}

fn hex_error(s: &str) -> (String, IntErrorKind) {
    match parse_vdo_hex(s) {
        Err(VdoError::InvalidHex { input, kind }) => (input, kind),
        Ok(v) => panic!("parsed {:?} as {}", s, v),
    }
}

#[test]
fn vdo_hex_accepted_forms() {
    assert_eq!(parse_vdo_hex("0x1c0005ac").unwrap(), 0x1c0005ac);
    assert_eq!(parse_vdo_hex("0X1C0005AC").unwrap(), 0x1c0005ac);
    assert_eq!(parse_vdo_hex("1c0005ac").unwrap(), 0x1c0005ac);
    assert_eq!(parse_vdo_hex("  0xff\n").unwrap(), 255);
    assert_eq!(parse_vdo_hex("+ff").unwrap(), 255);
    assert_eq!(parse_vdo_hex("ffffffff").unwrap(), u32::MAX);
    assert_eq!(parse_vdo_hex("0").unwrap(), 0);
}

#[test]
fn vdo_hex_errors() {
    assert_eq!(hex_error(""), (String::new(), IntErrorKind::Empty));
    assert_eq!(hex_error(" 0x "), ("0x".to_string(), IntErrorKind::Empty));
    assert_eq!(hex_error("+"), ("+".to_string(), IntErrorKind::InvalidDigit));
    assert_eq!(hex_error("-1"), ("-1".to_string(), IntErrorKind::InvalidDigit));
    assert_eq!(hex_error("0x1g"), ("0x1g".to_string(), IntErrorKind::InvalidDigit));
    assert_eq!(hex_error("0x 1"), ("0x 1".to_string(), IntErrorKind::InvalidDigit));
    assert_eq!(hex_error("1ffffffff"), ("1ffffffff".to_string(), IntErrorKind::PosOverflow));
    assert_eq!(
        hex_error("fffffffffz"),
        ("fffffffffz".to_string(), IntErrorKind::PosOverflow)
    );
}

#[test]
fn vdo_hex_error_messages() {
    for s in ["", " 0x ", "+", "-1", "0x1g", "1ffffffff", "ab\"c\\d", "0xé", "a\tb"] {
        let e = match parse_vdo_hex(s) {
            Err(e) => e,
            Ok(v) => panic!("parsed {:?} as {}", s, v),
        };
        let trimmed = s.trim();
        let stripped = trimmed
            .strip_prefix("0x")
            .or_else(|| trimmed.strip_prefix("0X"))
            .unwrap_or(trimmed);
        let reason = u32::from_str_radix(stripped, 16).unwrap_err();
        assert_eq!(e.message(), format!("invalid VDO hex {trimmed:?}: {reason}"));
    }
    let e = parse_vdo_hex("0xzz").unwrap_err();
    assert_eq!(e.message(), "invalid VDO hex \"0xzz\": invalid digit found in string");
}

#[test]
fn vdo_hex_round_trip() {
    for n in [0u32, 1, 0xf, 0x10, 0x05ac, 0x1c0005ac, 0xdeadbeef, u32::MAX] {
        assert_eq!(parse_vdo_hex(&format!("0x{:08x}", n)).unwrap(), n);
        assert_eq!(parse_vdo_hex(&format!("{:X}\n", n)).unwrap(), n);
        assert_eq!(parse_vdo_hex(&format!("{:x}", n)).unwrap(), n);
    }
}
