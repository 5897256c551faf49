use usb_mess::numfmt::{push_decimal, push_hex4};
use usb_mess::text::{str_eq, str_lt, trim_str};

#[test]
fn trim_matches_std() {
    let samples = ["", "  ", "port0", "\tport0 \n", "\u{3000}x\u{a0}", "a b", " \u{200b}x "];
    for s in samples {
        assert_eq!(trim_str(s), s.trim(), "{:?}", s);
    }
}

#[test]
fn string_order_matches_std() {
    let samples = ["", "port0", "port1", "port10", "port2", "port", "portz", "\u{e9}", "z"];
    for a in samples {
        for b in samples {
            assert_eq!(str_lt(a, b), a < b, "{:?} < {:?}", a, b);
            assert_eq!(str_eq(a, b), a == b, "{:?} == {:?}", a, b);
        }
    }
}

#[test]
fn number_formatting() {
    let mut s = String::from("n=");
    push_decimal(&mut s, 0);
    s.push(' ');
    push_decimal(&mut s, 4294967295);
    s.push(' ');
    push_hex4(&mut s, 0x05ac);
    s.push(' ');
    push_hex4(&mut s, 0xBEEF);
    assert_eq!(s, "n=0 4294967295 05ac beef");
}
