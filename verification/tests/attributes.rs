use usb_mess::sysfs::power_supply::{find_for_sinking_port, is_usb_pd_supply, read_int, SupplyFiles};
use usb_mess::sysfs::typec::{is_port_name, read_u32_dec, read_yes_no};
use usb_mess::sysfs::{parse_active, read_trim};

#[test]
fn usb_type_active_value() {
    assert_eq!(parse_active("C [PD] PD_PPS"), "PD");
}

#[test]
fn active_choice_forms() {
    assert_eq!(parse_active("[host] device"), "host");
    assert_eq!(parse_active("source [sink]"), "sink");
    assert_eq!(parse_active("dual"), "dual");
    assert_eq!(parse_active("[unterminated"), "[unterminated");
    assert_eq!(parse_active("a ] b [c]"), "c");
    assert_eq!(parse_active("[]"), "");
}

#[test]
fn port_names() {
    assert!(is_port_name("port0"));
    assert!(is_port_name("port12"));
    assert!(!is_port_name("port"));
    assert!(!is_port_name("port0-partner"));
    assert!(!is_port_name("port0-cable"));
    assert!(!is_port_name("port0.1"));
    assert!(!is_port_name("Port0"));
    assert!(!is_port_name("port٣"));
}

#[test]
fn attribute_values() {
    assert_eq!(read_trim(&Some(" 3.0\n".to_string())), Some("3.0".to_string()));
    assert_eq!(read_trim(&None), None);
    assert_eq!(read_yes_no(&Some("yes\n".to_string())), Some(true));
    assert_eq!(read_yes_no(&Some("no\n".to_string())), Some(false));
    assert_eq!(read_yes_no(&Some("YES".to_string())), Some(false));
    assert_eq!(read_yes_no(&None), None);
    assert_eq!(read_u32_dec(&Some("2\n".to_string())), Some(2));
    assert_eq!(read_u32_dec(&Some("two".to_string())), None);
    assert_eq!(read_int(&Some(" -12 \n".to_string())), Some(-12));
    assert_eq!(read_int(&Some("abc".to_string())), None);
    assert_eq!(read_int(&None), None);
}

#[test]
fn usb_pd_supply_types() {
    for t in ["USB", "USB_PD", "USB_PD_DRP", "USB_C", " USB_PD\n"] {
        assert!(is_usb_pd_supply(&Some(t.to_string())), "{:?}", t);
    }
    for t in ["Battery", "Mains", "usb", "USB_PD_PPS", ""] {
        assert!(!is_usb_pd_supply(&Some(t.to_string())), "{:?}", t);
    }
    assert!(!is_usb_pd_supply(&None));
}

#[test]
fn no_sinking_supply() {
    let battery = SupplyFiles {
        name: "BAT0".to_string(),
        kind: Some("Battery\n".to_string()),
        online: Some("1\n".to_string()),
        voltage_now: None,
        current_now: None,
        voltage_max: None,
        current_max: None,
    };
    let offline = SupplyFiles {
        name: "ucsi".to_string(),
        kind: Some("USB\n".to_string()),
        online: Some("0\n".to_string()),
        voltage_now: None,
        current_now: None,
        voltage_max: None,
        current_max: None,
    };
    assert!(find_for_sinking_port(&vec![battery, offline]).is_none());
    assert!(find_for_sinking_port(&vec![]).is_none());
}
