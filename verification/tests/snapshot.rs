use usb_mess::sysfs::power_supply::SupplyFiles;
use usb_mess::sysfs::typec::{CableFiles, PartnerFiles, PortFiles};
use usb_mess::sysfs::{SysfsListing, SysfsRoot};

fn fixture(name: &str) -> SysfsRoot {
    SysfsRoot::new(format!("tests/fixtures/sysfs/{}", name))
}

fn attr(s: &str) -> Option<String> {
    Some(format!("{}\n", s))
}

fn port_files(name: &str) -> PortFiles {
    PortFiles {
        name: name.to_string(),
        data_role: None,
        power_role: None,
        power_operation_mode: None,
        usb_typec_revision: None,
        usb_power_delivery_revision: None,
        usb_capability: None,
        partner: None,
        cable: None,
    }
}

fn supply(name: &str, kind: &str, online: &str) -> SupplyFiles {
    SupplyFiles {
        name: name.to_string(),
        kind: attr(kind),
        online: attr(online),
        voltage_now: attr("19500000"),
        current_now: attr("2890000"),
        voltage_max: None,
        current_max: attr("3000000"),
    }
}

#[test]
fn empty_returns_no_ports() {
    let listing = SysfsListing { ports: vec![], supplies: vec![] };
    let snap = fixture("empty").snapshot(&listing);
    assert!(snap.ports.is_empty());
}

#[test]
fn one_port_no_partner_reads_roles() {
    let mut port0 = port_files("port0");
    port0.data_role = attr("[host] device");
    port0.power_role = attr("[source] sink");
    let listing = SysfsListing { ports: vec![port0], supplies: vec![] };
    let snap = fixture("one_port_no_partner").snapshot(&listing);
    assert_eq!(snap.ports.len(), 1);
    let p = &snap.ports[0];
    assert_eq!(p.name, "port0");
    assert_eq!(p.data_role.as_deref(), Some("host"));
    assert_eq!(p.power_role.as_deref(), Some("source"));
    assert!(p.partner.is_none());
}

#[test]
fn ports_sorted_by_name_and_filtered() {
    let listing = SysfsListing {
        ports: vec![
            port_files("port10"),
            port_files("port2"),
            port_files("port1-partner"),
            port_files("port0-cable"),
            port_files("port1.1"),
            port_files("port0"),
            port_files("port"),
        ],
        supplies: vec![],
    };
    let snap = SysfsRoot::system().snapshot(&listing);
    let names: Vec<&str> = snap.ports.iter().map(|p| p.name.as_str()).collect();
    assert_eq!(names, vec!["port0", "port10", "port2"]);
}

#[test]
fn partner_and_cable_attributes() {
    let mut port0 = port_files("port0");
    port0.usb_power_delivery_revision = attr("3.0");
    port0.partner = Some(PartnerFiles {
        supports_usb_power_delivery: attr("yes"),
        number_of_alternate_modes: attr("1"),
        identity_id_header: attr("0x1c0005ac"),
    });
    port0.cable = Some(CableFiles {
        kind: attr("passive"),
        plug_type: attr("type-c"),
        identity_id_header: attr("1c0005ac"),
        identity_product_type_vdo1: attr("0x00082043"),
    });
    let listing = SysfsListing { ports: vec![port0], supplies: vec![] };
    let snap = SysfsRoot::system().snapshot(&listing);
    let p = &snap.ports[0];
    assert_eq!(p.usb_pd_revision.as_deref(), Some("3.0"));
    let partner = p.partner.as_ref().unwrap();
    assert_eq!(partner.supports_usb_pd, Some(true));
    assert_eq!(partner.number_of_alternate_modes, Some(1));
    assert_eq!(partner.identity_id_header.unwrap().usb_vid, 0x05ac);
    let cable = p.cable.as_ref().unwrap();
    assert_eq!(cable.kind.as_deref(), Some("passive"));
    assert_eq!(cable.plug_type.as_deref(), Some("type-c"));
    assert_eq!(cable.identity_id_header.unwrap().raw, 0x1c0005ac);
    let vdo = cable.cable_vdo.unwrap();
    assert_eq!(vdo.raw, 0x00082043);
    assert_eq!(vdo.speed, usb_mess::vdo::CableSpeed::Usb4);
    assert_eq!(vdo.max_current, usb_mess::vdo::CableCurrent::A5);
}

#[test]
fn unreadable_or_malformed_attributes() {
    let mut port0 = port_files("port0");
    port0.partner = Some(PartnerFiles {
        supports_usb_power_delivery: attr("no"),
        number_of_alternate_modes: attr("-1"),
        identity_id_header: attr("zz"),
    });
    port0.cable = Some(CableFiles {
        kind: None,
        plug_type: None,
        identity_id_header: None,
        identity_product_type_vdo1: attr("not hex"),
    });
    let listing = SysfsListing { ports: vec![port0], supplies: vec![] };
    let snap = SysfsRoot::system().snapshot(&listing);
    let p = &snap.ports[0];
    let partner = p.partner.as_ref().unwrap();
    assert_eq!(partner.supports_usb_pd, Some(false));
    assert_eq!(partner.number_of_alternate_modes, None);
    assert!(partner.identity_id_header.is_none());
    let cable = p.cable.as_ref().unwrap();
    assert!(cable.kind.is_none());
    assert!(cable.cable_vdo.is_none());
    assert!(p.data_role.is_none());
}

#[test]
fn live_charge_goes_to_sink_ports() {
    let mut sink = port_files("port0");
    sink.power_role = attr("source [sink]");
    let mut source = port_files("port1");
    source.power_role = attr("[source] sink");
    let listing = SysfsListing {
        ports: vec![source, sink],
        supplies: vec![
            supply("BAT0", "Battery", "1"),
            supply("ucsi-source-psy-1", "USB", "0"),
            supply("ucsi-source-psy-2", "USB_PD_DRP", "1"),
            supply("ucsi-source-psy-3", "USB_C", "1"),
        ],
    };
    let snap = SysfsRoot::system().snapshot(&listing);
    let live = snap.ports[0].live.as_ref().unwrap();
    assert_eq!(live.supply, "ucsi-source-psy-2");
    assert!(live.online);
    assert_eq!(live.voltage_now_uv, Some(19_500_000));
    assert_eq!(live.current_now_ua, Some(2_890_000));
    assert_eq!(live.voltage_max_uv, None);
    assert_eq!(live.current_max_ua, Some(3_000_000));
    assert!(snap.ports[1].live.is_none());
}

#[test]
fn retain_port_keeps_only_that_port() {
    let listing = SysfsListing {
        ports: vec![port_files("port0"), port_files("port1"), port_files("port12")],
        supplies: vec![],
    };
    let mut snap = SysfsRoot::system().snapshot(&listing);
    snap.retain_port(1);
    assert_eq!(snap.ports.len(), 1);
    assert_eq!(snap.ports[0].name, "port1");
    let mut snap = SysfsRoot::system().snapshot(&listing);
    snap.retain_port(7);
    assert!(snap.ports.is_empty());
}

#[test]
fn class_paths() {
    assert_eq!(SysfsRoot::system().class("typec"), "/sys/class/typec");
    assert_eq!(SysfsRoot::new("/tmp/root/".to_string()).class("power_supply"), "/tmp/root/class/power_supply");
    assert_eq!(SysfsRoot::new(String::new()).class("typec"), "class/typec");
    assert_eq!(SysfsRoot::new("/x".to_string()).class("/abs"), "/abs");
}
