use usb_mess::model::{Cable, LiveCharge, Partner, Port, Snapshot};
use usb_mess::render::text::{render_cable, to_text, ChargeFigures};
use usb_mess::vdo::{decode_cable_vdo, decode_id_header};

fn bare_port(name: &str) -> Port {
    Port {
        name: name.to_string(),
        data_role: None,
        power_role: None,
        power_operation_mode: None,
        usb_typec_revision: None,
        usb_pd_revision: None,
        usb_capability: None,
        partner: None,
        cable: None,
        live: None,
    }
}

fn no_figures() -> ChargeFigures {
    ChargeFigures { watts: String::new(), volts: String::new(), amps: String::new() }
}

#[test]
fn text_without_ports() {
    let snap = Snapshot { ports: vec![] };
    assert_eq!(to_text(&snap, false, &vec![]), "No USB-C ports found.\n");
}

#[test]
fn text_of_unconnected_ports() {
    let snap = Snapshot { ports: vec![bare_port("port0"), bare_port("port1")] };
    assert_eq!(
        to_text(&snap, true, &vec![no_figures(), no_figures()]),
        "[port0]\n  (nothing connected)\n\n[port1]\n  (nothing connected)\n\n"
    );
}

#[test]
fn text_of_readme_example() {
    let mut p = bare_port("port0");
    p.power_role = Some("sink".to_string());
    p.data_role = Some("device".to_string());
    p.usb_pd_revision = Some("3.0".to_string());
    p.partner = Some(Partner {
        supports_usb_pd: Some(true),
        number_of_alternate_modes: Some(1),
        identity_id_header: Some(decode_id_header(0x1c0005ac).unwrap()),
    });
    p.cable = Some(Cable {
        kind: Some("passive".to_string()),
        plug_type: None,
        identity_id_header: Some(decode_id_header(0x1c0005ac).unwrap()),
        cable_vdo: Some(decode_cable_vdo(0x22).unwrap()),
    });
    p.live = Some(LiveCharge {
        supply: "ucsi".to_string(),
        online: true,
        voltage_now_uv: Some(19_500_000),
        current_now_ua: Some(2_890_000),
        voltage_max_uv: None,
        current_max_ua: None,
    });
    let figures = ChargeFigures {
        watts: "56.4".to_string(),
        volts: "19.50".to_string(),
        amps: "2.890".to_string(),
    };
    let text = to_text(&Snapshot { ports: vec![p] }, false, &vec![figures]);
    assert_eq!(
        text,
        "[port0]\n\
         \x20 role:       sink / device\n\
         \x20 pd rev:     3.0\n\
         \x20 partner:    PD=yes, altmodes=1\n\
         \x20             VID=0x05ac\n\
         \x20 cable:      passive, USB 3.2 Gen 2 (10 Gbps), 3 A (≤60 W @ 20 V)\n\
         \x20             cable VID=0x05ac\n\
         \x20 charging:   56.4 W  (19.50 V, 2.890 A)\n\n"
    );
}

#[test]
fn text_with_missing_values() {
    let mut p = bare_port("port3");
    p.partner = Some(Partner {
        supports_usb_pd: None,
        number_of_alternate_modes: None,
        identity_id_header: None,
    });
    p.live = Some(LiveCharge {
        supply: "x".to_string(),
        online: true,
        voltage_now_uv: Some(5_000_000),
        current_now_ua: None,
        voltage_max_uv: None,
        current_max_ua: None,
    });
    let figures = ChargeFigures {
        watts: "ignored".to_string(),
        volts: "5.00".to_string(),
        amps: "ignored".to_string(),
    };
    let text = to_text(&Snapshot { ports: vec![p] }, false, &vec![figures]);
    assert_eq!(
        text,
        "[port3]\n\
         \x20 role:       — / —\n\
         \x20 partner:    PD=—, altmodes=—\n\
         \x20 cable:      (no e-marker / not detected)\n\
         \x20 charging:   —  (5.00 V, — A)\n\n"
    );
}

#[test]
fn cable_lines() {
    let render = |cable: &Cable| {
        let mut out = String::new();
        render_cable(&mut out, cable);
        out
    };
    let mut c = Cable {
        kind: Some("active".to_string()),
        plug_type: None,
        identity_id_header: None,
        cable_vdo: Some(decode_cable_vdo(0x67).unwrap()),
    };
    assert_eq!(render(&c), "  cable:      active, speed=unknown(7)\n");
    c.cable_vdo = Some(decode_cable_vdo(0x64).unwrap());
    assert_eq!(render(&c), "  cable:      active, current=unknown(3)\n");
    c.cable_vdo = Some(decode_cable_vdo(0x40).unwrap());
    assert_eq!(render(&c), "  cable:      active, USB 2.0, 5 A (≤100 W @ 20 V / ≤240 W @ 48 V EPR)\n");
    c.cable_vdo = Some(decode_cable_vdo(0x01).unwrap());
    c.kind = None;
    c.identity_id_header = Some(decode_id_header(0x0000_00ff).unwrap());
    assert_eq!(
        render(&c),
        "  cable:      —, USB 3.2 Gen 1 (5 Gbps), reserved\n              cable VID=0x00ff\n"
    );
    c.cable_vdo = None;
    c.identity_id_header = None;
    assert_eq!(render(&c), "  cable:      —, —, —\n");
    c.cable_vdo = Some(decode_cable_vdo(0x24).unwrap());
    assert_eq!(render(&c), "  cable:      —, USB4 (≥20 Gbps), 3 A (≤60 W @ 20 V)\n");
}

#[test]
fn text_of_joined_snapshots() {
    let a = Snapshot { ports: vec![bare_port("port0")] };
    let b = Snapshot { ports: vec![bare_port("port1"), bare_port("port2")] };
    let ab = Snapshot { ports: vec![bare_port("port0"), bare_port("port1"), bare_port("port2")] };
    let joined = to_text(&a, false, &vec![no_figures()]) + &to_text(&b, false, &vec![no_figures(), no_figures()]);
    assert_eq!(to_text(&ab, false, &vec![no_figures(), no_figures(), no_figures()]), joined);
}
