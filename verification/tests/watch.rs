use usb_mess::cli::Args;
use usb_mess::watch::{Debounce, DEBOUNCE_MS};

#[test]
fn debounce_renders_once_after_quiet() {
    let mut d = Debounce::new();
    assert!(!d.step(false, 0));
    assert!(!d.step(true, 100));
    assert!(!d.step(false, 150));
    assert!(!d.step(false, 299));
    assert!(d.step(false, 100 + DEBOUNCE_MS));
    assert!(!d.step(false, 1000));
}

#[test]
fn debounce_restarts_on_each_event() {
    let mut d = Debounce::new();
    assert!(!d.step(true, 0));
    assert!(!d.step(true, 150));
    assert!(!d.step(false, 250));
    assert!(!d.step(true, 340));
    assert!(!d.step(false, 539));
    assert!(d.step(false, 540));
}

#[test]
fn debounce_ignores_clock_going_back() {
    let mut d = Debounce::new();
    assert!(!d.step(true, 1000));
    assert!(!d.step(false, 10));
    assert!(d.step(false, 1200));
}

#[test]
fn sysfs_root_from_args() {
    let args = Args { json: false, watch: false, port: None, sysfs_root: None };
    assert_eq!(args.sysfs().class("typec"), "/sys/class/typec");
    let args = Args { json: true, watch: false, port: Some(1), sysfs_root: Some("/tmp/fx".to_string()) };
    assert_eq!(args.sysfs().class("typec"), "/tmp/fx/class/typec");
}
