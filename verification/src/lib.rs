//! Decoding of USB-C port, partner and cable state as Linux exposes it under
//! `/sys/class/typec/` and `/sys/class/power_supply/`, and its rendering as
//! plain text.
//!
//! Everything here works on values: the contents of sysfs attribute files,
//! as read by the caller, go in; ports, cables and text come out.

pub mod text;
pub mod numparse;
pub mod numfmt;
pub mod vdo;
pub mod model;
pub mod sysfs;
pub mod cli;
pub mod watch;
pub mod render;
