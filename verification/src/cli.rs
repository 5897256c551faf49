//! The command line of the program.

use vstd::prelude::*;
use crate::sysfs::SysfsRoot;
use crate::text::push_str;

verus! {

/// The options of the command line.
pub struct Args {
    /// Output JSON instead of human text.
    pub json: bool,
    /// Re-render on udev events (typec / power_supply).
    pub watch: bool,
    /// Restrict output to one port (e.g. 0 or 1).
    pub port: Option<u32>,
    /// Alternate sysfs root (for testing); defaults to /sys.
    pub sysfs_root: Option<String>,
}

impl Args {
    /// The sysfs tree to read: the one given on the command line, else `/sys`.
    pub fn sysfs(&self) -> (r: SysfsRoot)
        ensures
            r@ == match self.sysfs_root {
                Some(p) => p@,
                None => "/sys"@,
            },
    {
        match &self.sysfs_root {
            Some(p) => {
                let mut root = String::new();
                push_str(&mut root, p.as_str());
                SysfsRoot::new(root)
            },
            None => SysfsRoot::system(),
        }
    }
}

} // verus!
