//! Description of an SDR device found by enumeration.
use vstd::prelude::*;

verus! {

/// A device as shown to the user: its label, the argument string that opens
/// it, and its driver name.
#[derive(Debug, Clone)]
pub struct DeviceInfo {
    pub label: String,
    pub args: String,
    pub driver: String,
}

impl DeviceInfo {
    /// Builds the description of an enumerated device from the values of its
    /// `label` and `driver` keys, where present, and its full argument string.
    /// A missing or empty label reads `Unknown`, a missing or empty driver
    /// `unknown`, so every listed device has a non-empty label and driver.
    pub fn from_lookup(label: Option<&str>, args: String, driver: Option<&str>) -> (info: DeviceInfo)
        ensures
            info.label@ == (match label {
                Some(l) => if l@.len() > 0 {
                    l@
                } else {
                    "Unknown"@
                },
                None => "Unknown"@,
            }),
            info.args@ == args@,
            info.driver@ == (match driver {
                Some(d) => if d@.len() > 0 {
                    d@
                } else {
                    "unknown"@
                },
                None => "unknown"@,
            }),
            info.label@.len() > 0,
            info.driver@.len() > 0,
    {
        proof {
            reveal_strlit("Unknown");
            reveal_strlit("unknown");
        }
        let label = match label {
            Some(l) => if !l.is_empty() {
                l.to_owned()
            } else {
                "Unknown".to_owned()
            },
            None => "Unknown".to_owned(),
        };
        let driver = match driver {
            Some(d) => if !d.is_empty() {
                d.to_owned()
            } else {
                "unknown".to_owned()
            },
            None => "unknown".to_owned(),
        };
        DeviceInfo { label, args, driver }
    }
}

} // verus!
