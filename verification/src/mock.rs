//! An in-memory rule engine for tests: it knows a fixed device list and
//! accepts every request.

use vstd::prelude::*;
use crate::backend::UsbBackend;
use crate::types::{DeviceInfo, dup_device, device_views_eq};
use crate::strutil::str_eq;

verus! {

/// A backend over a fixed list of devices.
pub struct MockBackend {
    pub devices: Vec<DeviceInfo>,
}

impl Default for MockBackend {
    /// A backend that knows no devices.
    fn default() -> (r: MockBackend)
        ensures
            r.devices@.len() == 0,
    {
        MockBackend { devices: Vec::new() }
    }
}

impl MockBackend {
    /// A backend that knows one keyboard-like sample device.
    pub fn new_with_sample() -> (r: MockBackend)
        ensures
            r.devices@.len() == 1,
    {
        let sample = DeviceInfo {
            id: String::from_str("dev1"),
            vendor_id: String::from_str("0x046d"),
            product_id: String::from_str("0xc534"),
            serial: String::from_str("ABC"),
            fingerprint: String::from_str("sha256:deadbeef"),
            device_type: String::from_str("hid"),
            allowed: false,
            persistent: false,
        };
        let mut devices: Vec<DeviceInfo> = Vec::new();
        devices.push(sample);
        MockBackend { devices }
    }
}

impl UsbBackend for MockBackend {
    fn list_devices(&self) -> Vec<DeviceInfo> {
        let mut out: Vec<DeviceInfo> = Vec::new();
        let mut i: usize = 0;
        while i < self.devices.len()
            invariant
                i <= self.devices@.len(),
                out@.len() == i,
            decreases self.devices@.len() - i,
        {
            out.push(dup_device(&self.devices[i]));
            i = i + 1;
        }
        out
    }

    fn get_device(&self, device_id: &str) -> Option<DeviceInfo> {
        let mut i: usize = 0;
        while i < self.devices.len()
            invariant
                i <= self.devices@.len(),
            decreases self.devices@.len() - i,
        {
            if str_eq(self.devices[i].id.as_str(), device_id) {
                return Some(dup_device(&self.devices[i]));
            }
            i = i + 1;
        }
        None
    }

    fn allow_ephemeral(&self, device_id: &str, ttl_secs: u32) -> bool {
        true
    }

    fn revoke(&self, device_id: &str) -> bool {
        true
    }
}

} // verus!
