//! The capability the daemon consumes to talk to the USB rule engine.

use vstd::prelude::*;
use crate::types::DeviceInfo;

verus! {

/// What a USB rule engine offers the daemon: enumeration, temporary
/// authorization, and revocation. The engine is an external process, so
/// nothing is promised of any of these calls; the daemon's contracts say
/// what it does with whatever comes back.
pub trait UsbBackend {
    /// Every device the engine currently sees.
    fn list_devices(&self) -> Vec<DeviceInfo>;

    /// The engine's record of one device, when it knows the id.
    fn get_device(&self, device_id: &str) -> Option<DeviceInfo>;

    /// Asks the engine to authorize the device for a while; the daemon
    /// enforces the TTL itself as a ceiling.
    fn allow_ephemeral(&self, device_id: &str, ttl_secs: u32) -> bool;

    /// Asks the engine to deauthorize the device.
    fn revoke(&self, device_id: &str) -> bool;
}

} // verus!
