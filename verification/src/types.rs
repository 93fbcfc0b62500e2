//! Plain data types shared across the daemon's surface.

use vstd::prelude::*;

verus! {

/// The daemon's standing policy toward unknown devices.
#[derive(Clone, Copy, PartialEq, Eq, Structural, Debug)]
pub struct PolicyStatus {
    pub deny_unknown: bool,
}

/// One device as the engine or the event stream reports it. Purely
/// descriptive; no invariants beyond the field types.
#[derive(Clone, Debug)]
pub struct DeviceInfo {
    pub id: String,
    pub vendor_id: String,
    pub product_id: String,
    pub serial: String,
    pub fingerprint: String,
    pub device_type: String,
    pub allowed: bool,
    pub persistent: bool,
}

/// Two device records hold the same data.
pub open spec fn device_views_eq(a: DeviceInfo, b: DeviceInfo) -> bool {
    &&& a.id@ == b.id@
    &&& a.vendor_id@ == b.vendor_id@
    &&& a.product_id@ == b.product_id@
    &&& a.serial@ == b.serial@
    &&& a.fingerprint@ == b.fingerprint@
    &&& a.device_type@ == b.device_type@
    &&& a.allowed == b.allowed
    &&& a.persistent == b.persistent
}

/// A field-by-field copy of a device record.
pub fn dup_device(d: &DeviceInfo) -> (r: DeviceInfo)
    ensures
        device_views_eq(r, *d),
{
    DeviceInfo {
        id: d.id.clone(),
        vendor_id: d.vendor_id.clone(),
        product_id: d.product_id.clone(),
        serial: d.serial.clone(),
        fingerprint: d.fingerprint.clone(),
        device_type: d.device_type.clone(),
        allowed: d.allowed,
        persistent: d.persistent,
    }
}

/// A device record with every field empty: what an absent device reports.
pub fn empty_device() -> (r: DeviceInfo)
    ensures
        r.id@ == Seq::<char>::empty(),
        r.vendor_id@ == Seq::<char>::empty(),
        r.product_id@ == Seq::<char>::empty(),
        r.serial@ == Seq::<char>::empty(),
        r.fingerprint@ == Seq::<char>::empty(),
        r.device_type@ == Seq::<char>::empty(),
        r.allowed == false,
        r.persistent == false,
{
    DeviceInfo {
        id: String::new(),
        vendor_id: String::new(),
        product_id: String::new(),
        serial: String::new(),
        fingerprint: String::new(),
        device_type: String::new(),
        allowed: false,
        persistent: false,
    }
}

} // verus!
