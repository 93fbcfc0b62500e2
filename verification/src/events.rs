//! Classifying kernel hot-plug events into daemon notifications.
//!
//! The blocking event reader and the notification transport live with the
//! caller; this decides, from the decoded fields of one event, whether an
//! insertion or a removal is announced, and computes the device's
//! fingerprint.

use vstd::prelude::*;
use vstd::utf8::encode_utf8;
use crate::fingerprint::{FingerprintInput, compute_fingerprint, fp_message};
use crate::hashing::{sha256_of, hex_of, sha256_tag};
use crate::strutil::str_eq;
use crate::types::DeviceInfo;
use vstd::string::StrSliceExecFns;

verus! {

/// What one kernel event means to subscribers.
pub enum UsbEvent {
    /// Announce the device to subscribers as newly inserted.
    Inserted(DeviceInfo),
    /// Announce that the device with this id left.
    Removed(String),
    /// Nothing to announce.
    Ignored,
}

pub open spec fn opt_view(o: Option<String>) -> Option<Seq<char>> {
    match o {
        Some(s) => Some(s@),
        None => None,
    }
}

pub open spec fn opt_bytes(o: Option<Seq<char>>) -> Seq<u8> {
    match o {
        Some(v) => encode_utf8(v),
        None => Seq::empty(),
    }
}

/// The bytes hashed for an event's fingerprint: the identifying fields
/// with `|` separators; no raw descriptors are available here.
pub open spec fn event_fp_message(
    vid: Seq<char>,
    pid: Seq<char>,
    serial: Seq<char>,
    vendor: Option<Seq<char>>,
    product: Option<Seq<char>>,
) -> Seq<u8> {
    encode_utf8(vid) + seq![124u8] + encode_utf8(pid) + seq![124u8] + encode_utf8(serial)
        + seq![124u8] + opt_bytes(vendor) + seq![124u8] + opt_bytes(product) + seq![124u8]
}

/// The fingerprint an event's device gets.
pub open spec fn event_fingerprint(
    vid: Seq<char>,
    pid: Seq<char>,
    serial: Seq<char>,
    vendor: Option<Seq<char>>,
    product: Option<Seq<char>>,
) -> Seq<char> {
    sha256_tag() + hex_of(sha256_of(event_fp_message(vid, pid, serial, vendor, product)))
}

/// Decides what one decoded kernel event announces: `add` and `bind`
/// insert the device, `remove` and `unbind` remove it by id, anything
/// else is ignored. The inserted record carries the event's fields and
/// the computed fingerprint, and is neither allowed nor persistent.
pub fn classify_udev_event(
    action: &str,
    devnode: &str,
    vendor_id: &str,
    product_id: &str,
    serial: &str,
    device_type: &str,
    vendor: Option<String>,
    product: Option<String>,
) -> (r: UsbEvent)
    ensures
        (action@ == "add"@ || action@ == "bind"@) ==> (r matches UsbEvent::Inserted(d) && {
            &&& d.id@ == devnode@
            &&& d.vendor_id@ == vendor_id@
            &&& d.product_id@ == product_id@
            &&& d.serial@ == serial@
            &&& d.device_type@ == device_type@
            &&& d.fingerprint@ == event_fingerprint(
                vendor_id@,
                product_id@,
                serial@,
                opt_view(vendor),
                opt_view(product),
            )
            &&& !d.allowed
            &&& !d.persistent
        }),
        (!(action@ == "add"@ || action@ == "bind"@) && (action@ == "remove"@ || action@
            == "unbind"@)) ==> (r matches UsbEvent::Removed(id) && id@ == devnode@),
        (!(action@ == "add"@ || action@ == "bind"@) && !(action@ == "remove"@ || action@
            == "unbind"@)) ==> r is Ignored,
{
    if str_eq(action, "add") || str_eq(action, "bind") {
        let serial_opt = if serial.unicode_len() == 0 {
            None
        } else {
            Some(serial.to_owned())
        };
        let input = FingerprintInput {
            vendor_id: vendor_id.to_owned(),
            product_id: product_id.to_owned(),
            serial: serial_opt,
            manufacturer: vendor,
            product,
            raw_descriptors: None,
        };
        let fp = compute_fingerprint(&input);
        proof {
            if serial@.len() == 0 {
                assert(encode_utf8(serial@) =~= Seq::<u8>::empty());
            }
            assert(fp_message(&input) =~= event_fp_message(
                vendor_id@,
                product_id@,
                serial@,
                opt_view(vendor),
                opt_view(product),
            ));
        }
        UsbEvent::Inserted(
            DeviceInfo {
                id: devnode.to_owned(),
                vendor_id: vendor_id.to_owned(),
                product_id: product_id.to_owned(),
                serial: serial.to_owned(),
                fingerprint: fp,
                device_type: device_type.to_owned(),
                allowed: false,
                persistent: false,
            },
        )
    } else if str_eq(action, "remove") || str_eq(action, "unbind") {
        UsbEvent::Removed(devnode.to_owned())
    } else {
        UsbEvent::Ignored
    }
}

} // verus!
