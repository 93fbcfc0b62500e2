use lusby::events::{classify_udev_event, UsbEvent};

#[test]
fn insertion_carries_fingerprint() {
    let ev = classify_udev_event(
        "add",
        "/dev/bus/usb/001/002",
        "0x1234",
        "0x5678",
        "SER1",
        "hid",
        Some("Acme".to_string()),
        Some("Widget".to_string()),
    );
    match ev {
        UsbEvent::Inserted(d) => {
            assert_eq!(d.id, "/dev/bus/usb/001/002");
            assert_eq!(d.vendor_id, "0x1234");
            assert_eq!(d.product_id, "0x5678");
            assert_eq!(d.serial, "SER1");
            assert_eq!(d.device_type, "hid");
            assert!(!d.allowed);
            assert!(!d.persistent);
            assert_eq!(
                d.fingerprint,
                "sha256:3da8c98cada1f109b9e857900eab7d8f7679cc123a8802721366a65df43fce53"
            );
        }
        _ => panic!("add should announce an insertion"),
    }
}

#[test]
fn bind_counts_as_insertion() {
    let ev = classify_udev_event("bind", "/dev/x", "0x1", "0x2", "", "", None, None);
    assert!(matches!(ev, UsbEvent::Inserted(_)));
}

#[test]
fn removal_names_the_device() {
    let ev = classify_udev_event("remove", "/dev/x", "0x1", "0x2", "", "", None, None);
    match ev {
        UsbEvent::Removed(id) => assert_eq!(id, "/dev/x"),
        _ => panic!("remove should announce a removal"),
    }
    let ev = classify_udev_event("unbind", "/dev/y", "0x1", "0x2", "", "", None, None);
    assert!(matches!(ev, UsbEvent::Removed(_)));
}

#[test]
fn other_actions_are_ignored() {
    let ev = classify_udev_event("change", "/dev/x", "0x1", "0x2", "", "", None, None);
    assert!(matches!(ev, UsbEvent::Ignored));
}
