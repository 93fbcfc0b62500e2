use lusby::usbguard::UsbguardBackend;

#[test]
fn parse_allows_basic_lines() {
    let sample = r#"
                                    0: allow id 1d6b:0002 serial "" name "xHCI Host Controller" hash "abcd" parent-hash "-" via-port "1-0:1.0" with-interface 09:00:00
                                    1: block id 046d:c534 serial "ABC123" name "USB Receiver" hash "efgh" parent-hash "..." via-port "2-1" with-interface 03:01:01 with-interface +hid
                                    2: allow id 0781:5581 serial "1234567890ABCDEF" name "SanDisk Ultra" hash "ijkl" parent-hash "..." via-port "2-2" with-interface +mass-storage
                                    "#;
    let devices = UsbguardBackend::parse_list_devices(sample);
    assert!(devices
        .iter()
        .any(|d| d.vendor_id == "0x1d6b" && d.product_id == "0x0002"));
    let logi = devices
        .iter()
        .find(|d| d.vendor_id == "0x046d" && d.product_id == "0xC534".to_lowercase());
    assert!(logi.is_some());
    let storage = devices.iter().find(|d| d.vendor_id == "0x0781");
    assert!(storage.is_some());
}

#[test]
fn parse_list_fields() {
    let sample = "allow id 1d6b:0003 serial \"\" name \"Hub\" with-interface +hid\n\
                  block id 0781:5581 serial \"X\" with-interface +mass-storage\n\
                  not a device line\n";
    let devices = UsbguardBackend::parse_list_devices(sample);
    assert_eq!(devices.len(), 2);
    assert_eq!(devices[0].id, "1d6b:0003");
    assert_eq!(devices[0].vendor_id, "0x1d6b");
    assert_eq!(devices[0].product_id, "0x0003");
    assert_eq!(devices[0].device_type, "hid");
    assert!(devices[0].allowed);
    assert!(devices[0].persistent);
    assert_eq!(devices[0].fingerprint, "");
    assert_eq!(devices[1].device_type, "storage");
    assert!(!devices[1].allowed);
    assert!(!devices[1].persistent);
}

#[test]
fn parse_skips_malformed_lines() {
    // No ` id ` marker, no space after the pair, no colon in the pair.
    let sample = "allow 1d6b:0002\nallow id 1d6b:0002\nallow id 1d6b0002 rest\n\n";
    let devices = UsbguardBackend::parse_list_devices(sample);
    assert!(devices.is_empty());
}
