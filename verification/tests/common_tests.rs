use lusby::audit::{verify_chain, AuditEntry, AuditEntryPayload};
use lusby::baseline::{Baseline, DeviceEntry};
use lusby::clock::utc_now_rfc3339;
use lusby::crypto::{canonical_json_vec, sign_canonical, verify_canonical};
use lusby::ed25519::ed25519_public_key;
use lusby::fingerprint::{compute_fingerprint, short_fingerprint, FingerprintInput};
use lusby::hashing::sha256_hex_tagged;

fn keypair() -> (Vec<u8>, Vec<u8>) {
    let sk: [u8; 32] = rand::random();
    let sk = sk.to_vec();
    let vk = ed25519_public_key(&sk);
    (sk, vk)
}

#[test]
fn fingerprint_deterministic() {
    let input = FingerprintInput {
        vendor_id: "0x046d".to_string(),
        product_id: "0xc534".to_string(),
        serial: Some("123456".to_string()),
        manufacturer: Some("Logitech".to_string()),
        product: Some("Keyboard".to_string()),
        raw_descriptors: Some(vec![0x01, 0x02, 0x03, 0x04]),
    };
    let fp1 = compute_fingerprint(&input);
    let fp2 = compute_fingerprint(&input);
    assert_eq!(fp1, fp2);
    assert_eq!(short_fingerprint(&fp1).len(), 8);
}

#[test]
fn fingerprint_exact_value() {
    let input = FingerprintInput {
        vendor_id: "0x046d".to_string(),
        product_id: "0xc534".to_string(),
        serial: Some("123456".to_string()),
        manufacturer: Some("Logitech".to_string()),
        product: Some("Keyboard".to_string()),
        raw_descriptors: Some(vec![0x01, 0x02, 0x03, 0x04]),
    };
    let fp = compute_fingerprint(&input);
    assert_eq!(
        fp,
        "sha256:3583253a2458d72f0c6f5e3be5375083aad5011629128cb7eabd53fb039f4995"
    );
}

#[test]
fn fingerprint_absent_fields_leave_no_trace() {
    // Absent optional fields contribute nothing, not even a replacement.
    let a = FingerprintInput {
        vendor_id: "0x1111".to_string(),
        product_id: "0x2222".to_string(),
        serial: None,
        manufacturer: None,
        product: None,
        raw_descriptors: None,
    };
    let b = FingerprintInput {
        vendor_id: "0x1111".to_string(),
        product_id: "0x2222".to_string(),
        serial: Some("".to_string()),
        manufacturer: None,
        product: None,
        raw_descriptors: Some(vec![]),
    };
    // An empty present field hashes the same bytes as an absent one.
    assert_eq!(compute_fingerprint(&a), compute_fingerprint(&b));
    assert!(compute_fingerprint(&a).starts_with("sha256:"));
    assert_eq!(compute_fingerprint(&a).len(), 71);
}

#[test]
fn tagged_digest_known_value() {
    let bytes = b"abc".to_vec();
    assert_eq!(
        sha256_hex_tagged(&bytes),
        "sha256:ba7816bf8f01cfea414140de5dae2223b00361a396177a9cb410ff61f20015ad"
    );
}

#[test]
fn short_fingerprint_forms() {
    assert_eq!(short_fingerprint("sha256:abcdef1234567890"), "abcdef12");
    assert_eq!(short_fingerprint("nocolon"), "nocolon");
    assert_eq!(short_fingerprint("a:b:c"), "b");
    assert_eq!(short_fingerprint(""), "");
}

#[test]
fn canonical_sign_verify_baseline() {
    let (sk, vk) = keypair();

    let mut b = Baseline {
        version: 1,
        created_by: "admin@example.com".to_string(),
        created_at: utc_now_rfc3339(),
        devices: vec![DeviceEntry {
            vendor_id: "0x046d".to_string(),
            product_id: "0xc534".to_string(),
            serial: Some("ABC".to_string()),
            bus_path: None,
            descriptors_hash: "sha256:deadbeef".to_string(),
            device_type: "hid".to_string(),
            comment: Some("test".to_string()),
        }],
        signature: None,
    };

    b.sign_attach(&sk).expect("sign");
    let ok = b.verify_signature(&vk).expect("verify");
    assert!(ok);

    // Tamper payload
    let mut tampered = b.clone();
    tampered.devices[0].product_id = "0x9999".to_string();
    let ok = tampered.verify_signature(&vk).expect("verify");
    assert!(!ok);
}

#[test]
fn keygen_sign_verify_scenario() {
    let (sk, vk) = keypair();
    let mut b = Baseline {
        version: 1,
        created_by: "admin".to_string(),
        created_at: "2024-01-01T00:00:00Z".to_string(),
        devices: vec![DeviceEntry {
            vendor_id: "0x046d".to_string(),
            product_id: "0xc534".to_string(),
            serial: Some("ABC".to_string()),
            bus_path: None,
            descriptors_hash: "".to_string(),
            device_type: "hid".to_string(),
            comment: None,
        }],
        signature: None,
    };
    b.sign_attach(&sk).expect("sign");
    // A 64-byte signature in base64 is 88 characters of base64.
    let sig = b.signature.clone().expect("signature attached");
    assert_eq!(sig.len(), 88);
    assert!(b.verify_signature(&vk).expect("verify"));
    b.devices[0].product_id = "0x9999".to_string();
    assert!(!b.verify_signature(&vk).expect("verify"));
}

#[test]
fn canonical_json_shape() {
    let b = Baseline {
        version: 1,
        created_by: "admin".to_string(),
        created_at: "2024-01-01T00:00:00Z".to_string(),
        devices: vec![DeviceEntry {
            vendor_id: "0x046d".to_string(),
            product_id: "0xc534".to_string(),
            serial: Some("A\"C".to_string()),
            bus_path: None,
            descriptors_hash: "".to_string(),
            device_type: "hid".to_string(),
            comment: None,
        }],
        signature: None,
    };
    let bytes = canonical_json_vec(&b).expect("serialize");
    let text = String::from_utf8(bytes).expect("utf8");
    assert_eq!(
        text,
        "{\"created_at\":\"2024-01-01T00:00:00Z\",\"created_by\":\"admin\",\"devices\":[\
         {\"descriptors_hash\":\"\",\"device_type\":\"hid\",\"product_id\":\"0xc534\",\
         \"serial\":\"A\\\"C\",\"vendor_id\":\"0x046d\"}],\"version\":1}"
    );
}

#[test]
fn sign_canonical_errors() {
    let (sk, vk) = keypair();
    let b = Baseline {
        version: 1,
        created_by: "admin".to_string(),
        created_at: "2024-01-01T00:00:00Z".to_string(),
        devices: vec![],
        signature: None,
    };
    let sig = sign_canonical(&sk, &b).expect("sign");
    assert!(verify_canonical(&vk, &b, &sig).expect("verify"));
    // Not base64 at all.
    assert!(verify_canonical(&vk, &b, "!!!not-base64!!!").is_err());
    // Valid base64, wrong length.
    assert!(verify_canonical(&vk, &b, "aGVsbG8=").is_err());
}

#[test]
fn audit_chain_integrity() {
    let p1 = AuditEntryPayload {
        timestamp: utc_now_rfc3339(),
        event_type: "start".to_string(),
        device_fingerprint: None,
        action: "daemon_start".to_string(),
        requester_uid: None,
    };
    let e1 = AuditEntry::new(None, p1);
    let p2 = AuditEntryPayload {
        timestamp: utc_now_rfc3339(),
        event_type: "approve".to_string(),
        device_fingerprint: Some("sha256:abc".to_string()),
        action: "allow_ephemeral".to_string(),
        requester_uid: Some(1000),
    };
    let e2 = AuditEntry::new(Some(e1.entry_hash.clone()), p2);
    let chain = vec![e1.clone(), e2.clone()];
    assert!(verify_chain(&chain));

    let mut bad = chain.clone();
    bad[1].payload.action = "tamper".to_string();
    assert!(!verify_chain(&bad));
}

#[test]
fn audit_hash_exact_value() {
    let p1 = AuditEntryPayload {
        timestamp: "2024-01-01T00:00:00Z".to_string(),
        event_type: "start".to_string(),
        device_fingerprint: None,
        action: "daemon_start".to_string(),
        requester_uid: None,
    };
    let h1 = AuditEntry::compute_hash(None, &p1);
    assert_eq!(
        h1,
        "sha256:9ebd30d694cf774d16d9ad0251880fb6ede3986c69ee168699c08c6818185457"
    );
    let p2 = AuditEntryPayload {
        timestamp: "2024-01-01T00:00:01Z".to_string(),
        event_type: "approve".to_string(),
        device_fingerprint: Some("sha256:abc".to_string()),
        action: "allow_ephemeral".to_string(),
        requester_uid: Some(1000),
    };
    let h2 = AuditEntry::compute_hash(Some(&h1), &p2);
    assert_eq!(
        h2,
        "sha256:7c1447c1d72fcb53d5ada6b09aae7b4445e10c014891b70ad4f4fbad32467494"
    );
}

#[test]
fn audit_chain_link_checks() {
    let p = |et: &str, act: &str| AuditEntryPayload {
        timestamp: "2024-01-01T00:00:00Z".to_string(),
        event_type: et.to_string(),
        device_fingerprint: None,
        action: act.to_string(),
        requester_uid: None,
    };
    let e1 = AuditEntry::new(None, p("a", "x"));
    let e2 = AuditEntry::new(Some(e1.entry_hash.clone()), p("b", "y"));
    assert!(verify_chain(&vec![e1.clone(), e2.clone()]));
    // A first entry that claims a predecessor is rejected.
    assert!(!verify_chain(&vec![e2.clone()]));
    // A broken link is rejected.
    let e3 = AuditEntry::new(None, p("c", "z"));
    assert!(!verify_chain(&vec![e1.clone(), e3]));
    // The empty chain verifies.
    assert!(verify_chain(&vec![]));
}

#[test]
fn logger_lines_chain() {
    let mut logger = lusby::audit_log::AuditLogger::new();
    let l1 = String::from_utf8(logger.log("start", None, "daemon_start", None)).expect("utf8");
    let l2 = String::from_utf8(logger.log(
        "approve",
        Some("sha256:abc".to_string()),
        "allow_ephemeral",
        Some(1000),
    ))
    .expect("utf8");
    assert!(l1.contains("\"event_type\":\"start\""));
    assert!(l1.contains("\"device_fingerprint\":null"));
    assert!(l1.contains("\"prev_hash\":null"));
    assert!(l2.contains("\"event_type\":\"approve\""));
    assert!(l2.contains("\"device_fingerprint\":\"sha256:abc\""));
    assert!(l2.contains("\"requester_uid\":1000"));
    // The second line names the first line's hash as its predecessor.
    let tag = "\"entry_hash\":\"";
    let start = l1.find(tag).expect("entry hash present") + tag.len();
    let h1 = &l1[start..start + 71];
    assert!(h1.starts_with("sha256:"));
    assert!(l2.contains(&format!("\"prev_hash\":\"{}\"", h1)));
}
