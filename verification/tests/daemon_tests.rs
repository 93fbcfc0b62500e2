use base64::Engine;
use lusby::baseline::{Baseline, DeviceEntry};
use lusby::crypto::canonical_json_vec;
use lusby::daemon::{generate_rules_from_baseline, DaemonState};
use lusby::ed25519::ed25519_public_key;
use lusby::mock::MockBackend;

fn lines_text(state: &mut DaemonState<MockBackend>) -> String {
    let mut out = String::new();
    for line in state.take_pending_audit() {
        out.push_str(&String::from_utf8(line).expect("utf8"));
        out.push('\n');
    }
    out
}

fn sample_baseline() -> Baseline {
    Baseline {
        version: 1,
        created_by: "admin".to_string(),
        created_at: "2024-01-01T00:00:00Z".to_string(),
        devices: vec![DeviceEntry {
            vendor_id: "0x046d".to_string(),
            product_id: "0xc534".to_string(),
            serial: Some("ABC".to_string()),
            bus_path: None,
            descriptors_hash: "".to_string(),
            device_type: "hid".to_string(),
            comment: None,
        }],
        signature: None,
    }
}

#[test]
fn daemonstate_initialization() {
    let backend = MockBackend::default();
    let state =
        DaemonState::new_with_audit_path(backend, "/tmp/lusby-test-audit.log".to_string());
    assert_eq!(state.ephemeral_count(), 0);
}

#[test]
fn policy_status_defaults() {
    let state = DaemonState::new(MockBackend::default());
    assert!(state.get_policy_status().deny_unknown);
    assert_eq!(state.get_policy_status_string(), "deny_unknown=true");
}

#[test]
fn device_lookup() {
    let state = DaemonState::new(MockBackend::new_with_sample());
    let devices = state.list_devices();
    assert_eq!(devices.len(), 1);
    let d = state.get_device_info("dev1");
    assert_eq!(d.vendor_id, "0x046d");
    let missing = state.get_device_info("nope");
    assert_eq!(missing.id, "");
    assert!(!missing.allowed);
}

#[test]
fn ephemeral_lifecycle() {
    let mut state = DaemonState::new(MockBackend::new_with_sample());
    // Valid request: granted, expiry recorded as now + ttl.
    assert!(state.request_ephemeral_allow("2-1", 300, 1000, 1_000_000));
    assert_eq!(state.ephemeral_count(), 1);
    assert_eq!(state.grant_expiry("2-1"), Some(1_000_300));
    let text = lines_text(&mut state);
    assert!(text.contains("\"event_type\":\"ephemeral_allow\""));
    assert!(text.contains("\"action\":\"allow_ok\""));
    assert!(text.contains("\"requester_uid\":1000"));

    // TTL out of range: rejected and audited, map unchanged.
    assert!(!state.request_ephemeral_allow("2-1", 0, 1000, 1_000_000));
    assert_eq!(state.ephemeral_count(), 1);
    let text = lines_text(&mut state);
    assert!(text.contains("\"event_type\":\"ephemeral_allow_reject\""));
    assert!(text.contains("\"action\":\"invalid_input\""));

    // Session suspend: everything revoked, each revocation audited.
    state.revoke_all_ephemeral();
    assert_eq!(state.ephemeral_count(), 0);
    let text = lines_text(&mut state);
    assert!(text.contains("\"event_type\":\"auto_revoke\""));
    assert!(text.contains("\"action\":\"revoke_on_lock_or_sleep\""));
    assert!(text.contains("\"device_fingerprint\":\"2-1\""));
}

#[test]
fn ephemeral_validation_bounds() {
    let mut state = DaemonState::new(MockBackend::new_with_sample());
    // Empty id.
    assert!(!state.request_ephemeral_allow("", 300, 1000, 0));
    // Id longer than 64 bytes.
    let long = "x".repeat(65);
    assert!(!state.request_ephemeral_allow(&long, 300, 1000, 0));
    // Non-ASCII id.
    assert!(!state.request_ephemeral_allow("ä", 300, 1000, 0));
    // Uid zero.
    assert!(!state.request_ephemeral_allow("2-1", 300, 0, 0));
    // TTL above one day.
    assert!(!state.request_ephemeral_allow("2-1", 86401, 1000, 0));
    assert_eq!(state.ephemeral_count(), 0);
    // Boundary values are accepted.
    assert!(state.request_ephemeral_allow("2-1", 86400, 1, 0));
    let ok64 = "y".repeat(64);
    assert!(state.request_ephemeral_allow(&ok64, 1, 1, 0));
    assert_eq!(state.ephemeral_count(), 2);
}

#[test]
fn revoke_device_drops_grant() {
    let mut state = DaemonState::new(MockBackend::new_with_sample());
    assert!(state.request_ephemeral_allow("2-1", 300, 1000, 50));
    assert_eq!(state.ephemeral_count(), 1);
    assert!(state.revoke_device("2-1"));
    assert_eq!(state.ephemeral_count(), 0);
    let text = lines_text(&mut state);
    assert!(text.contains("\"event_type\":\"revoke\""));
    assert!(text.contains("\"action\":\"revoke_ok\""));
    // Invalid id is rejected and audited.
    assert!(!state.revoke_device(""));
    let text = lines_text(&mut state);
    assert!(text.contains("\"event_type\":\"revoke_reject\""));
}

#[test]
fn persistent_apply_happy_path() {
    let sk: [u8; 32] = [7; 32];
    let sk = sk.to_vec();
    let vk = ed25519_public_key(&sk);
    let mut b = sample_baseline();
    b.sign_attach(&sk).expect("sign");
    let data = canonical_json_vec(&b).expect("serialize");

    let mut state = DaemonState::new(MockBackend::default());
    assert!(state.apply_persistent_begin("/etc/lusby/baselines/new.json", true));
    let keys = vec![vk];
    let plan = state
        .apply_verify_and_plan(&b, &keys, &data, "20240101T000000Z")
        .expect("a trusted key verifies");
    assert_eq!(plan.archive_name, "baseline_20240101T000000Z.json");
    assert_eq!(plan.archive_bytes, data);
    assert_eq!(plan.rules_text, "allow id 046d:c534 serial \"ABC\"\n");
    assert!(state.apply_record_result(true));
    let text = lines_text(&mut state);
    assert!(text.contains("\"event_type\":\"persistent_allow\""));
    assert!(text.contains("\"action\":\"baseline_applied\""));
}

#[test]
fn persistent_apply_untrusted_signer() {
    let sk = vec![7u8; 32];
    let other = vec![9u8; 32];
    let other_vk = ed25519_public_key(&other);
    let mut b = sample_baseline();
    b.sign_attach(&sk).expect("sign");
    let data = canonical_json_vec(&b).expect("serialize");

    let state = DaemonState::new(MockBackend::default());
    // Signed by a key that is not in the store: no plan, nothing archived.
    assert!(state
        .apply_verify_and_plan(&b, &vec![other_vk], &data, "20240101T000000Z")
        .is_none());
    // No keys at all.
    assert!(state
        .apply_verify_and_plan(&b, &vec![], &data, "20240101T000000Z")
        .is_none());
    // A key of the wrong length is skipped, not misused.
    assert!(state
        .apply_verify_and_plan(&b, &vec![vec![1u8; 16]], &data, "20240101T000000Z")
        .is_none());
}

#[test]
fn persistent_apply_path_traversal() {
    let mut state = DaemonState::new(MockBackend::default());
    assert!(!state.apply_persistent_begin("/etc/app/baselines/../../etc/shadow", true));
    let text = lines_text(&mut state);
    assert!(text.contains("\"event_type\":\"security\""));
    assert!(text.contains("\"action\":\"baseline_path_traversal_attempt\""));
    // Dots inside a name are not parent references.
    assert!(state.apply_persistent_begin("/etc/lusby/baselines/a..b.json", true));
    // A bare leading parent reference is.
    assert!(!state.apply_persistent_begin("../shadow", true));
}

#[test]
fn persistent_apply_unauthorized() {
    let mut state = DaemonState::new(MockBackend::default());
    assert!(!state.apply_persistent_begin("/etc/lusby/baselines/new.json", false));
    let text = lines_text(&mut state);
    assert!(text.contains("\"event_type\":\"policy_denied\""));
    assert!(text.contains("\"action\":\"polkit_denied\""));
}

#[test]
fn trusted_key_operations() {
    let state = DaemonState::new(MockBackend::default());
    let key = [5u8; 32];
    let b64 = base64::engine::general_purpose::STANDARD.encode(key);

    // Adding decodes and names the file.
    let (fname, bytes) = state
        .add_trusted_pubkey("admin", &b64, true)
        .expect("valid key");
    assert_eq!(fname, "admin.pub");
    assert_eq!(bytes, key.to_vec());
    let (fname2, _) = state
        .add_trusted_pubkey("ops.pub", &b64, true)
        .expect("valid key");
    assert_eq!(fname2, "ops.pub");
    // Refusals: unauthorized, not base64, wrong length.
    assert!(state.add_trusted_pubkey("admin", &b64, false).is_none());
    assert!(state.add_trusted_pubkey("admin", "***", true).is_none());
    let short = base64::engine::general_purpose::STANDARD.encode([1u8; 8]);
    assert!(state.add_trusted_pubkey("admin", &short, true).is_none());

    // Listing filters to `.pub` and sorts.
    let names = vec![
        "b.pub".to_string(),
        "a.pub".to_string(),
        "notes.txt".to_string(),
        "c.pub".to_string(),
    ];
    let listed = state.list_trusted_pubkeys(&names, true);
    assert_eq!(listed, vec!["a.pub", "b.pub", "c.pub"]);
    assert!(state.list_trusted_pubkeys(&names, false).is_empty());

    // Removal names the right file.
    assert_eq!(
        state.remove_trusted_pubkey("admin", true),
        Some("admin.pub".to_string())
    );
    assert_eq!(
        state.remove_trusted_pubkey("ops.pub", true),
        Some("ops.pub".to_string())
    );
    assert_eq!(state.remove_trusted_pubkey("admin", false), None);
}

#[test]
fn rules_generation_details() {
    let b = Baseline {
        version: 1,
        created_by: "admin".to_string(),
        created_at: "2024-01-01T00:00:00Z".to_string(),
        devices: vec![
            DeviceEntry {
                vendor_id: "0X046D".to_string(),
                product_id: "0x0xC534".to_string(),
                serial: Some("A\"B".to_string()),
                bus_path: None,
                descriptors_hash: "".to_string(),
                device_type: "hid".to_string(),
                comment: None,
            },
            DeviceEntry {
                vendor_id: "0x1d6b".to_string(),
                product_id: "0x0002".to_string(),
                serial: None,
                bus_path: None,
                descriptors_hash: "".to_string(),
                device_type: "".to_string(),
                comment: None,
            },
        ],
        signature: None,
    };
    // `0x` prefixes are stripped repeatedly but case-sensitively, then
    // lowercased; quotes in serials are escaped; order is kept.
    assert_eq!(
        generate_rules_from_baseline(&b),
        "allow id 0x046d:c534 serial \"A\\\"B\"\nallow id 1d6b:0002\n"
    );
}
