use lusby::config::{default_ttl, Config, ConfigPolicy};

#[test]
fn test_default_ttl() {
    assert_eq!(default_ttl(), 300);
}

#[test]
fn test_config_policy_default() {
    let policy = ConfigPolicy::default();
    assert_eq!(policy.default_ttl_secs, 300);
}

#[test]
fn config_default_carries_policy() {
    let config = Config::default();
    assert_eq!(config.policy.default_ttl_secs, 300);
}
