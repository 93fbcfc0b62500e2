use lusby::cli::{Cli, Commands};

fn args(parts: &[&str]) -> Vec<String> {
    parts.iter().map(|p| p.to_string()).collect()
}

#[test]
fn test_cli_parsing_list() {
    let cli = Cli::parse_from(&args(&["lusbyctl", "list"])).expect("parse");
    match cli.command {
        Commands::List => {}
        _ => panic!("List command not parsed correctly"),
    }
}

#[test]
fn test_cli_parsing_status() {
    let cli = Cli::parse_from(&args(&["lusbyctl", "status"])).expect("parse");
    match cli.command {
        Commands::Status => {}
        _ => panic!("Status command not parsed correctly"),
    }
}

#[test]
fn cli_parsing_devices_and_ttl() {
    match Cli::parse_from(&args(&["lusbyctl", "info", "2-1"]))
        .expect("parse")
        .command
    {
        Commands::Info { device } => assert_eq!(device, "2-1"),
        _ => panic!("Info command not parsed correctly"),
    }
    match Cli::parse_from(&args(&["lusbyctl", "revoke", "2-1"]))
        .expect("parse")
        .command
    {
        Commands::Revoke { device } => assert_eq!(device, "2-1"),
        _ => panic!("Revoke command not parsed correctly"),
    }
    match Cli::parse_from(&args(&["lusbyctl", "allow", "2-1"]))
        .expect("parse")
        .command
    {
        Commands::Allow(a) => {
            assert_eq!(a.device, "2-1");
            assert_eq!(a.ttl, 300);
        }
        _ => panic!("Allow command not parsed correctly"),
    }
    match Cli::parse_from(&args(&["lusbyctl", "allow", "2-1", "--ttl", "42"]))
        .expect("parse")
        .command
    {
        Commands::Allow(a) => {
            assert_eq!(a.device, "2-1");
            assert_eq!(a.ttl, 42);
        }
        _ => panic!("Allow command not parsed correctly"),
    }
    match Cli::parse_from(&args(&["lusbyctl", "tui"])).expect("parse").command {
        Commands::Tui => {}
        _ => panic!("Tui command not parsed correctly"),
    }
}

#[test]
fn cli_parsing_rejections() {
    assert!(Cli::parse_from(&args(&["lusbyctl"])).is_none());
    assert!(Cli::parse_from(&args(&["lusbyctl", "frobnicate"])).is_none());
    assert!(Cli::parse_from(&args(&["lusbyctl", "list", "extra"])).is_none());
    assert!(Cli::parse_from(&args(&["lusbyctl", "allow"])).is_none());
    assert!(Cli::parse_from(&args(&["lusbyctl", "allow", "2-1", "--ttl", "abc"])).is_none());
    assert!(Cli::parse_from(&args(&["lusbyctl", "allow", "2-1", "--ttl", ""])).is_none());
    // A TTL beyond u32 is refused rather than wrapped.
    assert!(Cli::parse_from(&args(&["lusbyctl", "allow", "2-1", "--ttl", "4294967296"]))
        .is_none());
    // The largest representable TTL still parses.
    match Cli::parse_from(&args(&["lusbyctl", "allow", "2-1", "--ttl", "4294967295"]))
        .expect("parse")
        .command
    {
        Commands::Allow(a) => assert_eq!(a.ttl, 4294967295),
        _ => panic!("Allow command not parsed correctly"),
    }
}
