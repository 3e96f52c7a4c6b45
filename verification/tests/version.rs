//! The version banner and plain lists.

use hledger_mcp::hledger::{captured_output, nonempty_lines, parse_version, resolve_bin, HledgerError};

#[test]
fn parses_real_version_banner() {
    let v = parse_version("hledger 1.52, mac-aarch64").expect("parse");
    assert_eq!((v.major, v.minor), (1, 52));
    assert!(v.pin_matches());
}

#[test]
fn parses_patch_version_and_ignores_arch() {
    let v = parse_version("hledger 1.52.1, linux-x86_64\nextra line").expect("parse");
    assert_eq!((v.major, v.minor), (1, 52));
    assert!(v.pin_matches());
}

#[test]
fn detects_pin_mismatch() {
    assert!(!parse_version("hledger 1.51, mac").unwrap().pin_matches());
    assert!(!parse_version("hledger 2.0, mac").unwrap().pin_matches());
}

#[test]
fn rejects_unparseable_banner() {
    assert!(matches!(
        parse_version("not a version string"),
        Err(HledgerError::BadVersion(_))
    ));
    assert!(parse_version("").is_err());
}

#[test]
fn from_env_falls_back_to_path_when_unset() {
    assert_eq!(resolve_bin(None), "hledger");
    assert_eq!(resolve_bin(Some(String::new())), "hledger");
    assert_eq!(resolve_bin(Some("/store/bin/hledger".to_string())), "/store/bin/hledger");
}

#[test]
fn nonempty_lines_trims_and_drops_blanks() {
    assert_eq!(
        nonempty_lines("$\n  EUR \n\n\tGBP\n"),
        vec!["$".to_string(), "EUR".to_string(), "GBP".to_string()]
    );
    assert!(nonempty_lines("   \n\n").is_empty());
}

#[test]
fn versions_at_the_edges() {
    let v = parse_version("  hledger 1.52.99-abc, x\n").unwrap();
    assert_eq!((v.raw.as_str(), v.major, v.minor), ("hledger 1.52.99-abc, x", 1, 52));
    assert!(parse_version("hledger 1").is_err(), "no minor part");
    assert!(parse_version("hledger 1.").is_err(), "empty minor part");
    assert!(parse_version("hledger 4294967296.1").is_err(), "too large");
    assert_eq!(parse_version("x 4294967295.0").unwrap().major, u32::MAX);
    assert_eq!(
        parse_version("\n1.52").unwrap_err(),
        HledgerError::BadVersion(String::new())
    );
}

#[test]
fn errors_and_their_messages() {
    let captured = |ok| {
        captured_output(ok, "exit status: 1".to_string(), "out".to_string(), " oops\n")
    };
    assert_eq!(captured(true), Ok("out".to_string()));
    assert_eq!(
        captured(false).unwrap_err().to_string(),
        "hledger exited unsuccessfully (exit status: 1): oops"
    );
    assert_eq!(
        HledgerError::NoJournal.to_string(),
        "no journal configured (set --journal or LEDGER_FILE)"
    );
    assert_eq!(
        HledgerError::Parse("x".to_string()).to_string(),
        "could not parse hledger JSON output: x"
    );
}
