//! Which revision of the protocol is spoken.

use hledger_mcp::protocol::{effective_version, latest_supported, negotiate, supported_versions};

#[test]
fn supported_newest_equals_latest_supported() {
    // Guards the single-source-of-truth: `latest_supported()` (== SDK LATEST) must be
    // the newest entry of `SUPPORTED`, else `negotiate`/`effective_version` cap wrong.
    assert_eq!(supported_versions().last().cloned(), Some(latest_supported()));
    assert_eq!(latest_supported(), "2025-11-25");
}

// --- negotiate: our preferred response (pre-reconciliation) ---

#[test]
fn negotiate_echoes_each_supported_version() {
    for v in &supported_versions() {
        assert_eq!(
            &negotiate(v),
            v,
            "a supported version is the preferred response"
        );
    }
}

#[test]
fn negotiate_caps_unknown_versions_to_latest() {
    // Both an unknown future RC and an unknown legacy revision *prefer* the newest.
    assert_eq!(negotiate("2026-07-28"), latest_supported());
    assert_eq!(negotiate("2024-01-01"), latest_supported());
}

// --- effective_version: what actually reaches the wire (rmcp's min) ---

#[test]
fn effective_echoes_supported_version() {
    assert_eq!(
        effective_version("2024-11-05"),
        "2024-11-05"
    );
}

#[test]
fn effective_caps_unknown_newer_to_latest() {
    // Lexically > newest → rmcp keeps our cap.
    assert_eq!(
        effective_version("2026-07-28"),
        latest_supported()
    );
}

#[test]
fn effective_returns_unknown_older_as_requested() {
    // Lexically < newest → rmcp's min picks the client's version; our cap does NOT reach
    // the wire here. This documents the rmcp limitation rather than asserting a fiction.
    let legacy = "2024-01-01";
    assert_eq!(effective_version(legacy), legacy);
    assert_ne!(effective_version(legacy), latest_supported());
}
