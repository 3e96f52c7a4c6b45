//! The resources.

use hledger_mcp::resources::{
    find_static, resolve, static_resources, Requested, SESSION_CONTEXT_URI, VENDORS_URI,
};
use hledger_mcp::server::resource_listing;

#[test]
fn uris_are_unique_and_findable() {
    for resource in static_resources() {
        let found = find_static(resource.uri).expect(resource.uri);
        assert_eq!(found.name, resource.name);
    }
    assert!(find_static(VENDORS_URI).is_none(), "vendors is dynamic");
    assert!(find_static("ledger://nope").is_none());
}

#[test]
fn every_guide_has_substantive_content_and_metadata() {
    for resource in static_resources() {
        assert!(resource.uri.starts_with("ledger://"), "{}", resource.uri);
        assert!(
            resource.content.len() > 200,
            "{} content suspiciously short",
            resource.name
        );
        assert!(!resource.description.is_empty(), "{}", resource.name);
    }
}

/// The session-context resource indexes every other resource (including the dynamic one)
/// and never goes stale against the list.
#[test]
fn session_context_indexes_all_resources() {
    let session = find_static(SESSION_CONTEXT_URI).expect("session-context");
    for resource in static_resources() {
        assert!(
            session.content.contains(resource.uri),
            "session-context missing {}",
            resource.uri
        );
    }
    assert!(session.content.contains(VENDORS_URI));
}

#[test]
fn what_a_uri_asks_for() {
    assert!(matches!(resolve(SESSION_CONTEXT_URI), Requested::Guide(r) if r.name == "session-context"));
    assert_eq!(resolve(VENDORS_URI), Requested::Vendors);
    assert_eq!(
        resolve("ledger://nope"),
        Requested::Unknown(
            "unknown resource 'ledger://nope' — see ledger://session-context for the index".to_string()
        )
    );
    let listing = resource_listing();
    assert_eq!(listing.len(), 7);
    assert_eq!(listing[0].uri, SESSION_CONTEXT_URI);
    assert_eq!(listing[6].uri, VENDORS_URI);
    let session = find_static(SESSION_CONTEXT_URI).unwrap().content;
    assert!(session.contains("Tool groups"));
    assert!(hledger_mcp::guides::INSTRUCTIONS.contains(SESSION_CONTEXT_URI));
}
