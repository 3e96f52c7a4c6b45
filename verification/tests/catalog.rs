//! What is advertised of the tools.

use hledger_mcp::catalog::{advertised, meta, tools, Profile, Tier};

#[test]
fn full_advertises_everything_including_unknown_names() {
    for tool in tools() {
        assert!(advertised(Profile::Full, tool.name), "{}", tool.name);
    }
    assert!(advertised(Profile::Full, "tool_from_a_newer_build"));
}

#[test]
fn filtered_profiles_exclude_unknown_names() {
    for profile in [
        Profile::Operational,
        Profile::Readonly,
        Profile::Setup,
        Profile::Construction,
        Profile::Reconcile,
    ] {
        assert!(!advertised(profile, "no_such_tool"), "{profile:?}");
    }
}

#[test]
fn operational_is_exactly_tier_one() {
    for tool in tools() {
        assert_eq!(
            advertised(Profile::Operational, tool.name),
            tool.tier == Tier::Operational,
            "{}",
            tool.name
        );
    }
}

#[test]
fn readonly_and_reconcile_are_exactly_the_read_only_tools() {
    for profile in [Profile::Readonly, Profile::Reconcile] {
        for tool in tools() {
            assert_eq!(
                advertised(profile, tool.name),
                tool.read_only,
                "{}",
                tool.name
            );
        }
    }
    // The boundary that matters: writes are not advertised, reads are.
    assert!(!advertised(Profile::Readonly, "post_transaction"));
    assert!(advertised(Profile::Readonly, "get_account_balance"));
}

#[test]
fn setup_is_the_administrative_tier_plus_status() {
    assert!(advertised(Profile::Setup, "status"));
    assert!(advertised(Profile::Setup, "vendor_add"));
    assert!(advertised(Profile::Setup, "budget_set"));
    assert!(!advertised(Profile::Setup, "post_transaction"));
    assert!(!advertised(Profile::Setup, "get_account_balance"));
}

#[test]
fn construction_is_tier_one_plus_eco() {
    assert!(advertised(Profile::Construction, "post_transaction"));
    assert!(advertised(Profile::Construction, "eco_approve"));
    assert!(!advertised(Profile::Construction, "vendor_add"));
    assert!(!advertised(Profile::Construction, "budget_set"));
}

#[test]
fn every_tier_two_tool_has_a_one_line_summary_and_tier_one_has_none() {
    for tool in tools() {
        match tool.tier {
            Tier::Administrative => assert!(
                !tool.summary.is_empty() && !tool.summary.contains('\n'),
                "{} needs a one-line summary",
                tool.name
            ),
            Tier::Operational => {
                assert!(tool.summary.is_empty(), "{} summary unused", tool.name);
            }
        }
    }
}

#[test]
fn profile_round_trips_through_fromstr_and_display() {
    for name in Profile::names() {
        let profile: Profile = name.parse().expect(name);
        assert_eq!(profile.to_string(), name);
    }
    assert!("bogus".parse::<Profile>().is_err());
}

#[test]
fn names_are_unique_and_found() {
    let all = tools();
    assert_eq!(all.len(), 24);
    for tool in &all {
        assert_eq!(all.iter().filter(|t| t.name == tool.name).count(), 1);
        assert_eq!(meta(tool.name), Some(*tool));
    }
    assert_eq!(meta("nothing"), None);
    assert_eq!(Profile::default(), Profile::Full);
    assert_eq!(
        Profile::from_name("bogus").unwrap_err(),
        "unknown profile 'bogus' (expected one of: full, operational, readonly, setup, construction, reconcile)"
    );
}
