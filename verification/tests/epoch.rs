//! The epoch check.

use hledger_mcp::epoch::{check, is_oid_text, CommitOid, Epoch, Stale, ToolClass};

fn epoch(oid: &str) -> Epoch {
    Epoch::new(Some(CommitOid::new(oid.to_string())))
}

#[test]
fn record_passes_at_any_epoch() {
    let head = epoch("aaaa");
    assert_eq!(check(ToolClass::Record, None, &head), Ok(()));
    assert_eq!(
        check(ToolClass::Record, Some(&epoch("bbbb")), &head),
        Ok(())
    );
    assert_eq!(check(ToolClass::Record, Some(&head), &head), Ok(()));
}

#[test]
fn decide_passes_only_on_exact_match() {
    let head = epoch("aaaa");
    assert_eq!(
        check(ToolClass::Decide, Some(&epoch("aaaa")), &head),
        Ok(())
    );
    let stale = check(ToolClass::Decide, Some(&epoch("bbbb")), &head).unwrap_err();
    assert_eq!(stale.seen, Some(epoch("bbbb")));
    assert_eq!(stale.head, head);
}

#[test]
fn decide_without_a_prior_read_is_stale() {
    // A connection that never read has no grounded belief — even on an unborn repo
    // a decide must be preceded by a read.
    let stale = check(ToolClass::Decide, None, &epoch("aaaa")).unwrap_err();
    assert_eq!(stale.seen, None);
    assert!(stale.to_string().contains("never read"));
}

#[test]
fn unborn_head_is_a_real_epoch() {
    let unborn = Epoch::new(None);
    // Read-then-decide on a fresh repo: last-seen = unborn = HEAD → passes.
    assert_eq!(check(ToolClass::Decide, Some(&unborn), &unborn), Ok(()));
    // But unborn ≠ a born epoch.
    assert!(check(ToolClass::Decide, Some(&unborn), &epoch("aaaa")).is_err());
    assert!(check(ToolClass::Decide, Some(&epoch("aaaa")), &unborn).is_err());
}

#[test]
fn short_forms_render_for_humans() {
    assert_eq!(epoch("0123456789abcdef").short(), "0123456789ab");
    assert_eq!(epoch("ab").short(), "ab");
    assert_eq!(Epoch::new(None).short(), "(unborn)");
    let msg = Stale {
        seen: Some(epoch("0123456789abcdef")),
        head: epoch("fedcba9876543210"),
    }
    .to_string();
    assert!(msg.contains("STALE"), "{msg}");
    assert!(msg.contains("0123456789ab"), "{msg}");
    assert!(msg.contains("fedcba987654"), "{msg}");
    assert!(msg.contains("Re-read"), "re-read hint present: {msg}");
}

#[test]
fn stale_messages_are_exact() {
    let stale = check(ToolClass::Decide, None, &Epoch::new(None)).unwrap_err();
    assert_eq!(
        stale.to_string(),
        "STALE: this decision was made against epoch (never read) but the ledger is now at (unborn). Re-read the relevant state, then retry."
    );
    assert_eq!(epoch("ab").oid(), Some("ab"));
    assert_eq!(Epoch::new(None).oid(), None);
    assert_eq!(CommitOid::new("AbCd".to_string()).to_string(), "AbCd");
    assert!(is_oid_text("09afAF") && is_oid_text("") && !is_oid_text("xyz") && !is_oid_text("a b"));
}
