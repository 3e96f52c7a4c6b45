//! Tags, reversals, directives, candidates.

use hledger_mcp::date::Date;
use hledger_mcp::epoch::{CommitOid, Epoch};
use hledger_mcp::hledger::amount::{Amount, Quantity};
use hledger_mcp::hledger::{HledgerError, Posting, Status, Transaction, Version};
use hledger_mcp::write::{
    account_directive, build_candidate, candidate_name, commodity_directive, current_epoch, gate,
    git_status_line, is_candidate_temp, is_reversible, journal_relpath, keep_exact_tag,
    regex_escape, repo_dir, reversal_postings, sanitize, tag_query, tag_value, RepoSample,
    WriteError,
};

fn txn(tags: Vec<(String, String)>, postings: Vec<Posting>) -> Transaction {
    Transaction {
        date: Date::from_ymd_opt(2026, 1, 1).unwrap(),
        description: "x".into(),
        index: 1,
        status: Status::Unmarked,
        comment: String::new(),
        tags,
        postings,
    }
}

fn posting(account: &str, mantissa: i128, commodity: &str) -> Posting {
    Posting {
        account: account.into(),
        amounts: vec![Amount {
            commodity: commodity.into(),
            quantity: Quantity::new(mantissa, 2),
            commodity_left: true,
            spaced: false,
        }],
        comment: String::new(),
        tags: vec![],
    }
}

#[test]
fn repo_dir_and_relpath() {
    assert_eq!(
        repo_dir("/a/b/main.journal"),
        "/a/b"
    );
    assert_eq!(repo_dir("main.journal"), ".");
    assert_eq!(
        journal_relpath("/a/b/main.journal").unwrap(),
        "main.journal"
    );
}

#[test]
fn sanitize_strips_newlines_and_semicolons() {
    assert_eq!(sanitize("a;b\nc"), "a b c");
}

#[test]
fn tag_value_reads_named_tag() {
    let t = txn(vec![("id".into(), "abc".into())], vec![]);
    assert_eq!(tag_value(&t, "id").as_deref(), Some("abc"));
    assert_eq!(tag_value(&t, "missing"), None);
}

#[test]
fn reversal_negates_every_posting_amount() {
    let t = txn(
        vec![],
        vec![
            posting("expenses:x", 1234, "$"),
            posting("assets:c", -1234, "$"),
        ],
    );
    let rev = reversal_postings(&t);
    assert_eq!(rev.len(), 2);
    // first posting was +12.34 → reversal -12.34
    let (acct, amount) = &rev[0];
    assert_eq!(acct, "expenses:x");
    let (q, c) = amount.as_ref().unwrap();
    assert_eq!(q.render(), "-12.34");
    assert_eq!(c, "$");
    // second was -12.34 → +12.34
    assert_eq!(rev[1].1.as_ref().unwrap().0.render(), "12.34");
}

#[test]
fn regex_escape_escapes_metacharacters() {
    assert_eq!(regex_escape("txn-1"), "txn-1"); // hyphen is not a metachar
    assert_eq!(regex_escape("a.b"), "a\\.b");
    assert_eq!(regex_escape("a(b)c"), "a\\(b\\)c");
    assert_eq!(regex_escape("x+y*z?"), "x\\+y\\*z\\?");
    // A UUID is left intact (no metachars).
    let uuid = "1b4e28ba-2fa1-11d2-883f-0016d3cca427";
    assert_eq!(regex_escape(uuid), uuid);
}

#[test]
fn write_error_display_has_actionable_prefixes() {
    assert!(
        WriteError::Input("x".into())
            .to_string()
            .starts_with("input error:")
    );
    assert!(
        WriteError::Refused("x".into())
            .to_string()
            .starts_with("refused:")
    );
    assert!(
        WriteError::Internal("x".into())
            .to_string()
            .starts_with("internal error:")
    );
}

#[test]
fn odd_journal_paths() {
    assert_eq!(repo_dir("/main.journal"), "/");
    assert_eq!(repo_dir("a//b/./main.journal"), "a//b");
    assert_eq!(repo_dir(""), ".");
    let err = journal_relpath("/a/..").unwrap_err();
    assert_eq!(
        err.to_string(),
        "internal error: journal path has no file name: \"/a/..\""
    );
}

#[test]
fn a_candidate_is_the_journal_with_the_addition_behind_it() {
    assert_eq!(build_candidate("", "x\n"), "\nx\n");
    assert_eq!(build_candidate("a\n", "x\n"), "a\n\nx\n");
    assert_eq!(build_candidate("a", "x\n"), "a\n\nx\n");
    let once = build_candidate("a", "x\n");
    let twice = build_candidate(&once, "y\n");
    assert!(twice.starts_with(&once) && twice.ends_with("\n\ny\n"));
}

#[test]
fn candidate_files_have_fresh_names_that_are_recognised() {
    let (a, b) = (candidate_name(), candidate_name());
    assert_ne!(a, b);
    for name in [&a, &b] {
        assert!(is_candidate_temp(name), "{name}");
        assert_eq!(name.len(), ".hledger-mcp-candidate-".len() + 36 + ".journal".len());
    }
    assert_eq!(a.chars().nth(23 + 14), Some('4'), "a random UUID: {a}");
    assert!(!is_candidate_temp("main.journal"));
    assert!(!is_candidate_temp(".hledger-mcp-candidate-x.tmp"));
}

#[test]
fn the_version_decides_whether_writes_are_possible() {
    let version = |major, minor| Ok(Version { raw: String::new(), major, minor });
    assert_eq!(gate(Some("/j"), &version(1, 52)).unwrap(), "/j");
    assert_eq!(
        gate(Some("/j"), &version(1, 51)).unwrap_err().to_string(),
        "refused: refusing to write against hledger 1.51 (write path requires the pinned 1.52)"
    );
    assert_eq!(
        gate(None, &version(1, 52)).unwrap_err().to_string(),
        "refused: no journal configured"
    );
    let missing = Err(HledgerError::Spawn { bin: "h".to_string(), source: "gone".to_string() });
    assert_eq!(
        gate(Some("/j"), &missing).unwrap_err().to_string(),
        "refused: hledger unavailable: could not run hledger (h): gone"
    );
}

#[test]
fn the_head_is_the_epoch() {
    let oid = || CommitOid::new("ab".repeat(20));
    assert_eq!(current_epoch(RepoSample::NoRepo).unwrap(), Epoch::new(None));
    let born = RepoSample::Repo { dirty: None, head: Ok(Some(oid())) };
    assert_eq!(current_epoch(born).unwrap(), Epoch::new(Some(oid())));
    let unborn = RepoSample::Repo { dirty: None, head: Ok(None) };
    assert_eq!(current_epoch(unborn).unwrap(), Epoch::new(None));
    let failed = current_epoch(RepoSample::Failed("locked".to_string()));
    assert_eq!(failed.unwrap_err().to_string(), "internal error: git: locked");
    let unread = RepoSample::Repo { dirty: None, head: Err("torn".to_string()) };
    assert_eq!(current_epoch(unread).unwrap_err().to_string(), "internal error: git: torn");
}

#[test]
fn git_status_line_reports_no_journal_then_repo_state() {
    assert!(git_status_line(false, &RepoSample::NoRepo).contains("no journal yet"));
    assert!(git_status_line(true, &RepoSample::NoRepo).contains("not a git repo"));
    let head = || Ok(Some(CommitOid::new("0123456789abcdef".to_string())));
    let line = git_status_line(true, &RepoSample::Repo { dirty: Some(false), head: head() });
    assert!(line.starts_with("git: ") && line.contains("clean"), "{line}");
    assert_eq!(
        git_status_line(true, &RepoSample::Repo { dirty: Some(true), head: head() }),
        "git: 0123456789ab (dirty)"
    );
    assert_eq!(
        git_status_line(true, &RepoSample::Repo { dirty: None, head: Ok(None) }),
        "git: (no commits yet, clean)"
    );
    assert_eq!(
        git_status_line(true, &RepoSample::Failed("e".to_string())),
        "git: error (e)"
    );
}

#[test]
fn only_exact_tags_are_kept() {
    let tagged = |v: &str| txn(vec![("idem".into(), v.into())], vec![]);
    let kept = keep_exact_tag(
        vec![tagged("txn-10"), tagged("txn-1"), txn(vec![], vec![]), tagged("txn-1")],
        "idem",
        "txn-1",
    );
    assert_eq!(kept, vec![tagged("txn-1"), tagged("txn-1")]);
    assert_eq!(tag_query("idem", "a.b"), "tag:idem=^a\\.b$");
}

#[test]
fn a_reversal_cancels_what_it_reverses() {
    let t = txn(vec![], vec![posting("a", 5, "$"), posting("b", -7, "EUR")]);
    assert!(is_reversible(&t));
    let there: i128 = t.postings[0].amounts[0].quantity.mantissa;
    let back: i128 = reversal_postings(&t)[0].1.as_ref().unwrap().0.mantissa;
    assert_eq!(there + back, 0);
    assert!(!is_reversible(&txn(vec![], vec![posting("a", i128::MIN, "$")])));
    assert!(reversal_postings(&txn(vec![], vec![])).is_empty());
}

#[test]
fn directives() {
    assert_eq!(
        account_directive(" assets:checking ").unwrap(),
        ("assets:checking".to_string(), "account assets:checking\n".to_string())
    );
    for bad in ["", "  ", "a\nb", "a;b", ":a", "a:"] {
        let err = account_directive(bad).unwrap_err().to_string();
        assert_eq!(err, format!("input error: invalid account name: '{}'", bad.trim()));
    }
    assert_eq!(
        commodity_directive("$", 2).unwrap(),
        ("$".to_string(), "commodity $1000.00\n".to_string())
    );
    assert_eq!(commodity_directive("EUR", 0).unwrap().1, "commodity 1000 EUR\n");
    assert_eq!(commodity_directive("EUR", 3).unwrap().1, "commodity 1000.000 EUR\n");
    for bad in ["", "a b", "a1", "a;", "a\nb"] {
        let err = commodity_directive(bad, 2).unwrap_err().to_string();
        assert_eq!(err, format!("input error: invalid commodity symbol: '{bad}'"));
    }
}

#[test]
fn errors_of_files_and_repositories_are_internal() {
    assert_eq!(
        WriteError::io("read journal", "gone").to_string(),
        "internal error: read journal: gone"
    );
    assert_eq!(WriteError::git("torn").to_string(), "internal error: git: torn");
}
