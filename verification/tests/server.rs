//! What the tools answer.

use hledger_mcp::catalog::{meta, tools, Profile, Tier};
use hledger_mcp::date::Date;
use hledger_mcp::epoch::{CommitOid, Epoch, ToolClass};
use hledger_mcp::hledger::amount::{Amount, Quantity};
use hledger_mcp::hledger::{
    AccountBalance, BalanceReport, BudgetReport, BudgetRow, CompositeReport, HledgerError, Posting,
    Status, Transaction, Version,
};
use hledger_mcp::server::args::{BudgetSetArgs, GetApAgingArgs};
use hledger_mcp::server::orders::{ApprovedOrder, RecordedOrder, VoidedOrder};
use hledger_mcp::server::{
    adapter_error, advertised_tools, aging_day, ap_aging_text, balance_text, budget_list,
    budget_list_text, budget_set_text, budget_text, closed_account_text, declared_account_text,
    declared_commodity_text, eco_approved_text, eco_recorded_text, eco_voided_text, epoch_line,
    post_outcome_text, project_summary_text, render_balance, render_transactions, updated_text,
    vendor_added_text, vendor_list_text, vendors_text, version_line, voided_text,
    write_error_result, HledgerMcp, Tool, SERVER_NAME,
};
use hledger_mcp::write::budget::{BudgetPeriod, BudgetRule};
use hledger_mcp::write::{CommitOutcome, RepoSample, WriteError, WriteOutcome};

/// A server whose adapter has no journal (and a bogus binary) — fine for the tools that
/// don't touch hledger (`echo`) and for exercising the `NoJournal` error path.
fn test_server() -> HledgerMcp {
    HledgerMcp::new("hledger".to_string(), None)
}

#[test]
fn version_line_distinguishes_pinned_mismatch_and_unavailable() {
    let v = |major, minor| Version {
        raw: format!("hledger {major}.{minor}"),
        major,
        minor,
    };
    let pinned = version_line(&Ok(v(1, 52)));
    assert!(pinned.contains("(pinned)"), "{pinned}");
    assert!(!pinned.contains("MISMATCH"), "{pinned}");

    let mismatch = version_line(&Ok(v(1, 99)));
    assert!(mismatch.contains("MISMATCH"), "{mismatch}");
    assert!(!mismatch.contains("(pinned)"), "{mismatch}");

    let unavailable = version_line(&Err(HledgerError::BadVersion(
        "garbage".to_string(),
    )));
    assert!(unavailable.contains("unavailable"), "{unavailable}");
}

#[test]
fn epoch_line_distinguishes_fresh_stale_and_unread() {
    let epoch = |c: char| Epoch::new(Some(CommitOid::new(c.to_string().repeat(40))));
    let head = epoch('a');

    let fresh = epoch_line(&head, Some(&epoch('a')));
    assert!(fresh.contains("(fresh)"), "{fresh}");
    assert!(!fresh.contains("STALE"), "{fresh}");

    let stale = epoch_line(&head, Some(&epoch('b')));
    assert!(stale.contains("STALE"), "{stale}");
    assert!(!stale.contains("(fresh)"), "{stale}");

    let unread = epoch_line(&head, None);
    assert!(unread.contains("no read yet"), "{unread}");
}

#[test]
fn vendors_text_pairs_each_declared_vendor_with_its_own_balance_row() {
    let accounts = vec![
        "assets:checking".to_string(), // not a vendor — filtered out
        "liabilities:ap:vendor:Acme".to_string(),
        "liabilities:ap:vendor:PaidUp".to_string(), // no balance row → 0
    ];
    let balance = BalanceReport {
        rows: vec![AccountBalance {
            account: "liabilities:ap:vendor:Acme".to_string(),
            amounts: vec![Amount {
                commodity: "$".into(),
                quantity: Quantity::new(-250000, 2),
                commodity_left: true,
                spaced: false,
            }],
        }],
        totals: vec![],
    };
    let text = vendors_text(&accounts, &balance);
    assert_eq!(
        text,
        "liabilities:ap:vendor:Acme  outstanding $-2500.00\n\
         liabilities:ap:vendor:PaidUp  outstanding 0",
        "each vendor must get ITS row's amount (and 0 only when rowless)"
    );
    assert!(!text.contains("assets:checking"), "{text}");

    let none = vendors_text(&["assets:checking".to_string()], &balance);
    assert!(none.contains("no vendors declared"), "{none}");
}

#[test]
fn balance_text_appends_flag_footer_only_on_overdraft() {
    let report = |mantissa: i128| BalanceReport {
        rows: vec![AccountBalance {
            account: "assets:checking".to_string(),
            amounts: vec![Amount {
                commodity: "$".into(),
                quantity: Quantity::new(mantissa, 2),
                commodity_left: true,
                spaced: false,
            }],
        }],
        totals: vec![],
    };
    let clean = balance_text(&report(100));
    assert!(!clean.contains("flag"), "{clean}");
    assert!(!clean.ends_with('\n'), "no dangling newline: {clean:?}");

    let overdrawn = balance_text(&report(-100));
    assert!(overdrawn.contains("flag overdraft:"), "{overdrawn}");
}

/// A write-blocked server self-heals: the first write attempt retries the reconcile
/// (healthy journal → success), clears the block, and the write proceeds. `status`

#[test]
fn status_text_reports_name_version_negotiated_protocol_and_backend() {
    // `status` itself extracts the version from the live `Peer` and the backend block from
    // a subprocess; the render is tested here against explicit values to prove it reports
    // the *session's* protocol (not the newest) and embeds the backend block verbatim.
    let server = test_server();
    let backend = "hledger: 1.52 (pinned) — \"hledger 1.52, mac-aarch64\"\n\
                   binary: /store/bin/hledger\n\
                   journal: /tmp/x.journal";
    let text = server.status_text("0.1.0", "2024-11-05", backend, 5);
    assert!(
        text.contains(SERVER_NAME),
        "status names the server: {text}"
    );
    assert!(
        text.contains("0.1.0"),
        "status reports the version: {text}"
    );
    assert!(
        text.contains("2024-11-05"),
        "status reports the negotiated protocol, not the newest: {text}"
    );
    assert!(
        text.contains("binary: /store/bin/hledger") && text.contains("journal: /tmp/x.journal"),
        "status embeds the backend block (binary + journal): {text}"
    );
}

#[test]
fn render_balance_lists_rows_and_total() {
    let report = BalanceReport {
        rows: vec![AccountBalance {
            account: "assets:checking".into(),
            amounts: vec![Amount {
                commodity: "$".into(),
                quantity: Quantity::new(8766, 2),
                commodity_left: true,
                spaced: false,
            }],
        }],
        totals: vec![Amount {
            commodity: "$".into(),
            quantity: Quantity::new(8766, 2),
            commodity_left: true,
            spaced: false,
        }],
    };
    let text = render_balance(&report);
    assert!(text.contains("assets:checking  $87.66"), "{text}");
    assert!(text.contains("total  $87.66"), "{text}");
}

#[test]
fn render_balance_handles_no_rows() {
    let empty = BalanceReport {
        rows: vec![],
        totals: vec![],
    };
    let text = render_balance(&empty);
    assert!(text.contains("no matching accounts"), "{text}");
    assert!(text.contains("total  0"), "{text}");
}

#[test]
fn render_transactions_shows_header_and_postings_or_empty() {
    assert!(render_transactions(&[]).contains("no matching transactions"));
    let txns = vec![Transaction {
        date: Date::from_ymd_opt(2026, 1, 15).unwrap(),
        description: "Acme".into(),
        index: 1,
        status: Status::Unmarked,
        comment: String::new(),
        tags: vec![],
        postings: vec![Posting {
            account: "expenses:supplies".into(),
            amounts: vec![Amount {
                commodity: "$".into(),
                quantity: Quantity::new(1234, 2),
                commodity_left: true,
                spaced: false,
            }],
            comment: String::new(),
            tags: vec![],
        }],
    }];
    let text = render_transactions(&txns);
    assert!(text.contains("2026-01-15 Acme"), "{text}");
    assert!(text.contains("    expenses:supplies  $12.34"), "{text}");
}

#[test]
fn adapter_error_is_flagged_iserror() {
    let result = adapter_error(&HledgerError::NoJournal);
    assert!(result.is_error);
    let text = &result.text;
    assert!(text.contains("no journal"), "{text}");
}

#[test]
fn post_outcome_text_distinguishes_deduped() {
    let fresh = WriteOutcome {
        base: CommitOutcome {
            id: "i1".into(),
            commit: CommitOid::new("deadbeefcafe0000".into()),
        },
        deduped: false,
    };
    assert!(post_outcome_text(&fresh).starts_with("posted transaction id:i1"));
    let dup = WriteOutcome {
        deduped: true,
        ..fresh
    };
    assert!(post_outcome_text(&dup).contains("already posted (idempotent)"));
}

#[test]
fn write_error_result_is_iserror_with_prefix() {
    let r = write_error_result(&WriteError::Input("bad".into()));
    assert!(r.is_error);
    assert!(
        r.text
            .contains("input error: bad")
    );
    // Internal variant also flagged isError (and logged loudly).
    let r2 = write_error_result(&WriteError::Internal("boom".into()));
    assert!(r2.is_error);
}

fn oid(c: char) -> CommitOid {
    CommitOid::new(c.to_string().repeat(40))
}

fn wrote(id: &str) -> CommitOutcome {
    CommitOutcome { id: id.to_string(), commit: oid('a') }
}

fn posted(id: &str) -> WriteOutcome {
    WriteOutcome { base: wrote(id), deduped: false }
}

fn money(mantissa: i128) -> Amount {
    Amount {
        commodity: "$".into(),
        quantity: Quantity::new(mantissa, 2),
        commodity_left: true,
        spaced: false,
    }
}

#[test]
fn advertised_tools_rewrites_tier_two_and_filters_by_profile() {
    let router: Vec<Tool> = tools()
        .iter()
        .map(|t| Tool {
            name: t.name.to_string(),
            description: Some(format!("Full text of {}, with postings.", t.name)),
        })
        .collect();
    let all = advertised_tools(Profile::Full, &router);
    assert_eq!(all.len(), router.len());
    let vendor_add = all.iter().find(|t| t.name == "vendor_add").expect("vendor_add");
    assert_eq!(
        vendor_add.description.as_deref(),
        meta("vendor_add").map(|m| m.summary),
        "tier-2 description is the one-line summary"
    );
    let post = all.iter().find(|t| t.name == "post_transaction").expect("post");
    let full_desc = post.description.as_deref().unwrap_or_default();
    assert!(
        full_desc.contains("postings"),
        "tier-1 keeps its full description: {full_desc}"
    );

    let operational = advertised_tools(Profile::Operational, &router);
    assert!(operational
        .iter()
        .all(|t| { meta(&t.name).is_some_and(|m| m.tier == Tier::Operational) }));
    assert!(operational.len() < all.len(), "filtering actually filters");
    assert!(
        !operational.iter().any(|t| t.name == "vendor_add"),
        "vendor_add not advertised under operational"
    );
    let foreign = vec![Tool { name: "elsewhere".to_string(), description: None }];
    assert_eq!(advertised_tools(Profile::Full, &foreign), foreign);
    assert!(advertised_tools(Profile::Setup, &foreign).is_empty());
}

#[test]
fn version_line_quotes_the_banner() {
    let v = Version { raw: "hledger \"1.52\"".to_string(), major: 1, minor: 52 };
    assert_eq!(
        version_line(&Ok(v)),
        "hledger: 1.52 (pinned) — \"hledger \\\"1.52\\\"\""
    );
}

#[test]
fn outcomes_name_what_was_done_and_the_commit() {
    assert_eq!(
        declared_account_text(&wrote("a:b")),
        "declared account 'a:b' (commit aaaaaaaaaaaa)"
    );
    assert_eq!(
        closed_account_text(&wrote("a:b")),
        "closed (tombstoned) account 'a:b' (commit aaaaaaaaaaaa)"
    );
    assert_eq!(
        declared_commodity_text(3, &wrote("$")),
        "declared commodity '$' (3 dp, commit aaaaaaaaaaaa)"
    );
    assert_eq!(
        voided_text("old", &posted("new")),
        "voided 'old' with reversing entry id:new (commit aaaaaaaaaaaa)"
    );
    assert_eq!(
        updated_text("old", &posted("new")),
        "updated: voided 'old', posted replacement id:new (commit aaaaaaaaaaaa)"
    );
    assert_eq!(
        vendor_added_text(&wrote("Acme")),
        "declared vendor 'Acme': AP account + expense account (commit aaaaaaaaaaaa)"
    );
    let args = BudgetSetArgs {
        account: "e:a".to_string(),
        period: BudgetPeriod::Monthly,
        amount: "500.00".to_string(),
        commodity: "$".to_string(),
    };
    assert_eq!(
        budget_set_text(&args, &wrote("e:a")),
        "budget set: e:a monthly = 500.00 $ (commit aaaaaaaaaaaa)"
    );
    let recorded = RecordedOrder { eco: "7".to_string(), outcome: posted("i") };
    assert_eq!(
        eco_recorded_text(&recorded),
        "ECO 7 recorded as pending, id:i (commit aaaaaaaaaaaa)"
    );
    let voided = |count| VoidedOrder { eco: "7".to_string(), count, last: posted("i") };
    assert_eq!(
        eco_voided_text(&voided(1)),
        "ECO 7 voided: 1 reversing entry posted (last commit aaaaaaaaaaaa)"
    );
    assert_eq!(
        eco_voided_text(&voided(2)),
        "ECO 7 voided: 2 reversing entries posted (last commit aaaaaaaaaaaa)"
    );
}

#[test]
fn an_approval_shows_the_budget_where_it_is_known() {
    let order = |budget| ApprovedOrder { eco: "7".to_string(), outcome: posted("i"), budget };
    assert_eq!(
        eco_approved_text(&order(None)),
        "ECO 7 approved, id:i (commit aaaaaaaaaaaa)"
    );
    let report = BudgetReport {
        rows: vec![BudgetRow {
            account: "e:x".to_string(),
            actual: vec![money(80000)],
            goal: vec![money(50000)],
        }],
        total_actual: vec![money(80000)],
        total_goal: vec![money(50000)],
    };
    assert_eq!(
        budget_text(&report),
        "e:x  actual $800.00 | budget $500.00\ntotal  actual $800.00 | budget $500.00\n\
         flag over-budget: e:x actual $800.00 > budget $500.00"
    );
    assert_eq!(
        eco_approved_text(&order(Some(report))),
        "ECO 7 approved, id:i (commit aaaaaaaaaaaa)\n\
         e:x  actual $800.00 | budget $500.00\ntotal  actual $800.00 | budget $500.00\n\
         flag over-budget: e:x actual $800.00 > budget $500.00"
    );
}

#[test]
fn listings_of_vendors_and_rules() {
    let accounts = vec!["assets:checking".to_string(), "liabilities:ap:vendor:A".to_string()];
    assert_eq!(vendor_list_text(&accounts), "liabilities:ap:vendor:A");
    assert_eq!(
        vendor_list_text(&accounts[..1]),
        "(no vendors declared — use vendor_add first)"
    );
    assert_eq!(
        budget_list_text(&[]),
        "(no budget rules set — use budget_set first)"
    );
    let rule = BudgetRule {
        account: "e:a".to_string(),
        period: BudgetPeriod::Yearly,
        quantity: Quantity::new(900000, 2),
        commodity: "$".to_string(),
    };
    assert_eq!(budget_list_text(&[rule]), "e:a  yearly = 9000.00 $");
}

#[test]
fn budget_rules_are_listed_from_the_file() {
    assert!(matches!(budget_list(false, &Ok(None)), Err(HledgerError::NoJournal)));
    assert!(budget_list(true, &Ok(None)).unwrap().is_empty());
    let text = "~ monthly  ; budget:\n    a:b  1.00 $\n".to_string();
    assert_eq!(budget_list(true, &Ok(Some(text))).unwrap()[0].account, "a:b");
    let bad = budget_list(true, &Ok(Some("~ never\n".to_string()))).unwrap_err();
    assert_eq!(
        bad.to_string(),
        "internal error: malformed budget file line: \"~ never\""
    );
    let io = budget_list(true, &Err(WriteError::Internal("read budget file: gone".to_string())));
    assert_eq!(io.unwrap_err().to_string(), "internal error: read budget file: gone");
}

#[test]
fn the_age_of_payables_is_flagged_when_overdue() {
    let day = |m, d| Date::from_ymd_opt(2026, m, d).unwrap();
    let balance = BalanceReport {
        rows: vec![AccountBalance {
            account: "liabilities:ap:vendor:A".to_string(),
            amounts: vec![money(-5000)],
        }],
        totals: vec![],
    };
    let txn = Transaction {
        date: day(1, 1),
        description: "A invoice".to_string(),
        index: 1,
        status: Status::Unmarked,
        comment: String::new(),
        tags: vec![("invoice".to_string(), "7".to_string())],
        postings: vec![Posting {
            account: "liabilities:ap:vendor:A".to_string(),
            amounts: vec![money(-5000)],
            comment: String::new(),
            tags: vec![],
        }],
    };
    assert_eq!(
        ap_aging_text(&balance, &[txn.clone()], day(4, 15)),
        "AP aging as of 2026-04-15:\n  liabilities:ap:vendor:A  $-50.00  oldest invoice: 2026-01-01  [90+ days (overdue)]\n\
         flag ap-aging: liabilities:ap:vendor:A outstanding $-50.00 since 2026-01-01 (90+ days overdue)"
    );
    assert!(!ap_aging_text(&balance, &[txn], day(1, 2)).contains("flag"));
    assert_eq!(aging_day(&GetApAgingArgs { as_of: Some(day(4, 15)) }), day(4, 15));
    let today = aging_day(&GetApAgingArgs { as_of: None });
    assert!(!Date::today().is_before(&today));
}

#[test]
fn the_project_summary_joins_two_statements() {
    let report = |title: &str| CompositeReport {
        title: title.to_string(),
        subreports: vec![],
        totals: vec![],
    };
    assert_eq!(
        project_summary_text(&report("BS"), &report("IS")),
        "BS\nNet: 0\n\nIS\nNet: 0"
    );
}

#[test]
fn the_backend_block_tells_why_writes_are_blocked() {
    let v = |minor| {
        Ok(Version { raw: format!("hledger 1.{minor}"), major: 1, minor })
    };
    let server = || HledgerMcp::new("/bin/hledger".to_string(), Some("/l/main.journal".to_string()));
    let sample = || RepoSample::Repo { dirty: Some(false), head: Ok(Some(oid('a'))) };
    let head = Some(Epoch::new(Some(oid('a'))));
    assert_eq!(
        server().backend_block(&v(52), true, &sample(), &head),
        "hledger: 1.52 (pinned) — \"hledger 1.52\"\nbinary: /bin/hledger\njournal: /l/main.journal\n\
         git: aaaaaaaaaaaa (clean)\nepoch: aaaaaaaaaaaa — no read yet this connection\nwrites: enabled"
    );
    let blocked = server().with_write_block(Some("reconcile failed".to_string()));
    assert!(blocked
        .backend_block(&v(52), true, &sample(), &head)
        .ends_with("writes: BLOCKED (reconcile failed; a write attempt retries the reconcile)"));
    assert!(server()
        .backend_block(&v(51), true, &sample(), &head)
        .ends_with("writes: BLOCKED (hledger not pinned 1.52)"));
    assert!(server()
        .backend_block(&Err(HledgerError::NoJournal), true, &sample(), &head)
        .ends_with("writes: blocked (hledger unavailable)"));
    let bare = HledgerMcp::new("x".to_string(), None);
    assert_eq!(
        bare.backend_block(&v(52), false, &RepoSample::NoRepo, &None),
        "hledger: 1.52 (pinned) — \"hledger 1.52\"\nbinary: x\n\
         journal: (none configured — set --journal or LEDGER_FILE)\ngit: (no journal configured)\n\
         epoch: (no journal configured)\nwrites: blocked (no journal configured)"
    );
    let read = {
        let mut s = server().with_profile(Profile::Readonly);
        let begun = s.view.begin_read(Some(Epoch::new(Some(oid('a')))));
        s.view.finish_read(begun, true);
        s
    };
    assert!(read
        .backend_block(&v(52), true, &sample(), &head)
        .contains("last-seen aaaaaaaaaaaa (fresh)"));
    assert!(read.view.begin_write(ToolClass::Decide, "j", head.unwrap()).is_ok());
    assert_eq!(
        read.status_text("0.1.0", "2025-11-25", "B", 61),
        "hledger-mcp 0.1.0\nprotocol: 2025-11-25\nprofile: readonly\nB\nuptime: 61s"
    );
}
