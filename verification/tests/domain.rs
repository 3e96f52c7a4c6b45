//! The accounts, transactions and reports of a project.

use hledger_mcp::date::Date;
use hledger_mcp::domain::{
    age_category, compute_ap_aging, eco_account, eco_approve_input, eco_create_input, eco_details,
    eco_pending_account, exceeds, fund_project_input, has_outstanding_ap, is_ap_account,
    oldest_invoice_date_for, pay_invoice_input, post_interest_input, professional_expense_account,
    receive_invoice_input, render_ap_aging, render_budget, render_composite, today,
    trade_expense_account, vendor_ap_account, vendor_expense_account, AgeCategory, ApAgingEntry,
    VendorType, CHECKING_ACCOUNT, INTEREST_INCOME_ACCOUNT, OWNER_CAPITAL_ACCOUNT,
};
use hledger_mcp::hledger::amount::{Amount, Quantity};
use hledger_mcp::hledger::{
    AccountBalance, BalanceReport, BudgetReport, BudgetRow, CompositeReport, Posting, ReportRow,
    Status, Subreport, Transaction,
};
use hledger_mcp::write::input::{PostingInput, TransactionInput};

// ---- Account conventions ----

#[test]
fn vendor_ap_account_format() {
    assert_eq!(vendor_ap_account("Acme"), "liabilities:ap:vendor:Acme");
    assert_eq!(
        vendor_ap_account("Bob Engineer"),
        "liabilities:ap:vendor:Bob Engineer"
    );
}

#[test]
fn trade_expense_account_format() {
    let acct = trade_expense_account("plumbing");
    assert!(
        acct.starts_with("expenses:construction:"),
        "trade expense under construction: {acct}"
    );
    assert_eq!(acct, "expenses:construction:plumbing");
}

#[test]
fn professional_expense_account_format() {
    let acct = professional_expense_account("Bob Engineer");
    assert!(
        acct.starts_with("expenses:professional - "),
        "professional expense has dedicated name: {acct}"
    );
    assert_eq!(acct, "expenses:professional - Bob Engineer");
}

// ---- Input builders ----

fn has_balancer(input: &TransactionInput) -> bool {
    input
        .postings
        .iter()
        .any(|p: &PostingInput| p.amount.is_none())
}

#[test]
fn fund_project_input_structure() {
    let inp = fund_project_input(nd(2026, 1, 1), "50000.00".into(), "$".into(), None);
    assert_eq!(inp.postings.len(), 2);
    assert_eq!(inp.postings[0].account, CHECKING_ACCOUNT);
    assert!(inp.postings[0].amount.is_some());
    assert_eq!(inp.postings[1].account, OWNER_CAPITAL_ACCOUNT);
    assert!(has_balancer(&inp));
}

#[test]
fn receive_invoice_input_structure() {
    let inp = receive_invoice_input(
        nd(2026, 2, 1),
        "Acme",
        "expenses:construction:plumbing".into(),
        "8000.00".into(),
        "$".into(),
        "INV-001".into(),
        None,
    );
    assert_eq!(inp.postings.len(), 2);
    assert_eq!(inp.postings[0].account, "expenses:construction:plumbing");
    assert_eq!(inp.postings[1].account, vendor_ap_account("Acme"));
    assert!(has_balancer(&inp));
    assert!(
        inp.tags
            .iter()
            .any(|(k, v)| k == "invoice" && v == "INV-001")
    );
    assert!(inp.tags.iter().any(|(k, v)| k == "vendor" && v == "Acme"));
}

#[test]
fn pay_invoice_input_structure() {
    let inp = pay_invoice_input(nd(2026, 2, 20), "Acme", "8000.00".into(), "$".into(), None);
    assert_eq!(inp.postings.len(), 2);
    assert_eq!(inp.postings[0].account, vendor_ap_account("Acme"));
    assert_eq!(inp.postings[1].account, CHECKING_ACCOUNT);
    assert!(has_balancer(&inp));
}

#[test]
fn post_interest_input_structure() {
    let inp = post_interest_input(nd(2026, 3, 1), "125.00".into(), "$".into(), None);
    assert_eq!(inp.postings.len(), 2);
    assert_eq!(inp.postings[0].account, CHECKING_ACCOUNT);
    assert_eq!(inp.postings[1].account, INTEREST_INCOME_ACCOUNT);
    assert!(has_balancer(&inp));
}

// ---- AP aging ----

#[test]
fn age_category_buckets() {
    assert_eq!(age_category(0), AgeCategory::Current);
    assert_eq!(age_category(30), AgeCategory::Current);
    assert_eq!(age_category(31), AgeCategory::Days31to60);
    assert_eq!(age_category(60), AgeCategory::Days31to60);
    assert_eq!(age_category(61), AgeCategory::Days61to90);
    assert_eq!(age_category(90), AgeCategory::Days61to90);
    assert_eq!(age_category(91), AgeCategory::Over90Days);
    assert_eq!(age_category(365), AgeCategory::Over90Days);
}

#[test]
fn age_category_is_monotone() {
    // Larger days → at least as late a bucket
    let categories: Vec<AgeCategory> = [0, 30, 31, 60, 61, 90, 91, 200]
        .iter()
        .map(|&d| age_category(d))
        .collect();
    // Non-decreasing in ordinal order
    let ordinal = |c: &AgeCategory| match c {
        AgeCategory::Current => 0,
        AgeCategory::Days31to60 => 1,
        AgeCategory::Days61to90 => 2,
        AgeCategory::Over90Days => 3,
    };
    for w in categories.windows(2) {
        assert!(ordinal(&w[0]) <= ordinal(&w[1]));
    }
}

fn make_amount(mantissa: i128) -> Amount {
    Amount {
        commodity: "$".into(),
        quantity: Quantity::new(mantissa, 2),
        commodity_left: true,
        spaced: false,
    }
}

fn ap_balance(account: &str, mantissa: i128) -> AccountBalance {
    AccountBalance {
        account: account.to_string(),
        amounts: vec![make_amount(mantissa)],
    }
}

fn nd(y: i32, m: u32, d: u32) -> Date {
    Date::from_ymd_opt(y, m, d).unwrap()
}

/// The date that `YYYY-MM-DD` names.
fn day(s: &str) -> Date {
    let parts: Vec<u32> = s.split('-').map(|p| p.parse().unwrap()).collect();
    nd(parts[0] as i32, parts[1], parts[2])
}

fn invoice_txn(date: &str, account: &str) -> Transaction {
    Transaction {
        date: day(date),
        description: "test invoice".to_string(),
        index: 1,
        status: Status::Unmarked,
        comment: String::new(),
        tags: vec![("invoice".to_string(), "INV-001".to_string())],
        postings: vec![Posting {
            account: account.to_string(),
            amounts: vec![make_amount(-80000)],
            comment: String::new(),
            tags: vec![],
        }],
    }
}

#[test]
fn compute_ap_aging_basic() {
    let balance = BalanceReport {
        rows: vec![
            ap_balance("liabilities:ap:vendor:Acme", -800000), // $-8000
            ap_balance("liabilities:ap:vendor:Bob", 0),        // zero — excluded
        ],
        totals: vec![],
    };
    let txns = vec![invoice_txn("2026-01-01", "liabilities:ap:vendor:Acme")];
    // As-of 2026-04-15 = 104 days from 2026-01-01 → Over90Days
    let entries = compute_ap_aging(&balance, &txns, nd(2026, 4, 15));
    assert_eq!(entries.len(), 1, "zero-balance row excluded");
    assert_eq!(entries[0].vendor_account, "liabilities:ap:vendor:Acme");
    assert_eq!(entries[0].oldest_invoice_date, Some(nd(2026, 1, 1)));
    assert_eq!(entries[0].age, Some(AgeCategory::Over90Days));
}

#[test]
fn compute_ap_aging_no_invoice_date() {
    let balance = BalanceReport {
        rows: vec![ap_balance("liabilities:ap:vendor:X", -100)],
        totals: vec![],
    };
    // No transactions tagged invoice: → oldest_invoice_date = None, age = None
    let entries = compute_ap_aging(&balance, &[], nd(2026, 6, 1));
    assert_eq!(entries.len(), 1);
    assert!(entries[0].oldest_invoice_date.is_none());
    assert!(entries[0].age.is_none());
}

#[test]
fn age_category_labels_are_exact() {
    assert_eq!(AgeCategory::Current.label(), "current (0-30 days)");
    assert_eq!(AgeCategory::Days31to60.label(), "31-60 days");
    assert_eq!(AgeCategory::Days61to90.label(), "61-90 days");
    assert_eq!(AgeCategory::Over90Days.label(), "90+ days (overdue)");
}

#[test]
fn compute_ap_aging_excludes_non_invoice_tagged_transactions() {
    let balance = BalanceReport {
        rows: vec![ap_balance("liabilities:ap:vendor:X", -5000)],
        totals: vec![],
    };
    let non_invoice = Transaction {
        date: nd(2026, 1, 1),
        description: "payment".to_string(),
        index: 1,
        status: Status::Unmarked,
        comment: String::new(),
        tags: vec![("other".to_string(), "value".to_string())],
        postings: vec![Posting {
            account: "liabilities:ap:vendor:X".to_string(),
            amounts: vec![make_amount(-5000)],
            comment: String::new(),
            tags: vec![],
        }],
    };
    let entries = compute_ap_aging(&balance, &[non_invoice], nd(2026, 6, 1));
    assert!(
        entries[0].oldest_invoice_date.is_none(),
        "non-invoice txn must not count as invoice date"
    );
}

#[test]
fn compute_ap_aging_excludes_invoice_txns_for_other_accounts() {
    let balance = BalanceReport {
        rows: vec![ap_balance("liabilities:ap:vendor:X", -5000)],
        totals: vec![],
    };
    // Invoice txn for a different account: should not contribute to X's date
    let other = invoice_txn("2026-01-01", "liabilities:ap:vendor:OTHER");
    let entries = compute_ap_aging(&balance, &[other], nd(2026, 6, 1));
    assert!(entries[0].oldest_invoice_date.is_none());
}

/// Build a two-posting txn with **no** transaction-level tags: one untagged posting to
/// `account`, plus a posting to `other_account` carrying `(tag_key: INV-001)`.
/// Exercises the posting-level half of the invoice-tag check in isolation.
fn posting_tagged_txn(account: &str, other_account: &str, tag_key: &str) -> Transaction {
    let posting = |acct: &str, tags: Vec<(String, String)>| Posting {
        account: acct.to_string(),
        amounts: vec![make_amount(-5000)],
        comment: String::new(),
        tags,
    };
    Transaction {
        date: nd(2026, 1, 1),
        description: "posting-tagged".to_string(),
        index: 1,
        status: Status::Unmarked,
        comment: String::new(),
        tags: vec![],
        postings: vec![
            posting(account, vec![]),
            posting(
                other_account,
                vec![(tag_key.to_string(), "INV-001".to_string())],
            ),
        ],
    }
}

#[test]
fn posting_level_invoice_tag_counts_only_on_the_target_account() {
    let balance = BalanceReport {
        rows: vec![ap_balance("liabilities:ap:vendor:X", -5000)],
        totals: vec![],
    };
    let x = "liabilities:ap:vendor:X";

    // Invoice tag on X's own posting → counted.
    let on_target = posting_tagged_txn("expenses:misc", x, "invoice");
    let entries = compute_ap_aging(&balance, &[on_target], nd(2026, 6, 1));
    assert_eq!(entries[0].oldest_invoice_date, Some(nd(2026, 1, 1)));

    // Invoice tag on a *different* account's posting (X's posting untagged) → excluded.
    let on_other = posting_tagged_txn(x, "expenses:misc", "invoice");
    let entries = compute_ap_aging(&balance, &[on_other], nd(2026, 6, 1));
    assert!(entries[0].oldest_invoice_date.is_none());

    // A non-invoice posting-level tag on X's posting → excluded.
    let wrong_tag = posting_tagged_txn("expenses:misc", x, "vendor");
    let entries = compute_ap_aging(&balance, &[wrong_tag], nd(2026, 6, 1));
    assert!(entries[0].oldest_invoice_date.is_none());
}

#[test]
fn is_ap_account_requires_a_subtree_segment() {
    assert!(is_ap_account("liabilities:ap:vendor:Acme"));
    assert!(is_ap_account("liabilities:ap:other"));
    // Bare root, sibling prefix, and unrelated accounts are all outside the subtree.
    assert!(!is_ap_account("liabilities:ap"));
    assert!(!is_ap_account("liabilities:apx:foo"));
    assert!(!is_ap_account("assets:checking"));
}

#[test]
fn has_outstanding_ap_requires_a_strictly_negative_amount() {
    let report = |mantissa: i128| BalanceReport {
        rows: vec![ap_balance("liabilities:ap:vendor:X", mantissa)],
        totals: vec![],
    };
    assert!(has_outstanding_ap(&report(-1)));
    // Zero is settled, not outstanding; positive (overpayment) isn't outstanding either.
    assert!(!has_outstanding_ap(&report(0)));
    assert!(!has_outstanding_ap(&report(100)));
    assert!(!has_outstanding_ap(&BalanceReport {
        rows: vec![],
        totals: vec![]
    }));
}

#[test]
fn render_composite_basic() {
    let report = CompositeReport {
        title: "Balance Sheet".to_string(),
        subreports: vec![Subreport {
            name: "Assets".to_string(),
            rows: vec![ReportRow {
                account: "assets:checking".to_string(),
                total: vec![make_amount(10000)],
            }],
            totals: vec![make_amount(10000)],
            is_positive: true,
        }],
        totals: vec![make_amount(10000)],
    };
    let text = render_composite(&report);
    assert!(text.starts_with("Balance Sheet"), "title: {text}");
    assert!(text.contains("Assets:"), "subreport name: {text}");
    assert!(text.contains("assets:checking"), "account row: {text}");
    assert!(text.contains("$100.00"), "amount: {text}");
    assert!(text.contains("Net:"), "net total line: {text}");
}

#[test]
fn render_ap_aging_empty_returns_no_payables_message() {
    let text = render_ap_aging(&[], nd(2026, 6, 1));
    assert_eq!(text, "AP aging as of 2026-06-01: (no outstanding payables)");
}

#[test]
fn render_ap_aging_with_entry_contains_key_fields() {
    let entries = vec![ApAgingEntry {
        vendor_account: "liabilities:ap:vendor:Acme".to_string(),
        outstanding: vec![make_amount(-800000)],
        oldest_invoice_date: Some(nd(2026, 1, 1)),
        age: Some(AgeCategory::Over90Days),
    }];
    let text = render_ap_aging(&entries, nd(2026, 6, 1));
    assert!(text.contains("AP aging as of 2026-06-01"), "header: {text}");
    assert!(
        text.contains("liabilities:ap:vendor:Acme"),
        "vendor: {text}"
    );
    assert!(text.contains("90+ days (overdue)"), "age label: {text}");
    assert!(text.contains("2026-01-01"), "oldest invoice date: {text}");
}

// ---- Change orders and budget ----

#[test]
fn eco_account_paths() {
    assert_eq!(
        eco_account("electrical"),
        "expenses:change orders:electrical"
    );
    assert_eq!(
        eco_pending_account("electrical"),
        "expenses:change orders:pending:electrical"
    );
}

#[test]
fn eco_create_input_posts_pending_against_vendor_ap_with_lifecycle_tags() {
    let input = eco_create_input(
        nd(2026, 2, 1),
        "7",
        "electrical",
        "GC",
        "add outlets",
        "1500.00".to_string(),
        "$".into(),
        None,
    );
    assert_eq!(input.description, "ECO 7: add outlets");
    assert_eq!(input.postings.len(), 2);
    assert_eq!(
        input.postings[0].account,
        "expenses:change orders:pending:electrical"
    );
    assert_eq!(input.postings[1].account, "liabilities:ap:vendor:GC");
    assert!(input.postings[1].amount.is_none(), "AP is the balancer");
    assert!(input.tags.contains(&("eco".to_string(), "7".to_string())));
    assert!(
        input
            .tags
            .contains(&("eco_event".to_string(), "created".to_string()))
    );
}

#[test]
fn eco_approve_input_transfers_pending_to_tracked() {
    let input = eco_approve_input(
        nd(2026, 2, 5),
        "7",
        "electrical",
        "1500.00".to_string(),
        "$".into(),
    );
    assert_eq!(
        input.postings[0].account,
        "expenses:change orders:electrical"
    );
    assert_eq!(
        input.postings[1].account,
        "expenses:change orders:pending:electrical"
    );
    assert!(input.postings[1].amount.is_none());
    assert!(
        input
            .tags
            .contains(&("eco_event".to_string(), "approved".to_string()))
    );
}

#[test]
fn eco_details_finds_the_pending_posting_or_nothing() {
    let pending = Posting {
        account: "expenses:change orders:pending:hvac".to_string(),
        amounts: vec![make_amount(200000)],
        comment: String::new(),
        tags: vec![],
    };
    let other = Posting {
        account: "liabilities:ap:vendor:GC".to_string(),
        amounts: vec![make_amount(-200000)],
        comment: String::new(),
        tags: vec![],
    };
    let txn = |postings: Vec<Posting>| Transaction {
        date: nd(2026, 2, 1),
        description: "ECO 9".to_string(),
        index: 1,
        status: Status::Unmarked,
        comment: String::new(),
        tags: vec![],
        postings,
    };
    let create = txn(vec![other.clone(), pending]);
    let (trade, amount) = eco_details(&create).expect("pending posting found");
    assert_eq!(trade, "hvac");
    assert_eq!(amount.quantity.mantissa, 200000);
    assert!(
        eco_details(&txn(vec![other])).is_none(),
        "no pending-CO posting → not a CO create txn"
    );
}

#[test]
fn exceeds_aligns_decimal_places_and_is_strict() {
    // 300.00 (mantissa 30000, 2dp) vs 500 (mantissa 500, 0dp).
    assert!(!exceeds(&Quantity::new(30000, 2), &Quantity::new(500, 0)));
    assert!(exceeds(&Quantity::new(80000, 2), &Quantity::new(500, 0)));
    // Equal after alignment → NOT exceeding (strict).
    assert!(!exceeds(&Quantity::new(50000, 2), &Quantity::new(500, 0)));
    assert!(!exceeds(&Quantity::new(500, 0), &Quantity::new(50000, 2)));
    // Mirrored places on the other side.
    assert!(exceeds(&Quantity::new(501, 0), &Quantity::new(50000, 2)));
}

#[test]
fn render_budget_lists_rows_unbudgeted_and_totals() {
    let report = BudgetReport {
        rows: vec![
            BudgetRow {
                account: "expenses:construction:plumbing".to_string(),
                actual: vec![make_amount(80000)],
                goal: vec![make_amount(50000)],
            },
            BudgetRow {
                account: "<unbudgeted>".to_string(),
                actual: vec![make_amount(100)],
                goal: vec![],
            },
        ],
        total_actual: vec![make_amount(80100)],
        total_goal: vec![make_amount(50000)],
    };
    let text = render_budget(&report);
    assert!(
        text.contains("expenses:construction:plumbing  actual $800.00 | budget $500.00"),
        "{text}"
    );
    assert!(
        text.contains("<unbudgeted>  actual $1.00 | budget (none)"),
        "{text}"
    );
    assert!(
        text.contains("total  actual $801.00 | budget $500.00"),
        "{text}"
    );

    let empty = render_budget(&BudgetReport {
        rows: vec![],
        total_actual: vec![],
        total_goal: vec![],
    });
    assert!(
        empty.contains("(no budgeted accounts and no activity)"),
        "{empty}"
    );
}

#[test]
fn a_trade_vendor_needs_its_trade() {
    assert_eq!(
        vendor_expense_account(VendorType::Trade, "Acme", Some("plumbing")),
        Ok("expenses:construction:plumbing".to_string())
    );
    assert_eq!(
        vendor_expense_account(VendorType::Trade, "Acme", None),
        Err("`trade` is required when vendor_type is \"trade\"".to_string())
    );
    assert_eq!(
        vendor_expense_account(VendorType::Professional, "Bob", None),
        Ok("expenses:professional - Bob".to_string())
    );
}

#[test]
fn the_oldest_invoice_is_found_and_may_lie_ahead() {
    let x = "liabilities:ap:vendor:X";
    let txns = vec![
        invoice_txn("2026-03-01", x),
        invoice_txn("2026-02-28", x),
        invoice_txn("2025-01-01", "liabilities:ap:vendor:Y"),
    ];
    assert_eq!(oldest_invoice_date_for(x, &txns), Some(nd(2026, 2, 28)));
    assert_eq!(oldest_invoice_date_for("none", &txns), None);
    let balance = BalanceReport { rows: vec![ap_balance(x, -1)], totals: vec![] };
    let ahead = compute_ap_aging(&balance, &txns, nd(2026, 2, 27));
    assert_eq!(ahead[0].oldest_invoice_date, Some(nd(2026, 2, 28)));
    assert_eq!(ahead[0].age, None, "an invoice in the future has no age");
    let same_day = compute_ap_aging(&balance, &txns, nd(2026, 2, 28));
    assert_eq!(same_day[0].age, Some(AgeCategory::Current));
    assert!(today().year() >= 2024);
}

#[test]
fn exceeding_is_exact_for_any_number_of_places() {
    let big = Quantity::new(i128::MAX, 0);
    let tiny = Quantity::new(i128::MAX, 255);
    assert!(exceeds(&big, &tiny) && !exceeds(&tiny, &big));
    let low = Quantity::new(i128::MIN, 0);
    assert!(exceeds(&tiny, &low) && !exceeds(&low, &tiny));
    assert!(!exceeds(&Quantity::new(0, 0), &Quantity::new(0, u32::MAX)));
    assert!(exceeds(&Quantity::new(10, 1), &Quantity::new(99, 2)));
}
