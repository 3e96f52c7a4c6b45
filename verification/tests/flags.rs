//! Soft invariants.

use hledger_mcp::date::Date;
use hledger_mcp::domain::{AgeCategory, ApAgingEntry};
use hledger_mcp::flags::{
    ap_aging_flags, is_asset, over_budget_flags, overdraft_flags, render_flags, FlagKind,
};
use hledger_mcp::hledger::amount::{Amount, Quantity};
use hledger_mcp::hledger::{AccountBalance, BalanceReport, BudgetReport, BudgetRow};

fn row(account: &str, mantissa: i128) -> AccountBalance {
    AccountBalance {
        account: account.to_string(),
        amounts: vec![Amount {
            commodity: "$".into(),
            quantity: Quantity::new(mantissa, 2),
            commodity_left: true,
            spaced: false,
        }],
    }
}

fn report(rows: Vec<AccountBalance>) -> BalanceReport {
    BalanceReport {
        rows,
        totals: vec![],
    }
}

#[test]
fn negative_asset_balance_is_flagged() {
    let flags = overdraft_flags(&report(vec![row("assets:checking", -1250)]));
    assert_eq!(flags.len(), 1);
    assert_eq!(flags[0].kind, FlagKind::Overdraft);
    assert_eq!(flags[0].account, "assets:checking");
    assert_eq!(flags[0].detail, "balance $-12.50");
}

#[test]
fn positive_and_zero_asset_balances_are_not_flagged() {
    let flags = overdraft_flags(&report(vec![
        row("assets:checking", 1250),
        row("assets:savings", 0),
    ]));
    assert!(flags.is_empty());
}

#[test]
fn non_asset_negatives_are_not_overdrafts() {
    // Liabilities/equity/income are conventionally negative — not an overdraft.
    let flags = overdraft_flags(&report(vec![
        row("liabilities:ap:vendor", -5000),
        row("equity:opening", -100),
        row("income:interest", -1),
    ]));
    assert!(flags.is_empty());
}

#[test]
fn asset_prefix_must_be_a_path_segment() {
    // `assetsy:…` is not an asset account; bare `assets` is.
    assert!(overdraft_flags(&report(vec![row("assetsy:x", -1)])).is_empty());
    assert_eq!(overdraft_flags(&report(vec![row("assets", -1)])).len(), 1);
}

#[test]
fn renders_as_footer_lines() {
    let flags = overdraft_flags(&report(vec![row("assets:a", -100), row("assets:b", -200)]));
    let text = render_flags(&flags);
    assert_eq!(
        text,
        "flag overdraft: assets:a balance $-1.00\nflag overdraft: assets:b balance $-2.00"
    );
    assert_eq!(render_flags(&[]), "");
}

#[test]
fn ap_aging_flags_only_overdue() {
    fn aging_entry(account: &str, age: Option<AgeCategory>) -> ApAgingEntry {
        ApAgingEntry {
            vendor_account: account.to_string(),
            outstanding: vec![Amount {
                commodity: "$".into(),
                quantity: Quantity::new(250000, 2),
                commodity_left: true,
                spaced: false,
            }],
            oldest_invoice_date: Some(Date::from_ymd_opt(2026, 1, 1).unwrap()),
            age,
        }
    }
    let entries = vec![
        aging_entry("liabilities:ap:vendor:A", Some(AgeCategory::Over90Days)),
        aging_entry("liabilities:ap:vendor:B", Some(AgeCategory::Current)),
        aging_entry("liabilities:ap:vendor:C", None),
    ];
    let flags = ap_aging_flags(&entries);
    assert_eq!(flags.len(), 1);
    assert_eq!(flags[0].kind, FlagKind::ApAging);
    assert_eq!(flags[0].account, "liabilities:ap:vendor:A");
    assert!(flags[0].detail.contains("overdue"), "{}", flags[0].detail);
}

fn amount(mantissa: i128) -> Amount {
    Amount {
        commodity: "$".into(),
        quantity: Quantity::new(mantissa, 2),
        commodity_left: true,
        spaced: false,
    }
}

fn budget_report(rows: Vec<BudgetRow>) -> BudgetReport {
    BudgetReport {
        rows,
        total_actual: vec![],
        total_goal: vec![],
    }
}

fn budget_row(account: &str, actual: i128, goal: i128) -> BudgetRow {
    BudgetRow {
        account: account.to_string(),
        actual: vec![amount(actual)],
        goal: vec![amount(goal)],
    }
}

#[test]
fn over_budget_flags_only_strictly_over_positive_goals() {
    // Over → flagged, with both amounts in the detail.
    let flags = over_budget_flags(&budget_report(vec![budget_row("expenses:x", 80000, 50000)]));
    assert_eq!(flags.len(), 1);
    assert_eq!(flags[0].kind, FlagKind::OverBudget);
    assert_eq!(flags[0].account, "expenses:x");
    assert_eq!(flags[0].detail, "actual $800.00 > budget $500.00");

    // Exactly at goal, or under → no flag (strictly-over predicate).
    assert!(
        over_budget_flags(&budget_report(vec![budget_row("expenses:x", 50000, 50000)]))
            .is_empty(),
        "at goal is not over"
    );
    assert!(
        over_budget_flags(&budget_report(vec![budget_row("expenses:x", 100, 50000)]))
            .is_empty()
    );
}

#[test]
fn over_budget_ignores_negative_goals_unbudgeted_rows_and_other_commodities() {
    // The budget rule's equity balancer carries a NEGATIVE goal — never an overrun target.
    assert!(
        over_budget_flags(&budget_report(vec![budget_row("equity:budget", 0, -50000)]))
            .is_empty(),
        "negative goal (the equity balancer) must not flag"
    );
    // Unbudgeted row (empty goal) → nothing to exceed.
    let unbudgeted = BudgetRow {
        account: "<unbudgeted>".to_string(),
        actual: vec![amount(99999)],
        goal: vec![],
    };
    assert!(over_budget_flags(&budget_report(vec![unbudgeted])).is_empty());
    // Goal in a commodity the actuals don't carry → skipped, not a false flag.
    let mismatched = BudgetRow {
        account: "expenses:x".to_string(),
        actual: vec![Amount {
            commodity: "EUR".into(),
            ..amount(80000)
        }],
        goal: vec![amount(50000)],
    };
    assert!(over_budget_flags(&budget_report(vec![mismatched])).is_empty());
}

#[test]
fn flags_are_exact() {
    assert!(is_asset("assets") && is_asset("assets:x") && !is_asset("assetsx"));
    let entries = vec![ApAgingEntry {
        vendor_account: "liabilities:ap:vendor:A".to_string(),
        outstanding: vec![amount(-100)],
        oldest_invoice_date: None,
        age: Some(AgeCategory::Over90Days),
    }];
    assert_eq!(
        ap_aging_flags(&entries)[0].to_string(),
        "flag ap-aging: liabilities:ap:vendor:A outstanding $-1.00 since (unknown) (90+ days overdue)"
    );
    assert_eq!(FlagKind::OverBudget.label(), "over-budget");
}
