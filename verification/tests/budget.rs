//! The budget file.

use hledger_mcp::hledger::amount::Quantity;
use hledger_mcp::write::budget::{
    budget_file_path, parse_budget_file, read_budget_rules, render_budget_file, upsert_rule,
    BudgetPeriod, BudgetRule,
};
use hledger_mcp::write::WriteError;

fn rule(account: &str, period: BudgetPeriod, mantissa: i128) -> BudgetRule {
    BudgetRule {
        account: account.to_string(),
        period,
        quantity: Quantity::new(mantissa, 2),
        commodity: "$".into(),
    }
}

#[test]
fn renders_the_exact_file_shape() {
    let text = render_budget_file(&[rule(
        "expenses:construction:plumbing",
        BudgetPeriod::Monthly,
        50000,
    )]);
    assert_eq!(
        text,
        "; hledger-mcp budget — managed by budget_set; replaced wholesale (history in git).\n\
         account equity:budget\n\
         \n\
         ~ monthly  ; budget:\n    \
             expenses:construction:plumbing  500.00 $\n    \
             equity:budget\n"
    );
}

#[test]
fn round_trips_through_parse() {
    let rules = vec![
        rule(
            "expenses:construction:plumbing",
            BudgetPeriod::Monthly,
            50000,
        ),
        rule(
            "expenses:professional - Bob Engineer",
            BudgetPeriod::Quarterly,
            250000,
        ),
    ];
    let parsed = parse_budget_file(&render_budget_file(&rules)).expect("parse back");
    assert_eq!(parsed, rules);
}

#[test]
fn parse_rejects_tampered_lines() {
    assert!(parse_budget_file("~ fortnightly  ; budget:\n    a:b  1.00 $\n").is_err());
    assert!(
        parse_budget_file("~ monthly  ; budget:\n").is_err(),
        "missing posting"
    );
    assert!(
        parse_budget_file("~ monthly  ; budget:\n    no-double-space 1.00 $\n").is_err(),
        "posting without the account/amount separator"
    );
    assert!(
        parse_budget_file("~ monthly  ; budget:\n    a:b  one $\n").is_err(),
        "non-decimal quantity"
    );
}

#[test]
fn upsert_replaces_matching_account_and_period_only() {
    let mut rules = vec![rule("a:b", BudgetPeriod::Monthly, 100)];
    // Same account, different period → appended, not replaced.
    assert!(!upsert_rule(
        &mut rules,
        rule("a:b", BudgetPeriod::Yearly, 200)
    ));
    assert_eq!(rules.len(), 2);
    // Same (account, period) → replaced in place.
    assert!(upsert_rule(
        &mut rules,
        rule("a:b", BudgetPeriod::Monthly, 999)
    ));
    assert_eq!(rules.len(), 2);
    assert_eq!(rules[0].quantity, Quantity::new(999, 2));
}

#[test]
fn names_with_odd_spacing_round_trip() {
    let odd = BudgetRule {
        account: "a  b ;c\r ".to_string(),
        period: BudgetPeriod::Daily,
        quantity: Quantity::new(-1, 30),
        commodity: "x y".to_string(),
    };
    let empty = BudgetRule { commodity: String::new(), ..odd.clone() };
    let rules = vec![odd, empty];
    assert_eq!(parse_budget_file(&render_budget_file(&rules)).unwrap(), rules);
    // What cannot be read back: a commodity with two spaces in a row.
    let mut lost = rules;
    lost[0].commodity = "x  y".to_string();
    assert!(parse_budget_file(&render_budget_file(&lost)).is_err());
}

#[test]
fn the_malformed_line_is_quoted() {
    let err = parse_budget_file("~ monthly\n    a:b  1.00\n").unwrap_err();
    assert!(matches!(err, WriteError::Internal(_)));
    assert_eq!(
        err.to_string(),
        "internal error: malformed budget file line: \"    a:b  1.00\""
    );
}

#[test]
fn periods_and_their_words() {
    for (p, w) in [
        (BudgetPeriod::Daily, "daily"),
        (BudgetPeriod::Weekly, "weekly"),
        (BudgetPeriod::Monthly, "monthly"),
        (BudgetPeriod::Quarterly, "quarterly"),
        (BudgetPeriod::Yearly, "yearly"),
    ] {
        assert_eq!(p.keyword(), w);
        assert_eq!(p.to_string(), w);
        assert_eq!(BudgetPeriod::from_keyword(w), Some(p));
    }
    assert_eq!(BudgetPeriod::from_keyword("Daily"), None);
}

#[test]
fn the_file_stands_beside_the_journal() {
    assert_eq!(budget_file_path("/l/main.journal"), "/l/budget.journal");
    assert_eq!(budget_file_path("main.journal"), "./budget.journal");
    assert!(read_budget_rules(None).unwrap().is_empty());
}

#[test]
fn setting_the_same_goal_twice_changes_nothing() {
    let mut rules = vec![rule("a:b", BudgetPeriod::Monthly, 100)];
    upsert_rule(&mut rules, rule("c:d", BudgetPeriod::Monthly, 5));
    let once = rules.clone();
    upsert_rule(&mut rules, rule("c:d", BudgetPeriod::Monthly, 5));
    assert_eq!(rules, once);
}
