//! Checks on transactions.

use hledger_mcp::date::Date;
use hledger_mcp::hledger::amount::Quantity;
use hledger_mcp::write::input::{PostingAmount, PostingInput, TransactionInput};
use hledger_mcp::write::validate::{validate, validate_tag_key, validate_text};

fn declared() -> (Vec<String>, Vec<String>) {
    (
        [
            "assets:checking",
            "expenses:supplies",
            "equity:opening balances",
        ]
        .into_iter()
        .map(String::from)
        .collect(),
        ["$", "EUR"].into_iter().map(String::from).collect(),
    )
}

fn posting(account: &str, qty: Option<&str>, commodity: &str) -> PostingInput {
    PostingInput {
        account: account.to_string(),
        amount: qty.map(|q| PostingAmount {
            quantity: q.to_string(),
            commodity: commodity.to_string(),
        }),
    }
}

fn txn(postings: Vec<PostingInput>) -> TransactionInput {
    TransactionInput {
        date: Date::from_ymd_opt(2026, 1, 15).unwrap(),
        description: "Acme".to_string(),
        postings,
        tags: vec![],
        idem: None,
    }
}

#[test]
fn accepts_balanced_with_explicit_amounts() {
    let (a, c) = declared();
    let t = txn(vec![
        posting("expenses:supplies", Some("12.34"), "$"),
        posting("assets:checking", Some("-12.34"), "$"),
    ]);
    let v = validate(&t, &a, &c).expect("valid");
    assert_eq!(v.postings.len(), 2);
}

#[test]
fn accepts_one_omitted_amount_as_balancer() {
    let (a, c) = declared();
    let t = txn(vec![
        posting("expenses:supplies", Some("12.34"), "$"),
        posting("assets:checking", None, ""),
    ]);
    assert!(validate(&t, &a, &c).is_ok());
}

#[test]
fn rejects_unbalanced_when_no_balancer() {
    let (a, c) = declared();
    let t = txn(vec![
        posting("expenses:supplies", Some("12.34"), "$"),
        posting("assets:checking", Some("-10.00"), "$"),
    ]);
    let err = validate(&t, &a, &c).unwrap_err();
    assert!(err.contains("unbalanced"), "{err}");
}

#[test]
fn rejects_undeclared_account_and_commodity() {
    let (a, c) = declared();
    let bad_acct = txn(vec![
        posting("assets:savings", Some("1.00"), "$"),
        posting("assets:checking", None, ""),
    ]);
    assert!(
        validate(&bad_acct, &a, &c)
            .unwrap_err()
            .contains("account not declared")
    );

    let bad_comm = txn(vec![
        posting("expenses:supplies", Some("1.00"), "GBP"),
        posting("assets:checking", None, ""),
    ]);
    assert!(
        validate(&bad_comm, &a, &c)
            .unwrap_err()
            .contains("commodity not declared")
    );
}

#[test]
fn rejects_too_few_postings_and_multiple_balancers() {
    let (a, c) = declared();
    let one = txn(vec![posting("assets:checking", Some("1.00"), "$")]);
    assert!(validate(&one, &a, &c).unwrap_err().contains("at least 2"));

    let two_missing = txn(vec![
        posting("expenses:supplies", None, ""),
        posting("assets:checking", None, ""),
    ]);
    assert!(
        validate(&two_missing, &a, &c)
            .unwrap_err()
            .contains("at most one")
    );
}

#[test]
fn rejects_bad_amount() {
    let (a, c) = declared();
    let bad_amt = txn(vec![
        posting("expenses:supplies", Some("12.3.4"), "$"),
        posting("assets:checking", None, ""),
    ]);
    assert!(
        validate(&bad_amt, &a, &c)
            .unwrap_err()
            .contains("invalid amount")
    );
}

#[test]
fn rejects_reserved_tags_and_unsafe_text() {
    let (a, c) = declared();
    let mut t = txn(vec![
        posting("expenses:supplies", Some("1.00"), "$"),
        posting("assets:checking", None, ""),
    ]);
    t.tags = vec![("id".to_string(), "x".to_string())];
    assert!(validate(&t, &a, &c).unwrap_err().contains("reserved"));

    t.tags = vec![];
    t.description = "bad ; comment".to_string();
    assert!(validate(&t, &a, &c).unwrap_err().contains("';'"));
}

#[test]
fn validate_tag_key_isolates_each_rejection() {
    assert!(validate_tag_key("vendor").is_ok());
    assert!(validate_tag_key("").is_err(), "empty");
    assert!(validate_tag_key("a b").is_err(), "space");
    assert!(validate_tag_key("a\tb").is_err(), "tab");
    assert!(validate_tag_key("a:b").is_err(), "colon");
    assert!(validate_tag_key("a,b").is_err(), "comma");
}

#[test]
fn validation_messages_are_exact() {
    let (a, c) = declared();
    let both = |x: &str, y: &str| {
        txn(vec![
            posting("expenses:supplies", Some(x), "$"),
            posting("assets:checking", Some(y), "$"),
        ])
    };
    assert_eq!(
        validate(&both("12.34", "-10.00"), &a, &c).unwrap_err(),
        "unbalanced: $ postings sum to 2.34 (must be 0, or omit one amount to balance)"
    );
    assert!(validate(&both("12.340", "-12.34"), &a, &c).is_ok(), "places are aligned");
    let max = "170141183460469231731687303715884105727";
    assert_eq!(
        validate(&both(max, "1"), &a, &c).unwrap_err(),
        "amounts in $ are too large to add up"
    );
    assert_eq!(
        validate(&txn(vec![posting("x", None, ""), posting("y", None, "")]), &a, &c).unwrap_err(),
        "account not declared: 'x' — declare it first with declare_account"
    );
    assert_eq!(
        validate_text("tag value", "a\nb").unwrap_err(),
        "tag value must not contain a newline or ';'"
    );
}

#[test]
fn each_tag_fault_is_told() {
    let (a, c) = declared();
    let tagged = |k: &str, v: &str| {
        let mut t = txn(vec![
            posting("expenses:supplies", Some("1"), "$"),
            posting("assets:checking", None, ""),
        ]);
        t.tags = vec![("vendor".to_string(), "Acme".to_string()), (k.to_string(), v.to_string())];
        validate(&t, &a, &c)
    };
    for k in ["id", "idem", "reverses"] {
        assert_eq!(
            tagged(k, "x").unwrap_err(),
            format!("'{k}' is a reserved tag and cannot be set")
        );
    }
    assert_eq!(tagged("a b", "x").unwrap_err(), "invalid tag name: 'a b'");
    assert_eq!(
        tagged("k", "a;b").unwrap_err(),
        "tag value must not contain a newline or ';'"
    );
    assert_eq!(
        tagged("k", "a,b").unwrap_err(),
        "tag value for 'k' must not contain a comma"
    );
    let v = tagged("k", "x").unwrap();
    assert_eq!(v.tags.len(), 2);
    assert_eq!(v.postings[0].1, Some((Quantity::new(1, 0), "$".to_string())));
    assert_eq!(v.postings[1].1, None);
}

#[test]
fn an_idempotency_key_stays_one_tag_value() {
    let (a, c) = declared();
    let keyed = |key: &str| {
        let mut t = txn(vec![
            posting("expenses:supplies", Some("1"), "$"),
            posting("assets:checking", None, ""),
        ]);
        t.idem = Some(key.to_string());
        validate(&t, &a, &c).map(|_| ())
    };
    assert_eq!(keyed("k:1 2"), Ok(()));
    assert_eq!(keyed(""), Ok(()));
    assert_eq!(keyed("a,b").unwrap_err(), "idempotency key must not contain a comma");
    for key in ["a;b", "a\nb", "a\n,b"] {
        assert_eq!(
            keyed(key).unwrap_err(),
            "idempotency key must not contain a newline or ';'"
        );
    }
}
