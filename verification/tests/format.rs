//! Journal entries as text.

use hledger_mcp::hledger::amount::Quantity;
use hledger_mcp::write::format::render_entry;

fn q(mantissa: i128, places: u32) -> Quantity {
    Quantity::new(mantissa, places)
}

#[test]
fn renders_balanced_two_posting_entry_with_tags() {
    let postings = vec![
        (
            "expenses:supplies".to_string(),
            Some((q(1234, 2), "$".to_string())),
        ),
        ("assets:checking".to_string(), None),
    ];
    let tags = vec![
        ("id".to_string(), "abc".to_string()),
        ("idem".to_string(), "xyz".to_string()),
    ];
    let text = render_entry("2026-01-15", "Acme", &postings, &tags);
    assert_eq!(
        text,
        "2026-01-15 Acme  ; id:abc, idem:xyz\n    expenses:supplies  12.34 $\n    assets:checking\n"
    );
}

#[test]
fn renders_empty_description_and_no_tags() {
    let postings = vec![("a:b".to_string(), Some((q(-100, 2), "EUR".to_string())))];
    let text = render_entry("2026-02-02", "", &postings, &[]);
    assert_eq!(text, "2026-02-02\n    a:b  -1.00 EUR\n");
}

#[test]
fn an_entry_has_a_line_for_each_posting() {
    let postings = vec![
        ("a".to_string(), Some((q(1, 0), "$".to_string()))),
        ("b:c d".to_string(), None),
        ("e".to_string(), Some((q(-100, 2), "EUR".to_string()))),
    ];
    let text = render_entry("2026-01-15", "Acme", &postings, &[]);
    let lines: Vec<&str> = text.lines().collect();
    assert_eq!(lines.len(), 4);
    assert!(lines[0].starts_with("2026-01-15"));
    assert!(lines[1..].iter().all(|l| l.starts_with("    ")));
}
