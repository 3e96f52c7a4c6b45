//! Exact amounts.

use hledger_mcp::hledger::amount::{render_amounts, Amount, Quantity};

#[test]
fn renders_whole_and_fractional() {
    assert_eq!(Quantity::new(8766, 2).render(), "87.66");
    assert_eq!(Quantity::new(42, 0).render(), "42");
    assert_eq!(Quantity::new(5000, 2).render(), "50.00");
}

#[test]
fn renders_negative() {
    assert_eq!(Quantity::new(-15000, 2).render(), "-150.00");
    assert_eq!(Quantity::new(-1, 2).render(), "-0.01");
}

#[test]
fn renders_pure_fraction_with_leading_zeros() {
    assert_eq!(Quantity::new(5, 2).render(), "0.05");
    assert_eq!(Quantity::new(7, 3).render(), "0.007");
    assert_eq!(Quantity::new(0, 2).render(), "0.00");
    assert_eq!(Quantity::new(0, 0).render(), "0");
}

#[test]
fn amount_renders_on_configured_side() {
    let left = Amount {
        commodity: "$".into(),
        quantity: Quantity::new(8766, 2),
        commodity_left: true,
        spaced: false,
    };
    assert_eq!(left.render(), "$87.66");
    let right = Amount {
        commodity: "EUR".into(),
        quantity: Quantity::new(4000, 2),
        commodity_left: false,
        spaced: true,
    };
    assert_eq!(right.render(), "40.00 EUR");
}

#[test]
fn display_matches_render() {
    let q = Quantity::new(8766, 2);
    assert_eq!(q.to_string(), q.render());
    let a = Amount {
        commodity: "$".into(),
        quantity: q,
        commodity_left: true,
        spaced: false,
    };
    assert_eq!(a.to_string(), a.render());
}

#[test]
fn render_amounts_joins_and_handles_empty() {
    assert_eq!(render_amounts(&[]), "0");
    let amts = vec![
        Amount {
            commodity: "$".into(),
            quantity: Quantity::new(1000, 2),
            commodity_left: true,
            spaced: false,
        },
        Amount {
            commodity: "EUR".into(),
            quantity: Quantity::new(500, 2),
            commodity_left: false,
            spaced: true,
        },
    ];
    assert_eq!(render_amounts(&amts), "$10.00, 5.00 EUR");
}
