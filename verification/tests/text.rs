//! Text, decimals, dates and paths.

use chrono::Datelike;
use hledger_mcp::date::Date;
use hledger_mcp::decimal::{decimal_text, parse_digits};
use hledger_mcp::hledger::amount::Quantity;
use hledger_mcp::path::{file_name_of, join_path, parent_of};
use hledger_mcp::text::{
    has_prefix, has_suffix, is_whitespace, join_texts, split_lines, trimmed, trimmed_start,
    without_prefix,
};

#[test]
fn white_space_is_that_of_the_standard_library() {
    for c in '\0'..=char::MAX {
        assert_eq!(is_whitespace(c), c.is_whitespace(), "{c:?}");
    }
}

#[test]
fn lines_and_trimming_are_those_of_the_standard_library() {
    for s in [
        "", "\n", "a", "a\n", "a\nb", "a\r\nb\r\n", "a\r", "\r\n", "a\n\nb", " a \t", "\u{a0}x\u{3000}",
        "  ", "é\nß", "\r\r\n",
    ] {
        let expected: Vec<String> = s.lines().map(str::to_string).collect();
        assert_eq!(split_lines(s), expected, "{s:?}");
        assert_eq!(trimmed(s), s.trim(), "{s:?}");
        assert_eq!(trimmed_start(s), s.trim_start(), "{s:?}");
    }
}

#[test]
fn prefixes_suffixes_and_joins() {
    assert!(has_prefix("abc", "ab") && !has_prefix("ab", "abc") && has_prefix("", ""));
    assert!(has_suffix("abc", "bc") && !has_suffix("bc", "abc") && has_suffix("x", ""));
    assert_eq!(without_prefix("abc", "a"), Some("bc".to_string()));
    assert_eq!(without_prefix("abc", "b"), None);
    let parts = vec!["a".to_string(), String::new(), "c".to_string()];
    assert_eq!(join_texts(&parts, ", "), "a, , c");
    assert_eq!(join_texts(&vec![], ", "), "");
}

#[test]
fn decimals_are_those_of_the_standard_library() {
    for n in [0, 7, 10, 99, 100, 1234567890, u64::MAX as u128, u128::MAX] {
        assert_eq!(decimal_text(n), n.to_string());
    }
    let digits: Vec<char> = "x0420y".chars().collect();
    assert_eq!(parse_digits(&digits, 1, 5, 1000), Some(420));
    assert_eq!(parse_digits(&digits, 1, 5, 419), None);
    assert_eq!(parse_digits(&digits, 0, 5, 1000), None);
    assert_eq!(parse_digits(&digits, 1, 1, 1000), Some(0));
}

#[test]
fn quantities_read_back_exactly() {
    for (mantissa, places) in [
        (0, 0),
        (0, 2),
        (5, 2),
        (-5, 2),
        (8766, 2),
        (-15000, 2),
        (42, 0),
        (1, 40),
        (i128::MAX, 3),
        (i128::MIN, 0),
        (i128::MIN, 60),
    ] {
        let q = Quantity::new(mantissa, places);
        assert_eq!(Quantity::parse(&q.render()), Some(q), "{q:?}");
    }
    assert_eq!(Quantity::parse("12.34"), Some(Quantity::new(1234, 2)));
    assert_eq!(Quantity::parse("-44.00"), Some(Quantity::new(-4400, 2)));
    assert_eq!(Quantity::parse("007"), Some(Quantity::new(7, 0)));
    for bad in [
        "", "-", ".", "1.", ".5", "12.3.4", "one", "+1", "1 ", " 1", "1e3", "1,000", "--1",
        "170141183460469231731687303715884105728",
    ] {
        assert_eq!(Quantity::parse(bad), None, "{bad:?}");
    }
    assert_eq!(
        Quantity::parse("-170141183460469231731687303715884105728"),
        Some(Quantity::new(i128::MIN, 0))
    );
}

#[test]
fn quantities_add_at_the_larger_number_of_places() {
    let q = Quantity::new;
    assert_eq!(q(1, 0).plus(q(25, 2)), Some(q(125, 2)));
    assert_eq!(q(25, 2).plus(q(1, 0)), Some(q(125, 2)));
    assert_eq!(q(-125, 2).plus(q(125, 2)), Some(q(0, 2)));
    assert_eq!(q(0, 0).plus(q(7, 3)), Some(q(7, 3)));
    assert_eq!(q(i128::MAX, 0).plus(q(1, 0)), None);
    assert_eq!(q(i128::MAX, 0).plus(q(0, 1)), None);
    assert_eq!(q(0, 0).plus(q(0, u32::MAX)), Some(q(0, u32::MAX)));
    assert!(q(0, 5).is_zero() && !q(1, 5).is_zero());
}

#[test]
fn dates_are_those_of_the_calendar() {
    for (y, m, d) in [
        (2026, 2, 28),
        (2026, 2, 29),
        (2024, 2, 29),
        (1900, 2, 29),
        (2000, 2, 29),
        (2026, 0, 1),
        (2026, 13, 1),
        (2026, 4, 31),
        (2026, 12, 31),
        (-4, 2, 29),
        (262142, 12, 31),
        (262143, 1, 1),
        (-262143, 1, 1),
        (-262144, 12, 31),
        (10000, 1, 1),
        (0, 3, 4),
        (-1, 3, 4),
        (-12345, 3, 4),
    ] {
        let ours = Date::from_ymd_opt(y, m, d);
        let theirs = chrono::NaiveDate::from_ymd_opt(y, m, d);
        assert_eq!(ours.is_some(), theirs.is_some(), "{y} {m} {d}");
        if let (Some(a), Some(b)) = (ours, theirs) {
            assert_eq!((a.year(), a.month(), a.day()), (y, m, d));
            assert_eq!(a.to_string(), b.to_string());
        }
    }
    let day = |y, m, d| Date::from_ymd_opt(y, m, d).unwrap();
    assert_eq!(day(2026, 1, 5).to_string(), "2026-01-05");
    assert_eq!(day(10000, 1, 1).to_string(), "+10000-01-01");
    assert_eq!(day(-1, 3, 4).to_string(), "-0001-03-04");
    assert_eq!(day(2026, 4, 15).days_since(day(2026, 1, 1)), 104);
    assert_eq!(day(2026, 1, 1).days_since(day(2026, 4, 15)), -104);
    assert_eq!(day(2025, 3, 1).days_since(day(2024, 3, 1)), 365);
    assert_eq!(day(2024, 3, 1).days_since(day(2024, 2, 28)), 2);
    assert!(day(2026, 1, 31).is_before(&day(2026, 2, 1)));
    assert!(day(2025, 12, 31).is_before(&day(2026, 1, 1)));
    assert!(!day(2026, 1, 1).is_before(&day(2026, 1, 1)));
    let before = chrono::Local::now().date_naive();
    let today = Date::today();
    let after = chrono::Local::now().date_naive();
    let today = chrono::NaiveDate::from_ymd_opt(today.year(), today.month(), today.day()).unwrap();
    assert!(before <= today && today <= after);
    assert!(before.year() >= 2024);
}

#[test]
fn paths_are_those_of_the_standard_library() {
    for s in [
        "/a/b/main.journal",
        "main.journal",
        "/main.journal",
        "a/main.journal",
        "./main.journal",
        "../main.journal",
        "a//b",
        "a/./b",
        "a/b/",
        "a/b/.",
        "a/b/./",
        "//a",
        "/",
        "//",
        "/.",
        "",
        ".",
        "..",
        "a/..",
        "./.",
        "a b/c d",
        "a/.b",
        "a/b.",
    ] {
        let p = std::path::Path::new(s);
        assert_eq!(
            parent_of(s),
            p.parent().map(|x| x.to_str().unwrap().to_string()),
            "{s:?}"
        );
        assert_eq!(
            file_name_of(s),
            p.file_name().map(|x| x.to_str().unwrap().to_string()),
            "{s:?}"
        );
        assert_eq!(
            join_path(s, "budget.journal"),
            p.join("budget.journal").to_str().unwrap(),
            "{s:?}"
        );
    }
}
