//! hledger's reports in JSON.

use hledger_mcp::date::Date;
use hledger_mcp::hledger::json::{
    balance_from_json, budget_from_json, budget_pair, composite_from_json, parse_balance,
    parse_budget, parse_composite_report, parse_failure, parse_json, Json, JsonAmount, JsonError, JsonPosting,
    JsonQuantity, JsonStyle, JsonTransaction,
};
use hledger_mcp::hledger::Status;

/// An amount as hledger writes it.
fn amount(commodity: &str, mantissa: i64, places: u8, side: &str, spaced: bool) -> String {
    format!(
        r#"{{"acommodity":"{commodity}","acost":null,"acostbasis":null,"aquantity":{{"decimalMantissa":{mantissa},"decimalPlaces":{places},"floatingPoint":0.5}},"astyle":{{"ascommodityside":"{side}","ascommodityspaced":{spaced},"asprecision":{places}}}}}"#
    )
}

fn dollars(mantissa: i64) -> String {
    amount("$", mantissa, 2, "L", false)
}

fn shape(e: JsonError) -> String {
    assert!(matches!(e, JsonError::Shape(_)), "{e:?}");
    e.to_string()
}

#[test]
fn parses_single_account_balance() {
    let doc = format!(
        r#"[[["assets:checking","assets:checking",0,[{a}]]],[{a}]]"#,
        a = dollars(4366)
    );
    let report = parse_balance(&doc).expect("parse balance_single");
    assert_eq!(report.rows.len(), 1);
    assert_eq!(report.rows[0].account, "assets:checking");
    assert_eq!(report.rows[0].amounts[0].render(), "$43.66");
    assert_eq!(report.totals[0].render(), "$43.66");
}

#[test]
fn parses_multi_account_balance_and_commodities() {
    let doc = format!(
        r#"[[["assets:savings account","savings account",1,[{a}]],["expenses:travel","travel",1,[{b}]]],[{a},{b}]]"#,
        a = dollars(10000),
        b = amount("EUR", 4000, 2, "R", true)
    );
    let report = parse_balance(&doc).expect("parse balance_all");
    let names: Vec<&str> = report.rows.iter().map(|r| r.account.as_str()).collect();
    assert!(names.contains(&"assets:savings account"), "{names:?}");
    assert!(names.contains(&"expenses:travel"), "{names:?}");
    let travel = report
        .rows
        .iter()
        .find(|r| r.account == "expenses:travel")
        .expect("travel row");
    assert_eq!(travel.amounts[0].render(), "40.00 EUR");
}

#[test]
fn ignores_extra_balance_array_elements() {
    let doc = r#"[
      [["assets:checking","assets:checking",0,
        [{"acommodity":"$","aquantity":{"decimalMantissa":4366,"decimalPlaces":2,
          "floatingPoint":43.66},"astyle":{"ascommodityside":"L","ascommodityspaced":false}}],
        "FUTURE_ROW_FIELD", 99]],
      [{"acommodity":"$","aquantity":{"decimalMantissa":4366,"decimalPlaces":2,
        "floatingPoint":43.66},"astyle":{"ascommodityside":"L","ascommodityspaced":false}}],
      "FUTURE_TOP_FIELD"]"#;
    let report = parse_balance(doc).expect("extra array elements ignored");
    assert_eq!(report.rows[0].account, "assets:checking");
    assert_eq!(report.rows[0].amounts[0].render(), "$43.66");
    assert_eq!(report.totals[0].render(), "$43.66");
}

#[test]
fn parses_balancesheet_golden() {
    let doc = format!(
        r#"{{"cbrTitle":"Balance Sheet 2026-03-01","cbrDates":[],"cbrSubreports":[
          ["Assets",{{"prDates":[],"prRows":[{{"prrName":"assets:checking","prrAmounts":[],"prrTotal":[{a}],"prrAverage":[]}}],
            "prTotals":{{"prrName":[],"prrTotal":[{a}]}}}},true],
          ["Liabilities",{{"prRows":[{{"prrName":"liabilities:ap:vendor:Bob Engineer","prrTotal":[{b}]}}],
            "prTotals":{{"prrName":[],"prrTotal":[{b}]}}}},false]],
          "cbrTotals":{{"prrName":[],"prrTotal":[{c}]}}}}"#,
        a = dollars(4212500),
        b = dollars(250000),
        c = dollars(3962500)
    );
    let report = parse_composite_report(&doc).expect("parse balancesheet");
    assert_eq!(report.title, "Balance Sheet 2026-03-01");
    assert_eq!(report.subreports.len(), 2);

    let assets = &report.subreports[0];
    assert_eq!(assets.name, "Assets");
    assert!(assets.is_positive);
    assert_eq!(assets.rows.len(), 1);
    assert_eq!(assets.rows[0].account, "assets:checking");
    assert_eq!(assets.rows[0].total[0].render(), "$42125.00");
    assert_eq!(assets.totals[0].render(), "$42125.00");

    let liabilities = &report.subreports[1];
    assert_eq!(liabilities.name, "Liabilities");
    assert!(!liabilities.is_positive);
    assert_eq!(liabilities.rows.len(), 1);
    assert_eq!(
        liabilities.rows[0].account,
        "liabilities:ap:vendor:Bob Engineer"
    );
    assert_eq!(liabilities.rows[0].total[0].render(), "$2500.00");

    assert_eq!(report.totals[0].render(), "$39625.00");
}

#[test]
fn parses_incomestatement_golden() {
    let doc = format!(
        r#"{{"cbrTitle":"Income Statement 2026-01-01..2026-03-01","cbrSubreports":[
          ["Revenues",{{"prRows":[{{"prrName":"income:interest","prrTotal":[{a}]}}],"prTotals":{{"prrTotal":[{a}]}}}},true],
          ["Expenses",{{"prRows":[{{"prrName":"expenses:construction:plumbing","prrTotal":[{b}]}},
            {{"prrName":"expenses:professional - Bob Engineer","prrTotal":[{c}]}}],"prTotals":{{"prrTotal":[{d}]}}}},false]],
          "cbrTotals":{{"prrTotal":[{e}]}}}}"#,
        a = dollars(12500),
        b = dollars(800000),
        c = dollars(250000),
        d = dollars(1050000),
        e = dollars(-1037500)
    );
    let report = parse_composite_report(&doc).expect("parse incomestatement");
    assert!(
        report.title.starts_with("Income Statement"),
        "title: {}",
        report.title
    );
    assert_eq!(report.subreports.len(), 2);

    let revenues = &report.subreports[0];
    assert_eq!(revenues.name, "Revenues");
    assert!(revenues.is_positive);
    assert_eq!(revenues.rows.len(), 1);
    assert_eq!(revenues.rows[0].account, "income:interest");
    assert_eq!(revenues.rows[0].total[0].render(), "$125.00");

    let expenses = &report.subreports[1];
    assert_eq!(expenses.name, "Expenses");
    assert!(!expenses.is_positive);
    assert_eq!(expenses.rows.len(), 2);
    let accounts: Vec<&str> = expenses.rows.iter().map(|r| r.account.as_str()).collect();
    assert!(
        accounts.contains(&"expenses:construction:plumbing"),
        "{accounts:?}"
    );
    assert!(
        accounts.contains(&"expenses:professional - Bob Engineer"),
        "{accounts:?}"
    );
}

#[test]
fn parses_budget_golden() {
    let doc = format!(
        r#"{{"prDates":[],"prRows":[{{"prrName":"expenses:construction:plumbing","prrTotal":[[{a}],[{g}]]}}],
          "prTotals":{{"prrName":[],"prrTotal":[[{a}],[{g}]]}}}}"#,
        a = amount("$", 30000, 2, "R", true),
        g = amount("$", 50000, 2, "R", true)
    );
    let report = parse_budget(&doc).expect("parse budget_basic");
    assert_eq!(report.rows.len(), 1);
    let row = &report.rows[0];
    assert_eq!(row.account, "expenses:construction:plumbing");
    assert_eq!(row.actual[0].render(), "300.00 $");
    assert_eq!(row.goal[0].render(), "500.00 $");
    assert_eq!(report.total_actual[0].render(), "300.00 $");
    assert_eq!(report.total_goal[0].render(), "500.00 $");
}

#[test]
fn budget_cell_tolerates_missing_or_null_goal() {
    let empty = || Json::Array(vec![]);
    let (actual, goal) = budget_pair(&Json::Array(vec![empty(), Json::Null])).expect("null goal");
    assert!(actual.is_empty() && goal.is_empty());
    // A null ACTUAL cell must also read as empty, not be fed to the amounts parser.
    let (actual, goal) = budget_pair(&Json::Array(vec![Json::Null, empty()])).expect("null actual");
    assert!(actual.is_empty() && goal.is_empty());
    let (_, goal) = budget_pair(&Json::Array(vec![empty()])).expect("absent goal");
    assert!(goal.is_empty());
    assert!(
        budget_pair(&Json::Text("x".to_string())).is_err(),
        "non-array"
    );
}

#[test]
fn composite_ignores_extra_subreport_tuple_elements() {
    let doc = r#"{
      "cbrTitle":"T","cbrTotals":{"prrTotal":[]},"cbrSubreports":[
        ["Assets",{"prRows":[],"prTotals":{"prrTotal":[]},"prDates":[]},true,"FUTURE"]
      ]}"#;
    let report = parse_composite_report(doc).expect("extra tuple element ignored");
    assert_eq!(report.subreports[0].name, "Assets");
}

#[test]
fn composite_rejects_missing_fields() {
    assert!(parse_composite_report(r#"{"cbrSubreports":[],"cbrTotals":{"prrTotal":[]}}"#).is_err());
    assert!(parse_composite_report(r#"{"cbrTitle":"T","cbrTotals":{"prrTotal":[]}}"#).is_err());
}

#[test]
fn balance_rejects_wrong_shapes() {
    // Not a top-level array.
    assert!(parse_balance(r#"{"rows":[]}"#).is_err());
    // Missing the totals element (only one top element).
    assert!(parse_balance(r#"[[]]"#).is_err());
    // Row isn't an array.
    assert!(parse_balance(r#"[[42],[]]"#).is_err());
    // Row missing the account-name cell (empty row).
    assert!(parse_balance(r#"[[[]],[]]"#).is_err());
    // Row present with account but missing the amounts cell (index 3).
    assert!(parse_balance(r#"[[["a:b","a:b",0]],[]]"#).is_err());
}

#[test]
fn text_that_is_no_json_is_a_syntax_error() {
    assert_eq!(
        parse_json("").unwrap_err(),
        JsonError::Syntax("EOF while parsing a value at line 1 column 0".to_string())
    );
    for (text, parse) in [
        ("not json", parse_balance("not json").err()),
        ("{", parse_composite_report("{").err()),
        ("[1,\n 2", parse_budget("[1,\n 2").err()),
    ] {
        let e = parse.expect("no JSON");
        let message = serde_json::from_str::<serde_json::Value>(text).unwrap_err().to_string();
        assert_eq!(e, JsonError::Syntax(message.clone()));
        assert_eq!(e.to_string(), message);
        assert_eq!(
            parse_failure(e).to_string(),
            format!("could not parse hledger JSON output: {message}")
        );
    }
}

#[test]
fn each_wrong_shape_has_its_message() {
    assert_eq!(
        shape(parse_balance("{}").unwrap_err()),
        "balance: expected a top-level array"
    );
    assert_eq!(
        shape(parse_balance("[]").unwrap_err()),
        "balance: missing rows element"
    );
    assert_eq!(
        shape(parse_balance("[[]]").unwrap_err()),
        "balance: missing totals element"
    );
    assert_eq!(
        shape(parse_balance("[1,[]]").unwrap_err()),
        "balance: rows is not an array"
    );
    assert_eq!(
        shape(parse_balance("[[1],[]]").unwrap_err()),
        "balance: row is not an array"
    );
    assert_eq!(
        shape(parse_balance("[[[1]],[]]").unwrap_err()),
        "balance: row missing account name"
    );
    assert_eq!(
        shape(parse_balance(r#"[[["a",0,0]],[]]"#).unwrap_err()),
        "balance: row missing amounts"
    );
    assert_eq!(
        shape(parse_balance(r#"[[["a",0,0,1]],[]]"#).unwrap_err()),
        "invalid type: integer `1`, expected a sequence"
    );
    assert_eq!(
        shape(parse_balance("[[],[{}]]").unwrap_err()),
        "missing field `acommodity`"
    );
    assert_eq!(
        shape(parse_composite_report("{}").unwrap_err()),
        "composite: missing cbrTitle string"
    );
    assert_eq!(
        shape(parse_composite_report(r#"{"cbrTitle":"T"}"#).unwrap_err()),
        "composite: cbrSubreports not array"
    );
    let sub = |entry: &str| {
        shape(
            parse_composite_report(&format!(
                r#"{{"cbrTitle":"T","cbrSubreports":[{entry}],"cbrTotals":{{"prrTotal":[]}}}}"#
            ))
            .unwrap_err(),
        )
    };
    assert_eq!(sub("1"), "composite: subreport entry not array");
    assert_eq!(sub("[]"), "composite: subreport missing name");
    assert_eq!(
        sub(r#"["A"]"#),
        "composite: subreport missing PeriodicReport"
    );
    assert_eq!(
        sub(r#"["A",{}]"#),
        "composite: subreport missing isPositive"
    );
    assert_eq!(sub(r#"["A",{},true]"#), "composite: prRows not array");
    assert_eq!(
        sub(r#"["A",{"prRows":[{}]},true]"#),
        "composite: prrName not string"
    );
    assert_eq!(
        sub(r#"["A",{"prRows":[]},true]"#),
        "invalid type: null, expected a sequence"
    );
    assert_eq!(
        shape(parse_budget("{}").unwrap_err()),
        "budget: prRows not array"
    );
    assert_eq!(
        shape(parse_budget(r#"{"prRows":[{}]}"#).unwrap_err()),
        "budget: prrName not string"
    );
    assert_eq!(
        shape(parse_budget(r#"{"prRows":[]}"#).unwrap_err()),
        "budget: cell is not an [actual, goal] pair"
    );
}

#[test]
fn documents_are_read_layer_by_layer() {
    let doc = parse_json(r#"{"b":[null,true,-7,1.5,"x"],"a":{"n":18446744073709551615}}"#).unwrap();
    let Json::Object(members) = doc else {
        panic!("an object");
    };
    assert_eq!(members.len(), 2);
    for (name, value) in members {
        match (name.as_str(), value) {
            ("a", Json::Object(inner)) => {
                assert_eq!(inner[0].0, "n");
                assert!(matches!(inner[0].1, Json::Number(Some(18446744073709551615), _)));
            }
            ("b", Json::Array(items)) => {
                assert!(matches!(items[0], Json::Null));
                assert!(matches!(items[1], Json::Bool(true)));
                assert!(matches!(items[2], Json::Number(Some(-7), _)));
                assert!(matches!(&items[3], Json::Number(None, t) if t == "1.5"), "no integer");
                assert!(matches!(&items[4], Json::Text(s) if s == "x"));
            }
            (other, value) => panic!("{other}: {value:?}"),
        }
    }
}

#[test]
fn quantities_are_exact_integers_with_small_places() {
    let doc = |mantissa: &str, places: &str| {
        format!(
            r#"[[],[{{"acommodity":"$","aquantity":{{"decimalMantissa":{mantissa},"decimalPlaces":{places}}},"astyle":{{"ascommodityside":"R","ascommodityspaced":true}}}}]]"#
        )
    };
    let read = |m: &str, p: &str| parse_balance(&doc(m, p)).map(|r| r.totals[0].render());
    assert_eq!(
        read("-9223372036854775808", "3"),
        Ok("-9223372036854775.808 $".to_string())
    );
    assert_eq!(
        read("18446744073709551615", "0"),
        Ok("18446744073709551615 $".to_string())
    );
    assert!(read("1.5", "2").is_err(), "no floats");
    assert!(read("1e3", "2").is_err(), "no floats");
    assert!(read("18446744073709551616", "0").is_err(), "beyond 64 bits");
    assert!(read("1", "256").is_err(), "too many places");
    assert!(read("1", "-1").is_err(), "negative places");
    assert!(read("\"1\"", "2").is_err(), "text is no number");
}

#[test]
fn an_amount_may_be_written_as_a_list_of_its_fields() {
    let report = parse_balance(r#"[[],[["$",[150,2],["L",false]]]]"#).unwrap();
    assert_eq!(report.totals[0].render(), "$1.50");
    assert!(parse_balance(r#"[[],[["$",[150,2],["L",false],0]]]"#).is_err());
}

#[test]
fn unknown_members_are_ignored() {
    let plain = balance_from_json(&parse_json(&format!("[[],[{}]]", dollars(100))).unwrap()).unwrap();
    let more = r#"[[],[{"zzz":1,"acommodity":"$","aaa":[],"aquantity":{"decimalPlaces":2,"decimalMantissa":100},
        "astyle":{"x":{},"ascommodityspaced":false,"ascommodityside":"L"}}]]"#;
    assert_eq!(
        plain,
        balance_from_json(&parse_json(more).unwrap()).unwrap()
    );
    let statement = r#"{"new":1,"cbrTotals":{"prrTotal":[],"new":2},"cbrTitle":"T","cbrSubreports":[]}"#;
    assert_eq!(
        composite_from_json(&parse_json(statement).unwrap())
            .unwrap()
            .title,
        "T"
    );
    let budget = r#"{"new":1,"prRows":[],"prTotals":{"prrTotal":[null,null,"new"]}}"#;
    assert!(budget_from_json(&parse_json(budget).unwrap())
        .unwrap()
        .rows
        .is_empty());
}

#[test]
fn wire_transactions_become_transactions() {
    let wire = |mantissa: i128| JsonAmount {
        acommodity: "$".to_string(),
        aquantity: JsonQuantity { mantissa, places: 2 },
        astyle: JsonStyle {
            ascommodityside: "L".to_string(),
            ascommodityspaced: false,
        },
    };
    let txn = JsonTransaction {
        tdate: Date::from_ymd_opt(2026, 1, 15).unwrap(),
        tdescription: "Acme".to_string(),
        tindex: 2,
        tstatus: Status::Cleared,
        tcomment: "c".to_string(),
        ttags: vec![("vendor".to_string(), "Acme".to_string())],
        tpostings: vec![
            JsonPosting {
                paccount: "expenses:supplies".to_string(),
                pamount: vec![wire(1234), wire(i128::MAX)],
                pcomment: String::new(),
                ptags: vec![],
            },
            JsonPosting {
                paccount: "assets:checking".to_string(),
                pamount: vec![wire(-1234)],
                pcomment: "p".to_string(),
                ptags: vec![("invoice".to_string(), "7".to_string())],
            },
        ],
    }
    .into_transaction();
    assert_eq!(txn.date.to_string(), "2026-01-15");
    assert_eq!((txn.description.as_str(), txn.index), ("Acme", 2));
    assert_eq!(txn.status, Status::Cleared);
    assert_eq!(txn.postings[0].account, "expenses:supplies");
    assert_eq!(txn.postings[0].amounts[0].render(), "$12.34");
    assert_eq!(
        txn.postings[0].amounts[1].quantity.mantissa,
        i128::MAX
    );
    assert_eq!(txn.postings[1].amounts[0].render(), "$-12.34");
    assert_eq!(txn.postings[1].tags[0].0, "invoice");
}

/// The message for a balance whose totals are one amount with this text.
fn amount_fault(amount: &str) -> String {
    parse_balance(&format!("[[],[{amount}]]")).unwrap_err().to_string()
}

/// An amount with these documents in its fields.
fn amount_of(commodity: &str, mantissa: &str, places: &str, side: &str, spaced: &str) -> String {
    format!(
        r#"{{"acommodity":{commodity},"aquantity":{{"decimalMantissa":{mantissa},"decimalPlaces":{places}}},"astyle":{{"ascommodityside":{side},"ascommodityspaced":{spaced}}}}}"#
    )
}

#[test]
fn a_malformed_amount_is_reported_as_the_parser_does() {
    fn said<T: serde::de::DeserializeOwned + std::fmt::Debug>(text: &str) -> String {
        let value: serde_json::Value = serde_json::from_str(text).unwrap();
        serde_json::from_value::<T>(value).unwrap_err().to_string()
    }
    let others = [
        "null", "true", "false", "-7", "1.5", "1e300", "[1]", "{}", r#""x\ty \"z\" at line 1 column 2""#,
    ];
    for text in others {
        let is = |start: char| text.starts_with(start);
        if !is('"') {
            assert_eq!(amount_fault(&amount_of(text, "1", "2", r#""L""#, "true")), said::<String>(text));
            assert_eq!(amount_fault(&amount_of(r#""$""#, "1", "2", text, "true")), said::<String>(text));
        }
        if !is('t') && !is('f') {
            assert_eq!(amount_fault(&amount_of(r#""$""#, "1", "2", r#""L""#, text)), said::<bool>(text));
        }
        if text != "-7" {
            assert_eq!(amount_fault(&amount_of(r#""$""#, text, "2", r#""L""#, "true")), said::<i128>(text));
        }
        assert_eq!(amount_fault(&amount_of(r#""$""#, "1", text, r#""L""#, "true")), said::<u8>(text));
        if !is('[') {
            let doc = format!("[[],{text}]");
            assert_eq!(parse_balance(&doc).unwrap_err().to_string(), said::<Vec<String>>(text));
        }
    }
    assert_eq!(amount_fault(&amount_of(r#""$""#, "1", "256", r#""L""#, "true")), said::<u8>("256"));
}

#[test]
fn a_malformed_record_is_named() {
    assert_eq!(amount_fault("7"), "invalid type: integer `7`, expected struct JsonAmount");
    assert_eq!(
        amount_fault(r#"{"acommodity":"$","aquantity":null,"astyle":1}"#),
        "invalid type: null, expected struct JsonQuantity"
    );
    assert_eq!(
        amount_fault(r#"{"acommodity":"$","astyle":true}"#),
        "invalid type: boolean `true`, expected struct JsonStyle"
    );
    assert_eq!(amount_fault(r#"{"acommodity":"$"}"#), "missing field `aquantity`");
    assert_eq!(
        amount_fault(r#"{"acommodity":"$","aquantity":{"decimalMantissa":1}}"#),
        "missing field `decimalPlaces`"
    );
    assert_eq!(
        amount_fault("[]"),
        "invalid length 0, expected struct JsonAmount with 3 elements"
    );
    assert_eq!(
        amount_fault(r#"["$",[1]]"#),
        "invalid length 1, expected struct JsonQuantity with 2 elements"
    );
    assert_eq!(
        amount_fault(r#"["$",[1,2],["L",true],0]"#),
        "invalid length 4, expected fewer elements in array"
    );
    let read = parse_balance(r#"[[],[["$",[1234,2],["L",false]]]]"#).unwrap();
    assert_eq!(read.totals[0].render(), "$12.34");
}
