//! The arguments of the hledger commands.

use hledger_mcp::hledger::cli::{
    accounts_declared_argv, accounts_tombstoned_argv, balance_argv, balance_flat_argv,
    balancesheet_argv, budget_argv, check_strict_argv, commodities_argv, incomestatement_argv,
    print_argv, version_argv,
};

fn journal() -> String {
    "/x/main.journal".to_string()
}

#[test]
fn version_is_just_the_flag() {
    assert_eq!(version_argv(), vec!["--version"]);
}

#[test]
fn balance_with_account() {
    assert_eq!(
        balance_argv(&journal(), Some("assets:checking")),
        vec![
            "balance",
            "assets:checking",
            "-O",
            "json",
            "-f",
            "/x/main.journal"
        ]
    );
}

#[test]
fn balance_without_account_omits_the_query_token() {
    assert_eq!(
        balance_argv(&journal(), None),
        vec!["balance", "-O", "json", "-f", "/x/main.journal"]
    );
}

#[test]
fn print_passes_query_terms_through_verbatim() {
    assert_eq!(
        print_argv(
            &journal(),
            &["desc:Acme".to_string(), "date:2026".to_string()]
        ),
        vec![
            "print",
            "desc:Acme",
            "date:2026",
            "-O",
            "json",
            "-f",
            "/x/main.journal"
        ]
    );
}

#[test]
fn print_with_empty_query() {
    assert_eq!(
        print_argv(&journal(), &[]),
        vec!["print", "-O", "json", "-f", "/x/main.journal"]
    );
}

#[test]
fn check_strict_argv_shape() {
    assert_eq!(
        check_strict_argv(&journal()),
        vec!["check", "--strict", "-f", "/x/main.journal"]
    );
}

#[test]
fn declared_set_argv_shapes() {
    assert_eq!(
        accounts_declared_argv(&journal()),
        vec!["accounts", "--declared", "-f", "/x/main.journal"]
    );
    assert_eq!(
        commodities_argv(&journal()),
        vec!["commodities", "-f", "/x/main.journal"]
    );
}

#[test]
fn tombstoned_query_is_anchored() {
    // The anchor is load-bearing: hledger tag-name matching is an unanchored regex.
    assert_eq!(
        accounts_tombstoned_argv(&journal()),
        vec![
            "accounts",
            "--declared",
            "tag:^tombstoned$",
            "-f",
            "/x/main.journal"
        ]
    );
}

#[test]
fn report_argv_shapes() {
    assert_eq!(
        balance_flat_argv("j", "liabilities:ap"),
        vec!["balance", "--flat", "liabilities:ap", "-O", "json", "-f", "j"]
    );
    assert_eq!(balancesheet_argv("j"), vec!["balancesheet", "-O", "json", "-f", "j"]);
    assert_eq!(incomestatement_argv("j"), vec!["incomestatement", "-O", "json", "-f", "j"]);
    assert_eq!(budget_argv("j", None), vec!["balance", "--budget", "-M", "-O", "json", "-f", "j"]);
    assert_eq!(
        budget_argv("j", Some("e:x")),
        vec!["balance", "e:x", "--budget", "-M", "-O", "json", "-f", "j"]
    );
}
