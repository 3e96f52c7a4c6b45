//! The tools that the server offers: what they ask of the ledger, and what they answer.

use vstd::prelude::*;

use crate::catalog::{
    Profile, Tier, advertised, catalog, find_tool, lists, meta, profile_name, tools,
};
use crate::date::{Civil, Date, civil_text, exists_in_calendar};
use crate::decimal::{decimal, decimal_text};
use crate::domain::{
    ApAgingEntry, VendorType, aging_entries, aging_text, amount_posting, balancing_posting,
    budget_report_lines, compute_ap_aging, fund_project_input, funding, interest, invoice,
    law_statement_ends_with_its_net_total, post_interest_input, receive_invoice_input,
    render_ap_aging, render_budget, render_composite, statement_lines, today, vendor_ap_account,
    vendor_expense_account,
};
use crate::epoch::{CommitOid, Epoch, ToolClass, epoch_short, first_twelve, passes};
use crate::flags::{
    Flag, FlagView, ap_aging_flags, flags_text, flags_view, over_budget_flags, overdraft_flags,
    overdue, render_flags, report_overdrafts, report_overruns,
};
use crate::hledger::{
    AccountBalanceView, BalanceReport, BalanceReportView, BudgetReport, BudgetReportView,
    CompositeReport, CompositeReportView, HledgerError, Transaction, TransactionView, Version,
    balances_view, hledger_error_text, transactions_view,
};
use crate::hledger::amount::{Quantity, amounts_text, quantity_of, quantity_text, render_amounts};
use crate::resources::{StaticResource, resources_view, static_resources, statics};
use crate::server::args::{
    BudgetSetArgs, DeclareCommodityArgs, FundProjectArgs, GetApAgingArgs, PostInterestArgs,
    ReceiveInvoiceArgs, VendorAddArgs,
};
use crate::server::orders::{ApprovedOrder, RecordedOrder, VoidedOrder};
use crate::text::{
    cat, cat3, has_prefix, join, join_texts, lines, listed, same, starts_with, texts, trim,
};
use crate::write::{
    CommitOutcome, RepoSample, WriteError, WriteOutcome, commodity_text, debug_text, git_line,
    git_status_line, is_account_name, is_commodity_symbol, net, quoted, write_error_text,
};
use crate::write::budget::{
    BudgetPeriod, BudgetRule, BudgetRuleView, malformed_message, period_word, read_budget_rules,
    rules_view,
};
use crate::write::budgeting::{BudgetState, rules_of, set_budget};
use crate::write::input::{TransactionInput, TransactionInputView, option_view};
use crate::write::plan::{
    Action, PostState, Recording, Step, ends_input, entries, post_begins, post_transaction,
    recording_begins,
};
use crate::write::view::{ConnectionView, WriteContext, after};

pub mod args;
pub mod once;
pub mod orders;
pub mod voiding;

verus! {

/// The name of the server.
pub const SERVER_NAME: &'static str = "hledger-mcp";

// ---------------------------------------------------------------------------
// Answers
// ---------------------------------------------------------------------------

/// The answer of a tool: a text, and whether it reports a failure.
#[derive(Debug, PartialEq, Eq)]
pub struct ToolResult {
    pub text: String,
    pub is_error: bool,
}

impl ToolResult {
    /// The answer of a tool that did its work.
    pub fn success(text: String) -> (r: ToolResult)
        ensures
            r.text == text,
            !r.is_error,
    {
        ToolResult { text, is_error: false }
    }

    /// The answer of a tool that failed.
    pub fn error(text: String) -> (r: ToolResult)
        ensures
            r.text == text,
            r.is_error,
    {
        ToolResult { text, is_error: true }
    }
}

/// The answer where hledger failed.
pub fn adapter_error(err: &HledgerError) -> (r: ToolResult)
    ensures
        r.is_error,
        r.text@ == "hledger error: "@ + hledger_error_text(*err),
{
    ToolResult::error(cat("hledger error: ", &err.to_string()))
}

/// The answer where nothing was written.
pub fn write_error_result(err: &WriteError) -> (r: ToolResult)
    ensures
        r.is_error,
        r.text@ == write_error_text(*err),
{
    ToolResult::error(err.to_string())
}

/// The answer to a posted transaction.
pub open spec fn post_outcome(id: Seq<char>, commit: Seq<char>, deduped: bool) -> Seq<char> {
    if deduped {
        "already posted (idempotent): transaction id:"@ + id + " — no new commit (HEAD "@ + first_twelve(commit) + ")"@
    } else {
        "posted transaction id:"@ + id + " (commit "@ + first_twelve(commit) + ")"@
    }
}

/// The answer to a posted transaction; a repeated request is told from a new one.
pub fn post_outcome_text(outcome: &WriteOutcome) -> (r: String)
    ensures
        r@ == post_outcome(outcome.base.id@, outcome.base.commit@, outcome.deduped),
{
    let mut out: String = if outcome.deduped {
        cat3("already posted (idempotent): transaction id:", &outcome.base.id, " — no new commit (HEAD ")
    } else {
        cat3("posted transaction id:", &outcome.base.id, " (commit ")
    };
    out.append(outcome.base.commit.short());
    out.append(")");
    out
}

/// What was done to something, and in which commit: `{before}{name}{after}{commit})`.
fn outcome_line(before: &str, name: &str, after: &str, commit: &CommitOid) -> (r: String)
    ensures
        r@ == before@ + name@ + after@ + first_twelve(commit@) + ")"@,
{
    let mut out: String = cat3(before, name, after);
    out.append(commit.short());
    out.append(")");
    out
}

/// The answer to a declared account.
pub fn declared_account_text(out: &CommitOutcome) -> (r: String)
    ensures
        r@ == "declared account '"@ + out.id@ + "' (commit "@ + first_twelve(out.commit@) + ")"@,
{
    outcome_line("declared account '", &out.id, "' (commit ", &out.commit)
}

/// The answer to a closed account.
pub fn closed_account_text(out: &CommitOutcome) -> (r: String)
    ensures
        r@ == "closed (tombstoned) account '"@ + out.id@ + "' (commit "@ + first_twelve(out.commit@) + ")"@,
{
    outcome_line("closed (tombstoned) account '", &out.id, "' (commit ", &out.commit)
}

/// The answer to a declared commodity.
pub fn declared_commodity_text(places: u8, out: &CommitOutcome) -> (r: String)
    ensures
        r@ == "declared commodity '"@ + out.id@ + "' ("@ + decimal(places as nat) + " dp, commit "@ + first_twelve(
            out.commit@,
        ) + ")"@,
{
    let mut text: String = cat3("declared commodity '", &out.id, "' (");
    text.append(&decimal_text(places as u128));
    text.append(" dp, commit ");
    text.append(out.commit.short());
    text.append(")");
    text
}

/// The answer to a voided transaction.
pub fn voided_text(target: &str, outcome: &WriteOutcome) -> (r: String)
    ensures
        r@ == "voided '"@ + target@ + "' with reversing entry id:"@ + outcome.base.id@ + " (commit "@ + first_twelve(
            outcome.base.commit@,
        ) + ")"@,
{
    let before: String = cat3("voided '", target, "' with reversing entry id:");
    outcome_line(&before, &outcome.base.id, " (commit ", &outcome.base.commit)
}

/// The answer to a replaced transaction.
pub fn updated_text(target: &str, outcome: &WriteOutcome) -> (r: String)
    ensures
        r@ == "updated: voided '"@ + target@ + "', posted replacement id:"@ + outcome.base.id@ + " (commit "@
            + first_twelve(outcome.base.commit@) + ")"@,
{
    let before: String = cat3("updated: voided '", target, "', posted replacement id:");
    outcome_line(&before, &outcome.base.id, " (commit ", &outcome.base.commit)
}

/// The answer to a declared vendor.
pub fn vendor_added_text(out: &CommitOutcome) -> (r: String)
    ensures
        r@ == "declared vendor '"@ + out.id@ + "': AP account + expense account (commit "@ + first_twelve(out.commit@)
            + ")"@,
{
    outcome_line("declared vendor '", &out.id, "': AP account + expense account (commit ", &out.commit)
}

/// The answer to a budget goal.
pub fn budget_set_text(args: &BudgetSetArgs, out: &CommitOutcome) -> (r: String)
    ensures
        r@ == "budget set: "@ + out.id@ + " "@ + period_word(args.period) + " = "@ + args.amount@ + " "@ + args.commodity@
            + " (commit "@ + first_twelve(out.commit@) + ")"@,
{
    let mut text: String = cat3("budget set: ", &out.id, " ");
    text.append(args.period.keyword());
    text.append(" = ");
    text.append(&args.amount);
    text.append(" ");
    text.append(&args.commodity);
    text.append(" (commit ");
    text.append(out.commit.short());
    text.append(")");
    text
}

/// The answer to a recorded change order.
pub fn eco_recorded_text(order: &RecordedOrder) -> (r: String)
    ensures
        r@ == "ECO "@ + order.eco@ + " recorded as pending, id:"@ + order.outcome.base.id@ + " (commit "@ + first_twelve(
            order.outcome.base.commit@,
        ) + ")"@,
{
    let before: String = cat3("ECO ", &order.eco, " recorded as pending, id:");
    outcome_line(&before, &order.outcome.base.id, " (commit ", &order.outcome.base.commit)
}

/// The answer to an approved change order.
pub open spec fn eco_approval_text(order: ApprovedOrder) -> Seq<char> {
    let line = "ECO "@ + order.eco@ + " approved, id:"@ + order.outcome.base.id@ + " (commit "@ + first_twelve(
        order.outcome.base.commit@,
    ) + ")"@;
    match order.budget {
        Some(report) => line + "\n"@ + budget_answer(report@),
        None => line,
    }
}

/// The answer to an approved change order, with its budget where that could be read.
pub fn eco_approved_text(order: &ApprovedOrder) -> (r: String)
    ensures
        r@ == eco_approval_text(*order),
{
    let before: String = cat3("ECO ", &order.eco, " approved, id:");
    let mut text: String = outcome_line(&before, &order.outcome.base.id, " (commit ", &order.outcome.base.commit);
    if let Some(report) = &order.budget {
        text.append("\n");
        text.append(&budget_text(report));
    }
    text
}

/// The answer to a voided change order.
pub fn eco_voided_text(order: &VoidedOrder) -> (r: String)
    ensures
        r@ == "ECO "@ + order.eco@ + " voided: "@ + decimal(order.count as nat) + (if order.count == 1 {
            " reversing entry posted (last commit "@
        } else {
            " reversing entries posted (last commit "@
        }) + first_twelve(order.last.base.commit@) + ")"@,
{
    let mut text: String = cat3("ECO ", &order.eco, " voided: ");
    text.append(&decimal_text(order.count as u128));
    if order.count == 1 {
        text.append(" reversing entry posted (last commit ");
    } else {
        text.append(" reversing entries posted (last commit ");
    }
    text.append(order.last.base.commit.short());
    text.append(")");
    text
}

// ---------------------------------------------------------------------------
// Reports
// ---------------------------------------------------------------------------

/// A report with its flags below it, where there are any.
pub open spec fn with_footer(report: Seq<char>, flags: Seq<FlagView>) -> Seq<char> {
    if flags.len() == 0 {
        report
    } else {
        report + "\n"@ + flags_text(flags)
    }
}

fn add_footer(report: String, flags: &Vec<Flag>) -> (r: String)
    ensures
        r@ == with_footer(report@, flags_view(flags@)),
{
    let mut text: String = report;
    if flags.len() > 0 {
        text.append("\n");
        text.append(&render_flags(flags));
    }
    text
}

/// The lines of a balance report.
pub open spec fn balance_lines(report: BalanceReportView) -> Seq<Seq<char>> {
    let body = if report.rows.len() == 0 {
        seq!["(no matching accounts)"@]
    } else {
        Seq::new(report.rows.len(), |i: int| report.rows[i].account + "  "@ + amounts_text(report.rows[i].amounts))
    };
    body.push("total  "@ + amounts_text(report.totals))
}

/// A balance report as text: a line for each account, then the total.
pub fn render_balance(report: &BalanceReport) -> (r: String)
    ensures
        r@ == join(balance_lines(report@), "\n"@),
{
    let mut out: Vec<String> = Vec::new();
    let mut i: usize = 0;
    while i < report.rows.len()
        invariant
            i <= report.rows.len(),
            out.len() == i,
            forall|j: int|
                0 <= j < i ==> (#[trigger] out@[j])@ == report@.rows[j].account + "  "@ + amounts_text(
                    report@.rows[j].amounts,
                ),
        decreases report.rows.len() - i,
    {
        out.push(cat3(&report.rows[i].account, "  ", &render_amounts(&report.rows[i].amounts)));
        i += 1;
    }
    if report.rows.len() == 0 {
        out.push("(no matching accounts)".to_owned());
    }
    out.push(cat("total  ", &render_amounts(&report.totals)));
    assert(texts(out@) =~= balance_lines(report@));
    join_texts(&out, "\n")
}

/// The answer to a question for a balance.
pub open spec fn balance_answer(report: BalanceReportView) -> Seq<char> {
    with_footer(join(balance_lines(report), "\n"@), report_overdrafts(report.rows))
}

/// The answer to a question for a balance: the report, and a flag for each overdraft.
pub fn balance_text(report: &BalanceReport) -> (r: String)
    ensures
        r@ == balance_answer(report@),
        r@ == with_footer(join(balance_lines(report@), "\n"@), report_overdrafts(report@.rows)),
{
    add_footer(render_balance(report), &overdraft_flags(report))
}

/// The lines of one transaction: its date and description, and its postings.
pub open spec fn transaction_lines(t: TransactionView) -> Seq<Seq<char>> {
    seq![civil_text(t.date) + " "@ + t.description] + Seq::new(
        t.postings.len(),
        |i: int| "    "@ + t.postings[i].account + "  "@ + amounts_text(t.postings[i].amounts),
    )
}

/// The lines of the transactions.
pub open spec fn transactions_lines(txns: Seq<TransactionView>) -> Seq<Seq<char>>
    decreases txns.len(),
{
    if txns.len() == 0 {
        Seq::empty()
    } else {
        transactions_lines(txns.drop_last()) + transaction_lines(txns.last())
    }
}

/// The answer to a question for transactions.
pub open spec fn transactions_text(txns: Seq<TransactionView>) -> Seq<char> {
    if txns.len() == 0 {
        "(no matching transactions)"@
    } else {
        join(transactions_lines(txns), "\n"@)
    }
}

fn push_transaction(out: &mut Vec<String>, txn: &Transaction)
    ensures
        texts(final(out)@) == texts(old(out)@) + transaction_lines(txn@),
{
    let ghost all = transaction_lines(txn@);
    let ghost before = texts(out@);
    out.push(cat3(&txn.date.to_string(), " ", &txn.description));
    assert(texts(out@) =~= before + all.take(1));
    let mut i: usize = 0;
    while i < txn.postings.len()
        invariant
            i <= txn.postings.len(),
            all == transaction_lines(txn@),
            texts(out@) == before + all.take(i + 1),
        decreases txn.postings.len() - i,
    {
        let ghost so_far = texts(out@);
        let mut line: String = cat3("    ", &txn.postings[i].account, "  ");
        line.append(&render_amounts(&txn.postings[i].amounts));
        out.push(line);
        proof {
            assert(all[i + 1] == line@);
            assert(texts(out@) =~= so_far.push(line@));
            assert(texts(out@) =~= before + all.take(i + 2));
        }
        i += 1;
    }
    assert(all.take(i + 1) =~= all);
}

/// Transactions as text.
pub fn render_transactions(txns: &[Transaction]) -> (r: String)
    ensures
        r@ == transactions_text(transactions_view(txns@)),
{
    if txns.len() == 0 {
        return "(no matching transactions)".to_owned();
    }
    let ghost all = transactions_view(txns@);
    let mut out: Vec<String> = Vec::new();
    let mut i: usize = 0;
    assert(texts(out@) =~= transactions_lines(all.take(0)));
    while i < txns.len()
        invariant
            i <= txns.len(),
            all == transactions_view(txns@),
            texts(out@) == transactions_lines(all.take(i as int)),
        decreases txns.len() - i,
    {
        push_transaction(&mut out, &txns[i]);
        proof {
            assert(all.take(i + 1).drop_last() =~= all.take(i as int));
            assert(all.take(i + 1).last() == txns@[i as int]@);
        }
        i += 1;
    }
    assert(all.take(i as int) =~= all);
    join_texts(&out, "\n")
}

/// What a report says of an account; `0` where it has no line for it.
pub open spec fn outstanding_of(rows: Seq<AccountBalanceView>, account: Seq<char>) -> Seq<char>
    decreases rows.len(),
{
    if rows.len() == 0 {
        "0"@
    } else if rows[0].account == account {
        amounts_text(rows[0].amounts)
    } else {
        outstanding_of(rows.skip(1), account)
    }
}

/// The lines of the declared vendors, each with what is owed to it.
pub open spec fn vendor_lines(accounts: Seq<Seq<char>>, rows: Seq<AccountBalanceView>) -> Seq<Seq<char>>
    decreases accounts.len(),
{
    if accounts.len() == 0 {
        Seq::empty()
    } else {
        let init = vendor_lines(accounts.drop_last(), rows);
        let a = accounts.last();
        if starts_with(a, "liabilities:ap:vendor:"@) {
            init.push(a + "  outstanding "@ + outstanding_of(rows, a))
        } else {
            init
        }
    }
}

/// The list of vendors.
pub open spec fn vendors_answer(accounts: Seq<Seq<char>>, rows: Seq<AccountBalanceView>) -> Seq<char> {
    if vendor_lines(accounts, rows).len() == 0 {
        "(no vendors declared — use vendor_add first)"@
    } else {
        join(vendor_lines(accounts, rows), "\n"@)
    }
}

fn outstanding_text(balance: &BalanceReport, account: &str) -> (r: String)
    ensures
        r@ == outstanding_of(balance@.rows, account@),
{
    let ghost all = balance@.rows;
    let mut i: usize = 0;
    assert(all.skip(0) =~= all);
    while i < balance.rows.len()
        invariant
            i <= balance.rows.len(),
            all == balances_view(balance.rows@),
            outstanding_of(all, account@) == outstanding_of(all.skip(i as int), account@),
        decreases balance.rows.len() - i,
    {
        assert(all.skip(i as int)[0] == balance.rows@[i as int]@);
        if same(&balance.rows[i].account, account) {
            return render_amounts(&balance.rows[i].amounts);
        }
        proof {
            assert(all.skip(i as int).skip(1) =~= all.skip(i + 1));
        }
        i += 1;
    }
    "0".to_owned()
}

/// The declared vendors, each with what is owed to it: `0` where nothing is, since a vendor
/// that is paid up drops out of the report but not out of the list.
pub fn vendors_text(accounts: &[String], balance: &BalanceReport) -> (r: String)
    ensures
        r@ == vendors_answer(texts(accounts@), balance@.rows),
{
    let ghost all = texts(accounts@);
    let ghost rows = balance@.rows;
    let mut out: Vec<String> = Vec::new();
    let mut i: usize = 0;
    assert(texts(out@) =~= vendor_lines(all.take(0), rows));
    while i < accounts.len()
        invariant
            i <= accounts.len(),
            all == texts(accounts@),
            rows == balance@.rows,
            texts(out@) == vendor_lines(all.take(i as int), rows),
        decreases accounts.len() - i,
    {
        let ghost before = texts(out@);
        proof {
            assert(all.take(i + 1).drop_last() =~= all.take(i as int));
            assert(all.take(i + 1).last() == accounts@[i as int]@);
        }
        if has_prefix(&accounts[i], "liabilities:ap:vendor:") {
            let line: String = cat3(&accounts[i], "  outstanding ", &outstanding_text(balance, &accounts[i]));
            out.push(line);
            assert(texts(out@) =~= before.push(line@));
        }
        i += 1;
    }
    assert(all.take(i as int) =~= all);
    assert(texts(out@).len() == out@.len());
    if out.len() == 0 {
        return "(no vendors declared — use vendor_add first)".to_owned();
    }
    join_texts(&out, "\n")
}

/// Those of the accounts that are payables accounts of vendors.
pub open spec fn vendor_accounts(accounts: Seq<Seq<char>>) -> Seq<Seq<char>>
    decreases accounts.len(),
{
    if accounts.len() == 0 {
        Seq::empty()
    } else {
        let init = vendor_accounts(accounts.drop_last());
        if starts_with(accounts.last(), "liabilities:ap:vendor:"@) {
            init.push(accounts.last())
        } else {
            init
        }
    }
}

/// The answer to a question for the vendors: their payables accounts.
pub fn vendor_list_text(accounts: &[String]) -> (r: String)
    ensures
        r@ == if vendor_accounts(texts(accounts@)).len() == 0 {
            "(no vendors declared — use vendor_add first)"@
        } else {
            join(vendor_accounts(texts(accounts@)), "\n"@)
        },
{
    let ghost all = texts(accounts@);
    let mut out: Vec<String> = Vec::new();
    let mut i: usize = 0;
    assert(texts(out@) =~= vendor_accounts(all.take(0)));
    while i < accounts.len()
        invariant
            i <= accounts.len(),
            all == texts(accounts@),
            texts(out@) == vendor_accounts(all.take(i as int)),
        decreases accounts.len() - i,
    {
        let ghost before = texts(out@);
        proof {
            assert(all.take(i + 1).drop_last() =~= all.take(i as int));
            assert(all.take(i + 1).last() == accounts@[i as int]@);
        }
        if has_prefix(&accounts[i], "liabilities:ap:vendor:") {
            out.push(accounts[i].clone());
            assert(texts(out@) =~= before.push(accounts@[i as int]@));
        }
        i += 1;
    }
    assert(all.take(i as int) =~= all);
    assert(texts(out@).len() == out@.len());
    if out.len() == 0 {
        return "(no vendors declared — use vendor_add first)".to_owned();
    }
    join_texts(&out, "\n")
}

/// The answer to a question for the budget.
pub open spec fn budget_answer(report: BudgetReportView) -> Seq<char> {
    with_footer(join(budget_report_lines(report), "\n"@), report_overruns(report.rows))
}

/// The answer to a question for the budget: the report, and a flag for each overrun.
pub fn budget_text(report: &BudgetReport) -> (r: String)
    ensures
        r@ == budget_answer(report@),
{
    add_footer(render_budget(report), &over_budget_flags(report))
}

/// The line of one budget rule.
pub open spec fn rule_line(rule: BudgetRuleView) -> Seq<char> {
    rule.account + "  "@ + period_word(rule.period) + " = "@ + quantity_text(rule.quantity) + " "@ + rule.commodity
}

/// The answer to a question for the budget rules.
pub fn budget_list_text(rules: &[BudgetRule]) -> (r: String)
    ensures
        r@ == if rules@.len() == 0 {
            "(no budget rules set — use budget_set first)"@
        } else {
            join(Seq::new(rules@.len(), |i: int| rule_line(rules@[i]@)), "\n"@)
        },
{
    if rules.len() == 0 {
        return "(no budget rules set — use budget_set first)".to_owned();
    }
    let mut out: Vec<String> = Vec::new();
    let mut i: usize = 0;
    while i < rules.len()
        invariant
            i <= rules.len(),
            out.len() == i,
            forall|j: int| 0 <= j < i ==> (#[trigger] out@[j])@ == rule_line(rules@[j]@),
        decreases rules.len() - i,
    {
        let mut line: String = cat3(&rules[i].account, "  ", rules[i].period.keyword());
        line.append(" = ");
        line.append(&rules[i].quantity.render());
        line.append(" ");
        line.append(&rules[i].commodity);
        out.push(line);
        i += 1;
    }
    assert(texts(out@) =~= Seq::new(rules@.len(), |i: int| rule_line(rules@[i]@)));
    join_texts(&out, "\n")
}

/// The budget rules to list, from what was read of the budget file.
pub fn budget_list(configured: bool, file: &Result<Option<String>, WriteError>) -> (r: Result<
    Vec<BudgetRule>,
    HledgerError,
>)
    ensures
        if !configured {
            r matches Err(e) && e is NoJournal
        } else {
            match *file {
                Err(e) => r matches Err(HledgerError::BudgetFile(m)) && m@ == write_error_text(e),
                Ok(text) => match rules_of(option_view(text)) {
                    Ok(rules) => r matches Ok(found) && rules_view(found@) == rules,
                    Err(line) => r matches Err(HledgerError::BudgetFile(m)) && m@ == "internal error: "@
                        + malformed_message(line),
                },
            }
        },
{
    if !configured {
        return Err(HledgerError::NoJournal);
    }
    match file {
        Err(e) => Err(HledgerError::BudgetFile(e.to_string())),
        Ok(text) => {
            let read: Option<&str> = match text {
                Some(text) => Some(text.as_str()),
                None => None,
            };
            match read_budget_rules(read) {
                Ok(rules) => {
                    assert(text is None ==> rules_view(rules@) =~= Seq::empty());
                    Ok(rules)
                },
                Err(e) => Err(HledgerError::BudgetFile(e.to_string())),
            }
        },
    }
}

/// The day on which the age of the payables is counted: the one that is given, else today.
pub fn aging_day(args: &GetApAgingArgs) -> (r: Date)
    ensures
        args.as_of matches Some(day) ==> r == day,
        exists_in_calendar(r@),
{
    match args.as_of {
        Some(day) => {
            let _ = day.year();
            day
        },
        None => today(),
    }
}

/// The answer to a question for the age of the payables.
pub open spec fn aging_answer(rows: Seq<AccountBalanceView>, txns: Seq<TransactionView>, as_of: Civil) -> Seq<char> {
    let entries = aging_entries(rows, txns, as_of);
    with_footer(aging_text(entries, as_of), overdue(entries))
}

/// The answer to a question for the age of the payables: the report, and a flag for each one
/// that is overdue.
pub fn ap_aging_text(balance: &BalanceReport, txns: &[Transaction], as_of: Date) -> (r: String)
    ensures
        r@ == aging_answer(balance@.rows, transactions_view(txns@), as_of@),
        ({
            let entries = aging_entries(balance@.rows, transactions_view(txns@), as_of@);
            r@ == with_footer(aging_text(entries, as_of@), overdue(entries))
        }),
{
    let entries: Vec<ApAgingEntry> = compute_ap_aging(balance, txns, as_of);
    add_footer(render_ap_aging(&entries, as_of), &ap_aging_flags(&entries))
}

/// The answer to a question for the project.
pub open spec fn summary_answer(sheet: CompositeReportView, income: CompositeReportView) -> Seq<char> {
    join(statement_lines(sheet), "\n"@) + "\n\n"@ + join(statement_lines(income), "\n"@)
}

/// The answer to a question for the project: the balance sheet and the income statement.
pub fn project_summary_text(sheet: &CompositeReport, income: &CompositeReport) -> (r: String)
    ensures
        r@ == summary_answer(sheet@, income@),
        r@ == join(statement_lines(sheet@), "\n"@) + "\n\n"@ + join(statement_lines(income@), "\n"@),
{
    cat3(&render_composite(sheet), "\n\n", &render_composite(income))
}

// ---------------------------------------------------------------------------
// Status
// ---------------------------------------------------------------------------

/// What is said of the hledger that was found.
pub open spec fn version_text(detected: Result<Version, HledgerError>) -> Seq<char> {
    match detected {
        Ok(v) => {
            let number = "hledger: "@ + decimal(v.major as nat) + "."@ + decimal(v.minor as nat);
            if v.major == 1 && v.minor == 52 {
                number + " (pinned) — "@ + debug_text(v.raw@)
            } else {
                number + " (MISMATCH — expected 1.52) — "@ + debug_text(v.raw@)
            }
        },
        Err(err) => "hledger: unavailable ("@ + hledger_error_text(err) + ")"@,
    }
}

/// The line on the hledger that was found.
pub fn version_line(detected: &Result<Version, HledgerError>) -> (r: String)
    ensures
        r@ == version_text(*detected),
{
    match detected {
        Ok(v) => {
            let mut out: String = "hledger: ".to_owned();
            out.append(&decimal_text(v.major as u128));
            out.append(".");
            out.append(&decimal_text(v.minor as u128));
            if v.pin_matches() {
                out.append(" (pinned) — ");
            } else {
                out.append(" (MISMATCH — expected 1.52) — ");
            }
            out.append(&quoted(&v.raw));
            out
        },
        Err(err) => cat3("hledger: unavailable (", &err.to_string(), ")"),
    }
}

/// What is said of the head and of what the connection last saw.
pub open spec fn epoch_text(head: Option<Seq<char>>, seen: Option<Option<Seq<char>>>) -> Seq<char> {
    "epoch: "@ + epoch_short(head) + " — "@ + match seen {
        Some(e) => if e == head {
            "last-seen "@ + epoch_short(e) + " (fresh)"@
        } else {
            "last-seen "@ + epoch_short(e) + " (STALE — re-read)"@
        },
        None => "no read yet this connection"@,
    }
}

/// The line on the head and on what the connection last saw.
pub fn epoch_line(head: &Epoch, seen: Option<&Epoch>) -> (r: String)
    ensures
        r@ == epoch_text(
            head@,
            match seen {
                Some(e) => Some(e@),
                None => None,
            },
        ),
{
    let connection: String = match seen {
        Some(e) => if e.is(head) {
            cat3("last-seen ", &e.short(), " (fresh)")
        } else {
            cat3("last-seen ", &e.short(), " (STALE — re-read)")
        },
        None => "no read yet this connection".to_owned(),
    };
    let mut out: String = cat3("epoch: ", &head.short(), " — ");
    out.append(&connection);
    out
}

/// The fresh view is the one for which a deciding call passes.
pub proof fn law_status_agrees_with_the_check(head: Option<Seq<char>>, seen: Option<Option<Seq<char>>>)
    ensures
        passes(ToolClass::Decide, seen, head) ==> epoch_text(head, seen) == "epoch: "@ + epoch_short(head) + " — "@ + (
        "last-seen "@ + epoch_short(head) + " (fresh)"@),
{
}

/// The server: which hledger and which journal it works on, what it lists, what its
/// connection has seen, and why writes are blocked, if they are.
#[derive(Debug)]
pub struct HledgerMcp {
    pub bin: String,
    pub journal: Option<String>,
    pub profile: Profile,
    pub view: ConnectionView,
    pub write_block: Option<String>,
}

/// Whether writes are possible, in words.
pub open spec fn writes_text(
    detected: Result<Version, HledgerError>,
    blocked: Option<Seq<char>>,
    configured: bool,
) -> Seq<char> {
    match detected {
        Err(_) => "writes: blocked (hledger unavailable)"@,
        Ok(v) => if !(v.major == 1 && v.minor == 52) {
            "writes: BLOCKED (hledger not pinned 1.52)"@
        } else {
            match blocked {
                Some(reason) => "writes: BLOCKED ("@ + reason + "; a write attempt retries the reconcile)"@,
                None => if configured {
                    "writes: enabled"@
                } else {
                    "writes: blocked (no journal configured)"@
                },
            }
        },
    }
}

/// The lines on the hledger, the journal and the repository that the server works on.
pub open spec fn backend_text(
    server: HledgerMcp,
    detected: Result<Version, HledgerError>,
    exists_already: bool,
    sample: RepoSample,
    head: Option<Epoch>,
) -> Seq<char> {
    let journal = match server.journal {
        Some(path) => "journal: "@ + path@,
        None => "journal: (none configured — set --journal or LEDGER_FILE)"@,
    };
    let git = if server.journal is Some {
        git_line(exists_already, sample)
    } else {
        "git: (no journal configured)"@
    };
    let epoch = match head {
        Some(e) => epoch_text(e@, server.view@),
        None => "epoch: (no journal configured)"@,
    };
    version_text(detected) + "\n"@ + ("binary: "@ + server.bin@) + "\n"@ + journal + "\n"@ + git + "\n"@ + epoch + "\n"@
        + writes_text(detected, option_view(server.write_block), server.journal is Some)
}

impl HledgerMcp {
    /// A server over this hledger and this journal: with the full profile, before any read,
    /// with nothing blocked.
    pub fn new(bin: String, journal: Option<String>) -> (r: HledgerMcp)
        ensures
            r.bin == bin,
            r.journal == journal,
            r.profile == Profile::Full,
            r.view@ is None,
            r.write_block is None,
    {
        HledgerMcp { bin, journal, profile: Profile::Full, view: ConnectionView::new(), write_block: None }
    }

    /// The server with another profile.
    pub fn with_profile(self, profile: Profile) -> (r: HledgerMcp)
        ensures
            r == (HledgerMcp { profile, ..self }),
    {
        HledgerMcp { profile, ..self }
    }

    /// The server with its writes blocked for that reason, if any.
    pub fn with_write_block(self, reason: Option<String>) -> (r: HledgerMcp)
        ensures
            r == (HledgerMcp { write_block: reason, ..self }),
    {
        HledgerMcp { write_block: reason, ..self }
    }

    /// Whether writes are possible, in words.
    fn writes_line(&self, detected: &Result<Version, HledgerError>) -> (r: String)
        ensures
            r@ == writes_text(*detected, option_view(self.write_block), self.journal is Some),
    {
        match detected {
            Err(_) => "writes: blocked (hledger unavailable)".to_owned(),
            Ok(v) => if !v.pin_matches() {
                "writes: BLOCKED (hledger not pinned 1.52)".to_owned()
            } else {
                match &self.write_block {
                    Some(reason) => cat3(
                        "writes: BLOCKED (",
                        reason,
                        "; a write attempt retries the reconcile)",
                    ),
                    None => if self.journal.is_some() {
                        "writes: enabled".to_owned()
                    } else {
                        "writes: blocked (no journal configured)".to_owned()
                    },
                }
            },
        }
    }

    /// The lines on what the server works on: the hledger that was found, the journal, its
    /// repository and head, and whether writes are possible.
    pub fn backend_block(
        &self,
        detected: &Result<Version, HledgerError>,
        exists_already: bool,
        sample: &RepoSample,
        head: &Option<Epoch>,
    ) -> (r: String)
        ensures
            r@ == backend_text(*self, *detected, exists_already, *sample, *head),
    {
        let mut out: String = version_line(detected);
        out.append("\n");
        out.append(&cat("binary: ", &self.bin));
        out.append("\n");
        let journal: String = match &self.journal {
            Some(path) => cat("journal: ", path),
            None => "journal: (none configured — set --journal or LEDGER_FILE)".to_owned(),
        };
        out.append(&journal);
        out.append("\n");
        let git: String = if self.journal.is_some() {
            git_status_line(exists_already, sample)
        } else {
            "git: (no journal configured)".to_owned()
        };
        out.append(&git);
        out.append("\n");
        let epoch: String = match head {
            Some(e) => epoch_line(e, self.view.last_seen()),
            None => "epoch: (no journal configured)".to_owned(),
        };
        out.append(&epoch);
        out.append("\n");
        out.append(&self.writes_line(detected));
        out
    }

    /// The answer to a question for the status.
    pub fn status_text(&self, version: &str, negotiated: &str, backend: &str, uptime: u64) -> (r: String)
        ensures
            r@ == "hledger-mcp "@ + version@ + "\nprotocol: "@ + negotiated@ + "\nprofile: "@ + profile_name(
                self.profile,
            ) + "\n"@ + backend@ + "\nuptime: "@ + decimal(uptime as nat) + "s"@,
    {
        let mut out: String = cat3("hledger-mcp ", version, "\nprotocol: ");
        out.append(negotiated);
        out.append("\nprofile: ");
        out.append(self.profile.name());
        out.append("\n");
        out.append(backend);
        out.append("\nuptime: ");
        out.append(&decimal_text(uptime as u128));
        out.append("s");
        out
    }
}

// ---------------------------------------------------------------------------
// Listings
// ---------------------------------------------------------------------------

/// An advertised tool: its name, and its description where it has one.
#[derive(Debug, PartialEq, Eq)]
pub struct Tool {
    pub name: String,
    pub description: Option<String>,
}

/// What a [`Tool`] holds.
pub open spec fn tool_view(t: Tool) -> (Seq<char>, Option<Seq<char>>) {
    (t.name@, option_view(t.description))
}

/// What is advertised of a tool: a tool of the second tier with its one line.
pub open spec fn advertisement(t: (Seq<char>, Option<Seq<char>>)) -> (Seq<char>, Option<Seq<char>>) {
    match find_tool(catalog(), t.0) {
        Some(found) => if found.tier == Tier::Administrative {
            (t.0, Some(found.summary))
        } else {
            t
        },
        None => t,
    }
}

/// What is advertised of the tools under a profile, in order.
pub open spec fn advertisements(profile: Profile, all: Seq<(Seq<char>, Option<Seq<char>>)>) -> Seq<
    (Seq<char>, Option<Seq<char>>),
>
    decreases all.len(),
{
    if all.len() == 0 {
        Seq::empty()
    } else {
        let init = advertisements(profile, all.drop_last());
        if lists(profile, all.last().0) {
            init.push(advertisement(all.last()))
        } else {
            init
        }
    }
}

/// What a list of tools holds.
pub open spec fn tool_list_view(v: Seq<Tool>) -> Seq<(Seq<char>, Option<Seq<char>>)> {
    Seq::new(v.len(), |i: int| tool_view(v[i]))
}

fn advertise(t: &Tool) -> (r: Tool)
    ensures
        tool_view(r) == advertisement(tool_view(*t)),
{
    let description: Option<String> = match meta(&t.name) {
        Some(found) => if found.tier == Tier::Administrative {
            Some(found.summary.to_owned())
        } else {
            copy_option(&t.description)
        },
        None => copy_option(&t.description),
    };
    Tool { name: t.name.clone(), description }
}

fn copy_option(s: &Option<String>) -> (r: Option<String>)
    ensures
        option_view(r) == option_view(*s),
{
    match s {
        Some(s) => Some(s.clone()),
        None => None,
    }
}

/// What is advertised of the tools under a profile. Calls are not affected.
pub fn advertised_tools(profile: Profile, tools: &Vec<Tool>) -> (r: Vec<Tool>)
    ensures
        tool_list_view(r@) == advertisements(profile, tool_list_view(tools@)),
{
    let ghost all = tool_list_view(tools@);
    let mut out: Vec<Tool> = Vec::new();
    let mut i: usize = 0;
    assert(tool_list_view(out@) =~= advertisements(profile, all.take(0)));
    while i < tools.len()
        invariant
            i <= tools.len(),
            all == tool_list_view(tools@),
            tool_list_view(out@) == advertisements(profile, all.take(i as int)),
        decreases tools.len() - i,
    {
        let ghost before = tool_list_view(out@);
        proof {
            assert(all.take(i + 1).drop_last() =~= all.take(i as int));
            assert(all.take(i + 1).last() == tool_view(tools@[i as int]));
        }
        if advertised(profile, &tools[i].name) {
            let t: Tool = advertise(&tools[i]);
            let ghost added = tool_view(t);
            out.push(t);
            assert(tool_list_view(out@) =~= before.push(added));
        }
        i += 1;
    }
    assert(all.take(i as int) =~= all);
    out
}

/// A listed resource.
#[derive(Debug, Clone, Copy, PartialEq, Eq)]
pub struct ListedResource {
    pub uri: &'static str,
    pub name: &'static str,
    pub title: &'static str,
    pub description: &'static str,
}

/// What a [`ListedResource`] holds.
pub open spec fn listed_view(r: ListedResource) -> (Seq<char>, Seq<char>, Seq<char>, Seq<char>) {
    (r.uri@, r.name@, r.title@, r.description@)
}

/// The resources of the server: the guides, then the list of vendors. Listing them does not
/// touch the ledger.
pub fn resource_listing() -> (r: Vec<ListedResource>)
    ensures
        r@.len() == statics().len() + 1,
        forall|i: int|
            0 <= i < statics().len() ==> listed_view(#[trigger] r@[i]) == (
                statics()[i].uri,
                statics()[i].name,
                statics()[i].title,
                statics()[i].description,
            ),
        listed_view(r@.last()) == (
            "ledger://vendors"@,
            "vendors"@,
            "Vendors (live)"@,
            "Declared vendor AP accounts with outstanding balances — dynamic: reads the ledger when fetched."@,
        ),
{
    let all: Vec<StaticResource> = static_resources();
    let mut out: Vec<ListedResource> = Vec::new();
    let mut i: usize = 0;
    while i < all.len()
        invariant
            i <= all.len(),
            resources_view(all@) == statics(),
            out.len() == i,
            forall|j: int|
                0 <= j < i ==> listed_view(#[trigger] out@[j]) == (
                    statics()[j].uri,
                    statics()[j].name,
                    statics()[j].title,
                    statics()[j].description,
                ),
        decreases all.len() - i,
    {
        let s: StaticResource = all[i];
        assert(resources_view(all@)[i as int] == s@);
        out.push(ListedResource { uri: s.uri, name: s.name, title: s.title, description: s.description });
        i += 1;
    }
    assert(resources_view(all@).len() == all@.len());
    out.push(
        ListedResource {
            uri: "ledger://vendors",
            name: "vendors",
            title: "Vendors (live)",
            description: "Declared vendor AP accounts with outstanding balances — dynamic: reads the ledger when fetched.",
        },
    );
    out
}

// ---------------------------------------------------------------------------
// Requests
// ---------------------------------------------------------------------------

/// Begins `fund_project`.
pub fn fund_project(ctx: &WriteContext, args: FundProjectArgs) -> (r: Step<PostState, WriteOutcome>)
    ensures
        exists|input: TransactionInput| #[trigger]
            post_begins(input, r) && input@ == (TransactionInputView {
                date: args.date@,
                description: "Fund project"@,
                postings: seq![
                    amount_posting("assets:checking"@, args.money.amount@, args.money.commodity@),
                    balancing_posting("equity:owner capital"@),
                ],
                tags: Seq::empty(),
                idem: option_view(args.money.idem),
            }),
        exists|input: TransactionInput| #[trigger]
            post_begins(input, r) && input@ == funding(
                args.date@,
                (args.money.amount@, args.money.commodity@),
                option_view(args.money.idem),
            ),
{
    let input: TransactionInput = fund_project_input(
        args.date,
        args.money.amount,
        args.money.commodity,
        args.money.idem,
    );
    post_transaction(ctx, input)
}

/// Begins `receive_invoice`.
pub fn receive_invoice(ctx: &WriteContext, args: ReceiveInvoiceArgs) -> (r: Step<PostState, WriteOutcome>)
    ensures
        exists|input: TransactionInput| #[trigger]
            post_begins(input, r) && input@ == (TransactionInputView {
                date: args.date@,
                description: args.vendor@ + " invoice"@,
                postings: seq![
                    amount_posting(args.expense_account@, args.money.amount@, args.money.commodity@),
                    balancing_posting("liabilities:ap:vendor:"@ + args.vendor@),
                ],
                tags: seq![("invoice"@, args.invoice_ref@), ("vendor"@, args.vendor@)],
                idem: option_view(args.money.idem),
            }),
        exists|input: TransactionInput| #[trigger]
            post_begins(input, r) && input@ == invoice(
                args.date@,
                args.vendor@,
                args.expense_account@,
                (args.money.amount@, args.money.commodity@),
                args.invoice_ref@,
                option_view(args.money.idem),
            ),
{
    let input: TransactionInput = receive_invoice_input(
        args.date,
        &args.vendor,
        args.expense_account,
        args.money.amount,
        args.money.commodity,
        args.invoice_ref,
        args.money.idem,
    );
    post_transaction(ctx, input)
}

/// Begins `post_interest`.
pub fn post_interest(ctx: &WriteContext, args: PostInterestArgs) -> (r: Step<PostState, WriteOutcome>)
    ensures
        exists|input: TransactionInput| #[trigger]
            post_begins(input, r) && input@ == (TransactionInputView {
                date: args.date@,
                description: "Interest earned"@,
                postings: seq![
                    amount_posting("assets:checking"@, args.money.amount@, args.money.commodity@),
                    balancing_posting("income:interest"@),
                ],
                tags: Seq::empty(),
                idem: option_view(args.money.idem),
            }),
        exists|input: TransactionInput| #[trigger]
            post_begins(input, r) && input@ == interest(
                args.date@,
                (args.money.amount@, args.money.commodity@),
                option_view(args.money.idem),
            ),
{
    let input: TransactionInput = post_interest_input(
        args.date,
        args.money.amount,
        args.money.commodity,
        args.money.idem,
    );
    post_transaction(ctx, input)
}

/// Begins `vendor_add`: the vendor's payables account and its expense account are declared.
pub fn vendor_add(ctx: &WriteContext, args: &VendorAddArgs) -> (r: Step<Recording, CommitOutcome>)
    ensures
        if args.vendor_type == VendorType::Trade && args.trade is None {
            ends_input(r, "`trade` is required when vendor_type is \"trade\""@)
        } else {
            let a = trim("liabilities:ap:vendor:"@ + args.vendor@);
            let x = trim(
                if args.vendor_type == VendorType::Trade {
                    "expenses:construction:"@ + args.trade->0@
                } else {
                    "expenses:professional - "@ + args.vendor@
                },
            );
            if !is_account_name(a) {
                ends_input(r, "invalid account name: '"@ + a + "'"@)
            } else if !is_account_name(x) {
                ends_input(r, "invalid account name: '"@ + x + "'"@)
            } else {
                recording_begins(
                    args.vendor@,
                    "account "@ + a + "\n"@ + ("account "@ + x + "\n"@),
                    "add vendor "@ + args.vendor@,
                    r,
                )
            }
        },
{
    let trade: Option<&str> = match &args.trade {
        Some(trade) => Some(trade.as_str()),
        None => None,
    };
    match vendor_expense_account(args.vendor_type, &args.vendor, trade) {
        Ok(expense) => crate::write::plan::vendor_add(
            ctx,
            &args.vendor,
            &vendor_ap_account(&args.vendor),
            &expense,
        ),
        Err(m) => Step::Done(Err(WriteError::Input(m))),
    }
}

/// Begins `budget_set`.
pub fn budget_set(ctx: &WriteContext, args: &BudgetSetArgs) -> (r: Step<BudgetState, CommitOutcome>)
    ensures
        match quantity_of(args.amount@) {
            None => ends_input(r, "invalid amount '"@ + args.amount@ + "'"@),
            Some(quantity) => r matches Step::Run(BudgetState::Accounts { rule }, Action::DeclaredAccounts) && rule@ == (
            BudgetRuleView {
                account: args.account@,
                period: args.period,
                quantity,
                commodity: args.commodity@,
            }),
        },
{
    match Quantity::parse(&args.amount) {
        None => Step::Done(Err(WriteError::Input(cat3("invalid amount '", &args.amount, "'")))),
        Some(quantity) => set_budget(ctx, &args.account, args.period, quantity, &args.commodity),
    }
}

/// Begins `declare_commodity`: with two decimal places unless another number is given.
pub fn declare_commodity(ctx: &WriteContext, args: &DeclareCommodityArgs) -> (r: (u8, Step<Recording, CommitOutcome>))
    ensures
        r.0 == match args.decimal_places {
            Some(places) => places,
            None => 2,
        },
        ({
            let t = trim(args.commodity@);
            if is_commodity_symbol(t) {
                recording_begins(t, commodity_text(t, r.0 as nat), "declare commodity"@, r.1)
            } else {
                ends_input(r.1, "invalid commodity symbol: '"@ + t + "'"@)
            }
        }),
{
    let places: u8 = match args.decimal_places {
        Some(places) => places,
        None => 2,
    };
    (places, crate::write::plan::declare_commodity(ctx, &args.commodity, places as u32))
}

// ---------------------------------------------------------------------------
// What the answers say
// ---------------------------------------------------------------------------

/// A balance report has a line for each account, in their order, with its amounts, or says that
/// no account matches; the last line is the total of the report, whatever the rows are.
pub proof fn law_balance_report_shows_every_account(report: BalanceReportView, i: int)
    ensures
        ({
            let lines = balance_lines(report);
            &&& lines.len() == if report.rows.len() == 0 {
                2int
            } else {
                report.rows.len() as int + 1
            }
            &&& report.rows.len() == 0 ==> lines[0] == "(no matching accounts)"@
            &&& 0 <= i < report.rows.len() ==> lines[i] == report.rows[i].account + "  "@ + amounts_text(
                report.rows[i].amounts,
            )
            &&& lines.last() == "total  "@ + amounts_text(report.totals)
        }),
{
}

/// Transactions are shown one behind the other: the lines of two lists are those of the one and
/// then those of the other. A transaction is its date and its description on one line, and a
/// line for each of its postings, in their order, with the account and its amounts.
pub proof fn law_every_transaction_is_shown(
    a: Seq<TransactionView>,
    b: Seq<TransactionView>,
    t: TransactionView,
    i: int,
)
    ensures
        transactions_lines(a + b) == transactions_lines(a) + transactions_lines(b),
        transactions_lines(Seq::empty()).len() == 0,
        ({
            let lines = transactions_lines(seq![t]);
            &&& lines.len() == t.postings.len() + 1
            &&& lines[0] == civil_text(t.date) + " "@ + t.description
            &&& 0 <= i < t.postings.len() ==> lines[i + 1] == "    "@ + t.postings[i].account + "  "@ + amounts_text(
                t.postings[i].amounts,
            )
        }),
        transactions_text(Seq::empty()) == "(no matching transactions)"@,
        a.len() > 0 ==> transactions_text(a) == join(transactions_lines(a), "\n"@),
    decreases b.len(),
{
    if b.len() == 0 {
        assert(a + b =~= a);
        assert(transactions_lines(a) + transactions_lines(b) =~= transactions_lines(a));
    } else {
        law_every_transaction_is_shown(a, b.drop_last(), t, i);
        assert((a + b).drop_last() =~= a + b.drop_last());
        assert(transactions_lines(a + b) =~= transactions_lines(a) + transactions_lines(b));
    }
    let one = seq![t];
    assert(one.drop_last() =~= Seq::<TransactionView>::empty());
    assert(transactions_lines(one.drop_last()) =~= Seq::<Seq<char>>::empty());
    assert(one.last() == t);
    assert(transactions_lines(one) =~= transaction_lines(t));
}

/// What is outstanding on an account is what the first row of the report for it says, and zero
/// where there is none.
pub proof fn law_outstanding_is_that_of_the_account(rows: Seq<AccountBalanceView>, account: Seq<char>, k: int)
    ensures
        0 <= k < rows.len() && rows[k].account == account && (forall|m: int|
            0 <= m < k ==> (#[trigger] rows[m]).account != account) ==> outstanding_of(rows, account) == amounts_text(
            rows[k].amounts,
        ),
        (forall|m: int| 0 <= m < rows.len() ==> (#[trigger] rows[m]).account != account) ==> outstanding_of(
            rows,
            account,
        ) == "0"@,
    decreases rows.len(),
{
    if rows.len() > 0 && rows[0].account != account {
        let rest = rows.skip(1);
        law_outstanding_is_that_of_the_account(rest, account, k - 1);
        assert(forall|m: int| 0 <= m < rest.len() ==> #[trigger] rest[m] == rows[m + 1]);
        if 0 <= k < rows.len() && rows[k].account == account && (forall|m: int|
            0 <= m < k ==> (#[trigger] rows[m]).account != account) {
            assert(k > 0);
            assert(rest[k - 1] == rows[k]);
            assert forall|m: int| 0 <= m < k - 1 implies (#[trigger] rest[m]).account != account by {
                assert(rows[m + 1].account != account);
            }
        }
        if forall|m: int| 0 <= m < rows.len() ==> (#[trigger] rows[m]).account != account {
            assert forall|m: int| 0 <= m < rest.len() implies (#[trigger] rest[m]).account != account by {
                assert(rows[m + 1].account != account);
            }
        }
    }
}

/// The vendors are the accounts below the payables of vendors, in their order, each with what is
/// outstanding on it: the lines of two lists are those of the one and then those of the other,
/// and an account that is no vendor's has none. So with the bare list of accounts.
pub proof fn law_every_vendor_is_listed(
    a: Seq<Seq<char>>,
    b: Seq<Seq<char>>,
    account: Seq<char>,
    rows: Seq<AccountBalanceView>,
)
    ensures
        vendor_lines(a + b, rows) == vendor_lines(a, rows) + vendor_lines(b, rows),
        vendor_accounts(a + b) == vendor_accounts(a) + vendor_accounts(b),
        vendor_lines(Seq::empty(), rows).len() == 0,
        vendor_accounts(Seq::empty()).len() == 0,
        ({
            let listed = account.len() >= 22 && account.take(22) == "liabilities:ap:vendor:"@;
            &&& vendor_lines(seq![account], rows) == if listed {
                seq![account + "  outstanding "@ + outstanding_of(rows, account)]
            } else {
                Seq::empty()
            }
            &&& vendor_accounts(seq![account]) == if listed {
                seq![account]
            } else {
                Seq::empty()
            }
        }),
        vendors_answer(a, rows) == if vendor_lines(a, rows).len() == 0 {
            "(no vendors declared — use vendor_add first)"@
        } else {
            join(vendor_lines(a, rows), "\n"@)
        },
    decreases b.len(),
{
    if b.len() == 0 {
        assert(a + b =~= a);
        assert(vendor_lines(a, rows) + vendor_lines(b, rows) =~= vendor_lines(a, rows));
        assert(vendor_accounts(a) + vendor_accounts(b) =~= vendor_accounts(a));
    } else {
        law_every_vendor_is_listed(a, b.drop_last(), account, rows);
        assert((a + b).drop_last() =~= a + b.drop_last());
        assert(vendor_lines(a + b, rows) =~= vendor_lines(a, rows) + vendor_lines(b, rows));
        assert(vendor_accounts(a + b) =~= vendor_accounts(a) + vendor_accounts(b));
    }
    let one = seq![account];
    assert(one.drop_last() =~= Seq::<Seq<char>>::empty());
    assert(vendor_lines(one.drop_last(), rows) =~= Seq::<Seq<char>>::empty());
    assert(vendor_accounts(one.drop_last()) =~= Seq::<Seq<char>>::empty());
    assert(one.last() == account);
    reveal_strlit("liabilities:ap:vendor:");
    assert(vendor_lines(one, rows) =~= if account.len() >= 22 && account.take(22) == "liabilities:ap:vendor:"@ {
        seq![account + "  outstanding "@ + outstanding_of(rows, account)]
    } else {
        Seq::empty()
    });
    assert(vendor_accounts(one) =~= if account.len() >= 22 && account.take(22) == "liabilities:ap:vendor:"@ {
        seq![account]
    } else {
        Seq::empty()
    });
}

/// A report is shown whole, and all of its flags below it: nothing is put behind a report
/// without flags.
pub proof fn law_flags_stand_below_the_report(report: Seq<char>, flags: Seq<FlagView>, budget: BudgetReportView)
    ensures
        with_footer(report, flags).take(report.len() as int) == report,
        flags.len() == 0 ==> with_footer(report, flags) == report,
        flags.len() > 0 ==> with_footer(report, flags) == report + "\n"@ + flags_text(flags),
        budget_answer(budget) == if report_overruns(budget.rows).len() == 0 {
            join(budget_report_lines(budget), "\n"@)
        } else {
            join(budget_report_lines(budget), "\n"@) + "\n"@ + flags_text(report_overruns(budget.rows))
        },
{
    assert(with_footer(report, flags).take(report.len() as int) =~= report);
}

/// The status says that writes are enabled exactly where hledger is the version that writes are
/// made for, nothing blocks them, and a journal is configured.
pub proof fn law_status_says_when_writes_are_enabled(
    detected: Result<Version, HledgerError>,
    blocked: Option<Seq<char>>,
    configured: bool,
)
    ensures
        (writes_text(detected, blocked, configured) == "writes: enabled"@) <==> (detected matches Ok(v) && v.major == 1
            && v.minor == 52 && blocked is None && configured),
        detected matches Ok(v) && v.major == 1 && v.minor == 52 && blocked is Some ==> writes_text(
            detected,
            blocked,
            configured,
        ) == "writes: BLOCKED ("@ + blocked->0 + "; a write attempt retries the reconcile)"@,
{
    reveal_strlit("writes: enabled");
    reveal_strlit("writes: blocked (hledger unavailable)");
    reveal_strlit("writes: BLOCKED (hledger not pinned 1.52)");
    reveal_strlit("writes: BLOCKED (");
    reveal_strlit("writes: blocked (no journal configured)");
    assert("writes: enabled"@[8] == 'e');
    assert("writes: blocked (hledger unavailable)"@[8] == 'b');
    assert("writes: BLOCKED (hledger not pinned 1.52)"@[8] == 'B');
    assert("writes: BLOCKED ("@[8] == 'B');
    assert("writes: blocked (no journal configured)"@[8] == 'b');
    if blocked is Some {
        let t = "writes: BLOCKED ("@ + blocked->0 + "; a write attempt retries the reconcile)"@;
        assert(t[8] == 'B');
    }
}

/// The tools that are advertised under a profile are those that it lists, in their order: what is
/// advertised of two lists is that of the one and then that of the other. A tool of the second
/// tier is advertised with its line from the catalog, any other as it is.
pub proof fn law_listed_tools_are_advertised(
    profile: Profile,
    a: Seq<(Seq<char>, Option<Seq<char>>)>,
    b: Seq<(Seq<char>, Option<Seq<char>>)>,
    t: (Seq<char>, Option<Seq<char>>),
)
    ensures
        advertisements(profile, a + b) == advertisements(profile, a) + advertisements(profile, b),
        advertisements(profile, Seq::empty()).len() == 0,
        ({
            let found = advertisements(profile, seq![t]);
            &&& found.len() == if lists(profile, t.0) {
                1int
            } else {
                0
            }
            &&& found.len() == 1 ==> found[0].0 == t.0 && found[0].1 == match find_tool(catalog(), t.0) {
                Some(known) => if known.tier == Tier::Administrative {
                    Some(known.summary)
                } else {
                    t.1
                },
                None => t.1,
            }
        }),
    decreases b.len(),
{
    if b.len() == 0 {
        assert(a + b =~= a);
        assert(advertisements(profile, a) + advertisements(profile, b) =~= advertisements(profile, a));
    } else {
        law_listed_tools_are_advertised(profile, a, b.drop_last(), t);
        assert((a + b).drop_last() =~= a + b.drop_last());
        assert(advertisements(profile, a + b) =~= advertisements(profile, a) + advertisements(profile, b));
    }
    let one = seq![t];
    assert(one.drop_last() =~= Seq::<(Seq<char>, Option<Seq<char>>)>::empty());
    assert(advertisements(profile, one.drop_last()).len() == 0);
    assert(one.last() == t);
}

/// The status says that the repository is dirty exactly where the journal is known to be
/// uncommitted, that the view is fresh exactly where the connection has seen the head, and that
/// hledger is pinned exactly where it is the version that writes are made for.
pub proof fn law_status_tells_the_state(
    dirty: Option<bool>,
    oid: CommitOid,
    head: Option<Seq<char>>,
    seen: Option<Seq<char>>,
    v: Version,
)
    ensures
        git_line(true, RepoSample::Repo { dirty, head: Ok(Some(oid)) }) == "git: "@ + first_twelve(oid@) + " ("@ + (
        if dirty == Some(true) {
            "dirty"@
        } else {
            "clean"@
        }) + ")"@,
        git_line(true, RepoSample::Repo { dirty, head: Ok(None) }) == "git: (no commits yet, "@ + (if dirty == Some(
            true,
        ) {
            "dirty"@
        } else {
            "clean"@
        }) + ")"@,
        git_line(true, RepoSample::NoRepo) == "git: (journal directory is not a git repo)"@,
        git_line(false, RepoSample::NoRepo) == "git: (no journal yet — first write bootstraps it)"@,
        epoch_text(head, Some(seen)) == "epoch: "@ + epoch_short(head) + " — "@ + ("last-seen "@ + epoch_short(seen) + (
        if seen == head {
            " (fresh)"@
        } else {
            " (STALE — re-read)"@
        })),
        epoch_text(head, None) == "epoch: "@ + epoch_short(head) + " — "@ + "no read yet this connection"@,
        version_text(Ok(v)) == "hledger: "@ + decimal(v.major as nat) + "."@ + decimal(v.minor as nat) + (if v.major == 1
            && v.minor == 52 {
            " (pinned) — "@
        } else {
            " (MISMATCH — expected 1.52) — "@
        }) + debug_text(v.raw@),
{
}

/// The summary of the project is the balance sheet, an empty line, and the income statement, each
/// whole and in this order, so that it begins with the title of the one and ends with the net
/// total of the other.
pub proof fn law_summary_is_both_statements(sheet: CompositeReportView, income: CompositeReportView)
    ensures
        ({
            let text = summary_answer(sheet, income);
            let a = join(statement_lines(sheet), "\n"@);
            let b = join(statement_lines(income), "\n"@);
            let net = "Net: "@ + amounts_text(income.totals);
            &&& text.len() == a.len() + 2 + b.len()
            &&& text.take(a.len() as int) == a
            &&& text[a.len() as int] == '\n' && text[a.len() as int + 1] == '\n'
            &&& text.skip(a.len() as int + 2) == b
            &&& text.take(sheet.title.len() as int) == sheet.title
            &&& text.skip(text.len() - net.len()) == net
        }),
{
    let text = summary_answer(sheet, income);
    let a = join(statement_lines(sheet), "\n"@);
    let b = join(statement_lines(income), "\n"@);
    let net = "Net: "@ + amounts_text(income.totals);
    reveal_strlit("\n\n");
    law_statement_ends_with_its_net_total(sheet);
    law_statement_ends_with_its_net_total(income);
    assert(text.take(a.len() as int) =~= a);
    assert(text.skip(a.len() as int + 2) =~= b);
    assert(text.take(sheet.title.len() as int) =~= a.take(sheet.title.len() as int));
    assert(text.skip(text.len() - net.len()) =~= b.skip(b.len() - net.len()));
}

/// A balance is answered with the report, and with a flag for each amount below zero on an account
/// below assets; payables with the report on their age, and with a flag for each that is overdue.
/// The flags are those of the report, and there is nothing else.
pub proof fn law_answers_are_the_report_and_its_flags(
    report: BalanceReportView,
    rows: Seq<AccountBalanceView>,
    txns: Seq<TransactionView>,
    as_of: Civil,
)
    ensures
        ({
            let text = join(balance_lines(report), "\n"@);
            let flags = report_overdrafts(report.rows);
            balance_answer(report) == if flags.len() == 0 {
                text
            } else {
                text + "\n"@ + flags_text(flags)
            }
        }),
        ({
            let entries = aging_entries(rows, txns, as_of);
            let flags = overdue(entries);
            aging_answer(rows, txns, as_of) == if flags.len() == 0 {
                aging_text(entries, as_of)
            } else {
                aging_text(entries, as_of) + "\n"@ + flags_text(flags)
            }
        }),
{
}

/// An answer tells what was done: a transaction that was posted is told from one that was there
/// already, each with its identifier and the commit; and an approval with the budget behind it
/// where that could be read.
pub proof fn law_outcomes_are_told(id: Seq<char>, commit: Seq<char>, order: ApprovedOrder)
    ensures
        post_outcome(id, commit, false) == "posted transaction id:"@ + id + " (commit "@ + first_twelve(commit) + ")"@,
        post_outcome(id, commit, true) == "already posted (idempotent): transaction id:"@ + id
            + " — no new commit (HEAD "@ + first_twelve(commit) + ")"@,
        ({
            let line = "ECO "@ + order.eco@ + " approved, id:"@ + order.outcome.base.id@ + " (commit "@ + first_twelve(
                order.outcome.base.commit@,
            ) + ")"@;
            eco_approval_text(order) == match order.budget {
                Some(report) => line + "\n"@ + budget_answer(report@),
                None => line,
            }
        }),
{
}

/// A rule is listed as its account, its period, its amount and its commodity.
pub proof fn law_rules_are_listed_whole(rule: BudgetRuleView)
    ensures
        rule_line(rule) == rule.account + "  "@ + (match rule.period {
            BudgetPeriod::Daily => "daily"@,
            BudgetPeriod::Weekly => "weekly"@,
            BudgetPeriod::Monthly => "monthly"@,
            BudgetPeriod::Quarterly => "quarterly"@,
            BudgetPeriod::Yearly => "yearly"@,
        }) + " = "@ + quantity_text(rule.quantity) + " "@ + rule.commodity,
{
}

} // verus!
