//! The write operations, step by step.

use hledger_mcp::date::Date;
use hledger_mcp::epoch::{CommitOid, Epoch, ToolClass};
use hledger_mcp::hledger::amount::{Amount, Quantity};
use hledger_mcp::hledger::{
    AccountBalance, BalanceReport, BudgetReport, HledgerError, Posting, Status, Transaction,
    Version,
};
use hledger_mcp::server::args::{
    BudgetSetArgs, DeclareCommodityArgs, EcoCreateArgs, EcoRefArgs, FundProjectArgs, MoneyArgs,
    PayInvoiceArgs, PostInterestArgs, ReceiveInvoiceArgs, VendorAddArgs,
};
use hledger_mcp::server::orders::{
    eco_approve, eco_create, eco_void, pay_invoice, ApproveState, ApprovedOrder, CreateState,
    EcoVoidState, PayState,
};
use hledger_mcp::domain::VendorType;
use hledger_mcp::write::append::{AppendAction, AppendReply, AppendState, AppendStep};
use hledger_mcp::write::budget::BudgetPeriod;
use hledger_mcp::write::budgeting::{set_budget, BudgetState};
use hledger_mcp::write::input::{PostingAmount, PostingInput, TransactionInput};
use hledger_mcp::write::guard::{guarded, GuardAction, GuardReply, GuardState, GuardStep};
use hledger_mcp::write::plan::{
    declare_account, post_transaction, tombstone_account, void_transaction, Action, Reply, Step,
};
use hledger_mcp::write::reconcile::{
    reconcile, unblock, ReconcileAction, ReconcileReply, ReconcileState, ReconcileStep,
};
use hledger_mcp::write::update::{update_transaction, UpdateState};
use hledger_mcp::write::view::{ConnectionView, DecisionContext, WriteContext};
use hledger_mcp::write::{CommitOutcome, WriteError, WriteOutcome};

fn oid(c: char) -> CommitOid {
    CommitOid::new(c.to_string().repeat(40))
}

fn epoch(c: char) -> Epoch {
    Epoch::new(Some(oid(c)))
}

fn ctx() -> WriteContext {
    ConnectionView::new()
        .begin_write(ToolClass::Record, "/l/main.journal", epoch('a'))
        .expect("a recording call is never stale")
}

fn read(view: &mut ConnectionView, sample: Option<Epoch>, succeeded: bool) {
    let begun = view.begin_read(sample);
    view.finish_read(begun, succeeded);
}

/// A write that decides, by a connection that has read the head.
fn deciding() -> WriteContext {
    assert!(ctx().as_decision().is_none(), "a recording call is no decision");
    let mut view = ConnectionView::new();
    read(&mut view, Some(epoch('a')), true);
    view.begin_write(ToolClass::Decide, "/l/main.journal", epoch('a'))
        .expect("current")
}

fn approve() -> Step<ApproveState, ApprovedOrder> {
    let ctx = deciding();
    let decision: DecisionContext = ctx.as_decision().expect("a decision");
    assert_eq!(decision.context().journal(), "/l/main.journal");
    eco_approve(&decision, order_ref())
}

fn day() -> Date {
    Date::from_ymd_opt(2026, 1, 15).unwrap()
}

fn names(list: &[&str]) -> Reply {
    Reply::Names(Ok(list.iter().map(|s| s.to_string()).collect()))
}

fn input(quantity: &str, idem: Option<&str>) -> TransactionInput {
    TransactionInput {
        date: day(),
        description: "Acme".to_string(),
        postings: vec![
            PostingInput {
                account: "e:s".to_string(),
                amount: Some(PostingAmount {
                    quantity: quantity.to_string(),
                    commodity: "$".to_string(),
                }),
            },
            PostingInput { account: "a:c".to_string(), amount: None },
        ],
        tags: vec![("vendor".to_string(), "Acme".to_string())],
        idem: idem.map(str::to_string),
    }
}

fn tag(k: &str, v: &str) -> (String, String) {
    (k.to_string(), v.to_string())
}

fn money(mantissa: i128) -> Amount {
    Amount {
        commodity: "$".to_string(),
        quantity: Quantity::new(mantissa, 2),
        commodity_left: true,
        spaced: false,
    }
}

fn txn(tags: Vec<(String, String)>, lines: &[(&str, i128)]) -> Transaction {
    Transaction {
        date: day(),
        description: "Old; one".to_string(),
        index: 1,
        status: Status::Unmarked,
        comment: String::new(),
        tags,
        postings: lines
            .iter()
            .map(|(account, m)| Posting {
                account: account.to_string(),
                amounts: vec![money(*m)],
                comment: String::new(),
                tags: vec![],
            })
            .collect(),
    }
}

fn found(txns: Vec<Transaction>) -> Reply {
    Reply::Transactions(Ok(txns))
}

fn failed() -> HledgerError {
    HledgerError::Parse("x".to_string())
}

fn query<S: std::fmt::Debug, T: std::fmt::Debug>(step: &Step<S, T>) -> String {
    match step {
        Step::Run(_, Action::Print { query }) => query.clone(),
        other => panic!("a query: {other:?}"),
    }
}

fn addition<S: std::fmt::Debug, T: std::fmt::Debug>(step: &Step<S, T>) -> (String, String) {
    match step {
        Step::Run(_, Action::Append { addition, message }) => (addition.clone(), message.clone()),
        other => panic!("an addition: {other:?}"),
    }
}

fn error<S: std::fmt::Debug, T: std::fmt::Debug>(step: Step<S, T>) -> String {
    match step {
        Step::Done(Err(e)) => e.to_string(),
        other => panic!("an error: {other:?}"),
    }
}

fn done<S: std::fmt::Debug, T: std::fmt::Debug>(step: Step<S, T>) -> T {
    match step {
        Step::Done(Ok(t)) => t,
        other => panic!("done: {other:?}"),
    }
}

/// A state that takes replies.
trait Stepping: Sized {
    type Out;
    fn go(self, reply: Reply) -> Step<Self, Self::Out>;
}

impl Stepping for hledger_mcp::write::plan::PostState {
    type Out = WriteOutcome;
    fn go(self, reply: Reply) -> Step<Self, WriteOutcome> {
        self.step(reply)
    }
}

impl Stepping for hledger_mcp::write::plan::VoidState {
    type Out = WriteOutcome;
    fn go(self, reply: Reply) -> Step<Self, WriteOutcome> {
        self.step(reply)
    }
}

impl Stepping for UpdateState {
    type Out = WriteOutcome;
    fn go(self, reply: Reply) -> Step<Self, WriteOutcome> {
        self.step(reply)
    }
}

impl Stepping for hledger_mcp::write::plan::TombstoneState {
    type Out = CommitOutcome;
    fn go(self, reply: Reply) -> Step<Self, CommitOutcome> {
        self.step(reply)
    }
}

impl Stepping for BudgetState {
    type Out = CommitOutcome;
    fn go(self, reply: Reply) -> Step<Self, CommitOutcome> {
        self.step(reply)
    }
}

impl Stepping for hledger_mcp::write::plan::Recording {
    type Out = CommitOutcome;
    fn go(self, reply: Reply) -> Step<Self, CommitOutcome> {
        self.step(reply)
    }
}

impl Stepping for PayState {
    type Out = WriteOutcome;
    fn go(self, reply: Reply) -> Step<Self, WriteOutcome> {
        self.step(reply)
    }
}

impl Stepping for CreateState {
    type Out = hledger_mcp::server::orders::RecordedOrder;
    fn go(self, reply: Reply) -> Step<Self, Self::Out> {
        self.step(reply)
    }
}

impl Stepping for ApproveState {
    type Out = hledger_mcp::server::orders::ApprovedOrder;
    fn go(self, reply: Reply) -> Step<Self, Self::Out> {
        self.step(reply)
    }
}

impl Stepping for EcoVoidState {
    type Out = hledger_mcp::server::orders::VoidedOrder;
    fn go(self, reply: Reply) -> Step<Self, Self::Out> {
        self.step(reply)
    }
}

fn next<S: Stepping>(step: Step<S, S::Out>, reply: Reply) -> Step<S, S::Out> {
    match step {
        Step::Run(s, _) => s.go(reply),
        Step::Done(_) => panic!("the operation is over"),
    }
}

fn committed(c: char) -> Reply {
    Reply::Committed(Ok(oid(c)))
}

/// The value of a tag in the header of an entry.
fn stamp(entry: &str, key: &str) -> String {
    let header = entry.lines().next().unwrap();
    let tags = header.split("  ; ").nth(1).unwrap();
    tags.split(", ")
        .find_map(|t| t.strip_prefix(&format!("{key}:")))
        .unwrap()
        .to_string()
}

#[test]
fn a_post_looks_up_its_key_checks_and_appends() {
    let step = post_transaction(&ctx(), input("12.34", Some("k.1")));
    assert_eq!(query(&step), "tag:idem=^k\\.1$");
    let step = next(step, found(vec![txn(vec![tag("idem", "k.10")], &[])]));
    assert!(matches!(step, Step::Run(_, Action::DeclaredAccounts)), "another key: {step:?}");
    let step = next(step, names(&["e:s", "a:c"]));
    assert!(matches!(step, Step::Run(_, Action::DeclaredCommodities)));
    let step = next(step, names(&["$"]));
    let (text, message) = addition(&step);
    let id = stamp(&text, "id");
    assert_eq!(id.len(), 36);
    assert_eq!(
        text,
        format!(
            "2026-01-15 Acme  ; id:{id}, idem:k.1, vendor:Acme\n    e:s  12.34 $\n    a:c\n"
        )
    );
    assert_eq!(message, format!("post id:{id}"));
    let out = done(next(step, committed('b')));
    assert_eq!((out.base.id, out.deduped), (id, false));
    assert_eq!(out.base.commit, oid('b'));
}

#[test]
fn a_post_without_a_key_gets_a_fresh_one() {
    let keys: Vec<String> = (0..2)
        .map(|_| query(&post_transaction(&ctx(), input("1", None))))
        .collect();
    assert_ne!(keys[0], keys[1]);
    assert_eq!(keys[0].len(), "tag:idem=^$".len() + 36);
}

#[test]
fn a_repeated_post_appends_nothing() {
    let step = post_transaction(&ctx(), input("12.34", Some("k")));
    let prior = txn(vec![tag("id", "first"), tag("idem", "k")], &[]);
    let step = next(step, found(vec![prior]));
    assert!(matches!(step, Step::Run(_, Action::Head)), "{step:?}");
    let out = done(next(step, Reply::Head(Ok(Some(oid('c'))))));
    assert!(out.deduped);
    assert_eq!((out.base.id.as_str(), out.base.commit), ("first", oid('c')));

    let step = next(
        post_transaction(&ctx(), input("1", Some("k"))),
        found(vec![txn(vec![tag("idem", "k")], &[])]),
    );
    let out = done(next(step, Reply::Head(Ok(None))));
    assert_eq!((out.base.id.as_str(), out.base.commit.as_str()), ("", ""));
}

#[test]
fn a_post_that_fails_says_why() {
    let start = || post_transaction(&ctx(), input("x", Some("k")));
    assert_eq!(
        error(next(start(), Reply::Transactions(Err(failed())))),
        "internal error: idempotency query: could not parse hledger JSON output: x"
    );
    let accounts = || next(start(), found(vec![]));
    assert!(error(next(accounts(), Reply::Names(Err(failed()))))
        .starts_with("internal error: read declared accounts: "));
    let commodities = || next(accounts(), names(&["e:s", "a:c"]));
    assert!(error(next(commodities(), Reply::Names(Err(failed()))))
        .starts_with("internal error: read declared commodities: "));
    assert_eq!(
        error(next(commodities(), names(&["$"]))),
        "input error: invalid amount 'x' for account 'e:s'"
    );
    assert_eq!(
        error(next(commodities(), committed('b'))),
        "internal error: unexpected reply"
    );
}

#[test]
fn a_void_negates_and_names_its_target() {
    let step = void_transaction(&ctx(), "old");
    assert_eq!(query(&step), "tag:id=^old$");
    let target = txn(vec![tag("id", "old")], &[("e:s", 1234), ("a:c", -1234)]);
    let step = next(step, found(vec![target]));
    let (text, message) = addition(&step);
    let (id, idem) = (stamp(&text, "id"), stamp(&text, "idem"));
    assert_ne!(id, idem);
    assert_eq!(
        text,
        format!(
            "2026-01-15 reversal of Old  one  ; id:{id}, idem:{idem}, reverses:old\n    e:s  -12.34 $\n    a:c  12.34 $\n"
        )
    );
    assert_eq!(message, format!("void reverses:old id:{id}"));
    assert_eq!(done(next(step, committed('b'))).base.id, id);
}

#[test]
fn a_void_that_fails_says_why() {
    let start = || void_transaction(&ctx(), "old");
    assert_eq!(
        error(next(start(), found(vec![]))),
        "input error: no transaction with id 'old'"
    );
    let reversal = txn(vec![tag("id", "old"), tag("reverses", "x")], &[("e:s", 1)]);
    assert_eq!(
        error(next(start(), found(vec![reversal]))),
        "input error: transaction 'old' is itself a reversal; refusing to void a reversal"
    );
    let empty = txn(vec![tag("id", "old")], &[]);
    assert_eq!(
        error(next(start(), found(vec![empty]))),
        "internal error: target transaction has no postings to reverse"
    );
    let huge = txn(vec![tag("id", "old")], &[("e:s", i128::MIN)]);
    assert_eq!(
        error(next(start(), found(vec![huge]))),
        "internal error: target transaction has an amount that cannot be negated"
    );
}

/// What hledger lists of an entry: the tags of its header, and these amounts.
fn listed(entry: &str, lines: &[(&str, i128)]) -> Transaction {
    let header = entry.lines().next().unwrap();
    let tags = header.split_once(';').unwrap().1;
    let tags = tags
        .split(',')
        .filter_map(|t| t.split_once(':'))
        .map(|(k, v)| tag(k.trim(), v.trim()))
        .collect();
    txn(tags, lines)
}

#[test]
fn a_retry_finds_what_the_first_post_wrote() {
    let checked = |key: &str, ledger: Vec<Transaction>| {
        let step = next(post_transaction(&ctx(), input("12.34", Some(key))), found(ledger));
        next(next(step, names(&["e:s", "a:c"])), names(&["$"]))
    };
    let step = checked("k: 1", vec![]);
    let written = listed(&addition(&step).0, &[]);
    let first = done(next(step, committed('b')));
    assert!(!first.deduped);

    let step = next(
        post_transaction(&ctx(), input("99", Some("k: 1"))),
        found(vec![written.clone()]),
    );
    let again = done(next(step, Reply::Head(Ok(Some(oid('c'))))));
    assert!(again.deduped);
    assert_eq!((again.base.id, again.base.commit), (first.base.id.clone(), oid('c')));

    let other = done(next(checked("k: 2", vec![written]), committed('d')));
    assert!(!other.deduped);
    assert_ne!(other.base.id, first.base.id);
}

#[test]
fn a_key_is_taken_without_the_white_space_around_it() {
    let post = |key: &str| post_transaction(&ctx(), input("12.34", Some(key)));
    let step = post(" k 1\t");
    assert_eq!(query(&step), "tag:idem=^k 1$");
    let step = next(next(next(step, found(vec![])), names(&["e:s", "a:c"])), names(&["$"]));
    let (text, _) = addition(&step);
    assert!(text.contains(", idem:k 1, vendor:Acme\n"), "{text}");
    let written = listed(&text, &[]);
    let first = done(next(step, committed('b')));
    for key in [" k 1\t", "k 1"] {
        let step = next(post(key), found(vec![written.clone()]));
        let again = done(next(step, Reply::Head(Ok(Some(oid('b'))))));
        assert!(again.deduped, "{key:?}");
        assert_eq!(again.base.id, first.base.id);
    }
    let step = update_transaction(&ctx(), "old", input("1", Some(" k 1")));
    let step = next(next(step, names(&["e:s", "a:c"])), names(&["$"]));
    assert_eq!(
        error(next(step, found(vec![written]))),
        "input error: idempotency key 'k 1' is already used; a replacement needs one of its own"
    );
}

#[test]
fn a_repetition_of_a_repetition_tells_the_same() {
    let prior = txn(vec![tag("id", "first"), tag("idem", "txn-1")], &[]);
    for _ in 0..2 {
        let step = post_transaction(&ctx(), input("12.34", Some("txn-1")));
        let step = next(step, found(vec![prior.clone()]));
        let out = done(next(step, Reply::Head(Ok(Some(oid('c'))))));
        assert!(out.deduped);
        assert_eq!((out.base.id.as_str(), out.base.commit), ("first", oid('c')));
    }
    let step = next(
        post_transaction(&ctx(), input("12.34", Some("txn-10"))),
        found(vec![prior]),
    );
    let step = next(next(step, names(&["e:s", "a:c"])), names(&["$"]));
    assert!(!done(next(step, committed('d'))).deduped);
}

#[test]
fn a_key_that_could_not_be_found_again_is_refused() {
    for (key, why) in [
        ("a,b", "input error: idempotency key must not contain a comma"),
        ("a;b", "input error: idempotency key must not contain a newline or ';'"),
        ("a\nb", "input error: idempotency key must not contain a newline or ';'"),
    ] {
        let step = next(post_transaction(&ctx(), input("1", Some(key))), found(vec![]));
        let step = next(next(step, names(&["e:s", "a:c"])), names(&["$"]));
        assert_eq!(error(step), why);
        let step = update_transaction(&ctx(), "old", input("1", Some(key)));
        let step = next(next(step, names(&["e:s", "a:c"])), names(&["$"]));
        assert_eq!(error(step), why, "before anything is voided");
    }
}

#[test]
fn a_replacement_is_checked_before_the_void() {
    let start = |q: &str| next(
        update_transaction(&ctx(), "old", input(q, Some("k"))),
        names(&["e:s", "a:c"]),
    );
    assert!(error(next(start("bad"), names(&["$"]))).starts_with("input error: invalid amount"));
    let looking = || next(start("5"), names(&["$"]));
    assert_eq!(query(&looking()), "tag:idem=^k$");
    assert_eq!(
        error(next(looking(), found(vec![txn(vec![tag("id", "x"), tag("idem", "k")], &[])]))),
        "input error: idempotency key 'k' is already used; a replacement needs one of its own"
    );
    assert_eq!(
        error(next(looking(), Reply::Transactions(Err(failed())))),
        "internal error: idempotency query: could not parse hledger JSON output: x"
    );
    let step = next(looking(), found(vec![txn(vec![tag("id", "x"), tag("idem", "k2")], &[])]));
    assert_eq!(query(&step), "tag:id=^old$");
    let step = next(step, found(vec![txn(vec![tag("id", "old")], &[("e:s", 1)])]));
    let (reversal, message) = addition(&step);
    assert!(message.starts_with("void reverses:old"));
    assert_eq!(stamp(&reversal, "reverses"), "old");
    let step = next(step, committed('b'));
    let (text, message) = addition(&step);
    let id = stamp(&text, "id");
    assert_eq!(message, format!("post id:{id}"));
    assert_eq!(
        text,
        format!("2026-01-15 Acme  ; id:{id}, idem:k, vendor:Acme\n    e:s  5 $\n    a:c\n")
    );
    let out = done(next(step, committed('c')));
    assert_eq!((out.base.id, out.base.commit, out.deduped), (id, oid('c'), false));
}

#[test]
fn a_tombstone_is_set_once() {
    let start = || tombstone_account(&ctx(), " a:b ");
    assert_eq!(
        error(next(start(), names(&["x"]))),
        "input error: cannot tombstone undeclared account 'a:b'"
    );
    let asked = || next(start(), names(&["a:b"]));
    assert!(matches!(asked(), Step::Run(_, Action::TombstonedAccounts)));
    let step = next(asked(), names(&[]));
    assert_eq!(
        addition(&step),
        (
            "account a:b  ; tombstoned:\n".to_string(),
            "tombstone account a:b".to_string()
        )
    );
    assert_eq!(done(next(step, committed('b'))).id, "a:b");
    let known = || next(asked(), names(&["a:b"]));
    assert!(matches!(known(), Step::Run(_, Action::Head)));
    assert_eq!(done(next(known(), Reply::Head(Ok(Some(oid('c')))))).commit, oid('c'));
    assert_eq!(
        error(next(known(), Reply::Head(Ok(None)))),
        "internal error: idempotent tombstone implies a prior commit"
    );
}

#[test]
fn declarations_append_directives() {
    let step = declare_account(&ctx(), " a:b ");
    assert_eq!(
        addition(&step),
        ("account a:b\n".to_string(), "declare account".to_string())
    );
    assert_eq!(done(next(step, committed('b'))).id, "a:b");
    assert_eq!(
        error(declare_account(&ctx(), ":x")),
        "input error: invalid account name: ':x'"
    );
    let args = DeclareCommodityArgs { commodity: "EUR".to_string(), decimal_places: None };
    let (places, step) = hledger_mcp::server::declare_commodity(&ctx(), &args);
    assert_eq!(places, 2);
    assert_eq!(addition(&step).0, "commodity 1000.00 EUR\n");
    let vendor = |vendor_type, trade: Option<&str>| VendorAddArgs {
        vendor: "Acme".to_string(),
        vendor_type,
        trade: trade.map(str::to_string),
    };
    let step = hledger_mcp::server::vendor_add(&ctx(), &vendor(VendorType::Trade, Some("plumbing")));
    assert_eq!(
        addition(&step),
        (
            "account liabilities:ap:vendor:Acme\naccount expenses:construction:plumbing\n".to_string(),
            "add vendor Acme".to_string()
        )
    );
    assert_eq!(
        error(hledger_mcp::server::vendor_add(&ctx(), &vendor(VendorType::Trade, None))),
        "input error: `trade` is required when vendor_type is \"trade\""
    );
    assert_eq!(
        error(hledger_mcp::server::vendor_add(&ctx(), &vendor(VendorType::Trade, Some("x;y")))),
        "input error: invalid account name: 'expenses:construction:x;y'"
    );
}

fn budget(quantity: &str) -> Step<BudgetState, CommitOutcome> {
    hledger_mcp::server::budget_set(
        &ctx(),
        &BudgetSetArgs {
            account: "e:a".to_string(),
            period: BudgetPeriod::Monthly,
            amount: quantity.to_string(),
            commodity: "$".to_string(),
        },
    )
}

#[test]
fn a_first_budget_adds_the_line_and_later_ones_do_not() {
    let reading = |q: &str| next(next(budget(q), names(&["e:a"])), names(&["$"]));
    assert!(matches!(reading("5"), Step::Run(_, Action::ReadBudget)));
    let step = next(
        reading("500.00"),
        Reply::Budgets(Ok(("; j\n".to_string(), None))),
    );
    let (journal, file) = match &step {
        Step::Run(_, Action::CheckBudget { journal, budget }) => (journal.clone(), budget.clone()),
        other => panic!("{other:?}"),
    };
    assert_eq!(journal, "; j\n\ninclude budget.journal\n");
    assert!(file.ends_with("\n~ monthly  ; budget:\n    e:a  500.00 $\n    equity:budget\n"));
    let step = next(step, Reply::Checked(Ok(())));
    match &step {
        Step::Run(_, Action::PutBudget { text }) => assert_eq!(text.as_ref(), Some(&file)),
        other => panic!("{other:?}"),
    }
    let step = next(step, Reply::Put(Ok(())));
    match &step {
        Step::Run(_, Action::PutJournal { text }) => assert_eq!(text, &journal),
        other => panic!("{other:?}"),
    }
    let step = next(step, Reply::Put(Ok(())));
    match &step {
        Step::Run(_, Action::CommitBudget { message }) => {
            assert_eq!(message, "budget: set e:a monthly = 500.00 $");
        }
        other => panic!("{other:?}"),
    }
    assert_eq!(done(next(step, committed('b'))).id, "e:a");

    let step = next(reading("7"), Reply::Budgets(Ok((journal.clone(), Some(file)))));
    let second = match &step {
        Step::Run(_, Action::CheckBudget { journal: j, budget }) => {
            assert_eq!(j, &journal, "the line is there already");
            budget.clone()
        }
        other => panic!("{other:?}"),
    };
    assert_eq!(second.matches("~ monthly").count(), 1, "replaced: {second}");
    let step = next(next(step, Reply::Checked(Ok(()))), Reply::Put(Ok(())));
    assert!(matches!(step, Step::Run(_, Action::CommitBudget { .. })), "{step:?}");
}

#[test]
fn a_budget_that_cannot_be_kept_is_taken_back() {
    let full = || WriteError::io("atomic replace", "full");
    let put = |live: &str, file: Option<&str>| {
        let step = next(next(budget("5"), names(&["e:a"])), names(&["$"]));
        let read = (live.to_string(), file.map(str::to_string));
        next(next(step, Reply::Budgets(Ok(read))), Reply::Checked(Ok(())))
    };
    let ended = "internal error: atomic replace: full";
    assert_eq!(error(next(put("; j\n", None), Reply::Put(Err(full())))), ended);

    // The journal could not be put in place: the budget file is removed again.
    let step = next(next(put("; j\n", None), Reply::Put(Ok(()))), Reply::Put(Err(full())));
    assert!(matches!(step, Step::Run(_, Action::PutBudget { text: None })), "{step:?}");
    assert_eq!(error(next(step, Reply::Put(Ok(())))), ended);

    // The commit failed: both files are put back.
    let step = next(next(put("; j\n", Some("")), Reply::Put(Ok(()))), Reply::Put(Ok(())));
    let step = next(step, Reply::Committed(Err(full())));
    match &step {
        Step::Run(_, Action::PutJournal { text }) => assert_eq!(text, "; j\n"),
        other => panic!("{other:?}"),
    }
    let step = next(step, Reply::Put(Ok(())));
    match &step {
        Step::Run(_, Action::PutBudget { text }) => assert_eq!(text.as_deref(), Some("")),
        other => panic!("{other:?}"),
    }
    assert_eq!(error(next(step, Reply::Put(Ok(())))), ended);

    // A journal that was not changed is left alone.
    let step = next(put("include budget.journal\n", Some("")), Reply::Put(Ok(())));
    let step = next(step, Reply::Committed(Err(full())));
    match &step {
        Step::Run(_, Action::PutBudget { text }) => assert_eq!(text.as_deref(), Some("")),
        other => panic!("{other:?}"),
    }
    assert_eq!(error(next(step, Reply::Put(Err(full())))), ended);
}

#[test]
fn a_budget_that_fails_says_why() {
    assert_eq!(error(budget("x")), "input error: invalid amount 'x'");
    assert_eq!(
        error(next(next(budget("5"), names(&[])), names(&["$"]))),
        "input error: account not declared: 'e:a' — declare it first with declare_account"
    );
    assert_eq!(
        error(next(next(budget("5"), names(&["e:a"])), names(&[]))),
        "input error: commodity not declared: '$' — declare it first with declare_commodity"
    );
    let read = |text: &str| {
        next(
            next(next(budget("5"), names(&["e:a"])), names(&["$"])),
            Reply::Budgets(Ok((String::new(), Some(text.to_string())))),
        )
    };
    assert_eq!(
        error(read("~ x\n")),
        "internal error: malformed budget file line: \"~ x\""
    );
    let rejected = HledgerError::NonZero { status: "1".to_string(), stderr: "why".to_string() };
    assert_eq!(
        error(next(read(""), Reply::Checked(Err(rejected)))),
        "internal error: hledger check --strict rejected our generated budget file (formatter bug):\nwhy"
    );
    assert_eq!(
        error(next(read(""), Reply::NotStaged(WriteError::io("create scratch dir", "full")))),
        "internal error: create scratch dir: full"
    );
    let direct = set_budget(&ctx(), "e:a", BudgetPeriod::Daily, Quantity::new(1, 0), "$");
    assert!(matches!(direct, Step::Run(_, Action::DeclaredAccounts)));
}

fn cash() -> MoneyArgs {
    MoneyArgs {
        amount: "80.00".to_string(),
        commodity: "$".to_string(),
        idem: Some("k".to_string()),
    }
}

fn owed(mantissa: i128) -> Reply {
    Reply::Balance(Ok(BalanceReport {
        rows: vec![AccountBalance {
            account: "liabilities:ap:vendor:Acme".to_string(),
            amounts: vec![money(mantissa)],
        }],
        totals: vec![],
    }))
}

#[test]
fn an_invoice_is_paid_where_something_is_owed() {
    let start = || {
        pay_invoice(
            &ctx(),
            PayInvoiceArgs { date: day(), vendor: "Acme".to_string(), money: cash() },
        )
    };
    match start() {
        Step::Run(_, Action::BalanceFlat { account }) => {
            assert_eq!(account, "liabilities:ap:vendor:Acme")
        }
        other => panic!("{other:?}"),
    }
    assert_eq!(
        error(next(start(), owed(0))),
        "input error: vendor 'Acme' has no outstanding AP balance"
    );
    assert!(error(next(start(), Reply::Balance(Err(failed()))))
        .starts_with("internal error: AP balance query: "));
    let step = next(start(), owed(-1));
    assert_eq!(query(&step), "tag:idem=^k$");
    let step = next(step, found(vec![]));
    let step = next(step, names(&["liabilities:ap:vendor:Acme", "assets:checking"]));
    let step = next(step, names(&["$"]));
    assert!(addition(&step)
        .0
        .ends_with("    liabilities:ap:vendor:Acme  80.00 $\n    assets:checking\n"));
    assert_eq!(done(next(step, committed('b'))).base.commit, oid('b'));
}

#[test]
fn the_domain_tools_post_their_transactions() {
    let text = |step| {
        let step = next(step, found(vec![]));
        let step = next(
            step,
            names(&[
                "assets:checking",
                "equity:owner capital",
                "income:interest",
                "e:x",
                "liabilities:ap:vendor:Acme",
            ]),
        );
        addition(&next(step, names(&["$"]))).0
    };
    let fund = FundProjectArgs { date: day(), money: cash() };
    let fund = text(hledger_mcp::server::fund_project(&ctx(), fund));
    assert!(fund.starts_with("2026-01-15 Fund project  ; id:"));
    assert!(fund.ends_with("    assets:checking  80.00 $\n    equity:owner capital\n"));
    let interest = PostInterestArgs { date: day(), money: cash() };
    let interest = text(hledger_mcp::server::post_interest(&ctx(), interest));
    assert!(interest.ends_with("    assets:checking  80.00 $\n    income:interest\n"));
    let invoice = ReceiveInvoiceArgs {
        date: day(),
        vendor: "Acme".to_string(),
        expense_account: "e:x".to_string(),
        invoice_ref: "INV-1".to_string(),
        money: cash(),
    };
    let invoice = text(hledger_mcp::server::receive_invoice(&ctx(), invoice));
    assert!(invoice.contains(", idem:k, invoice:INV-1, vendor:Acme\n"));
    assert!(invoice.ends_with("    e:x  80.00 $\n    liabilities:ap:vendor:Acme\n"));
}

fn order(trade: &str) -> EcoCreateArgs {
    EcoCreateArgs {
        eco: "7".to_string(),
        trade: trade.to_string(),
        vendor: "GC".to_string(),
        description: "add outlets".to_string(),
        date: day(),
        money: cash(),
    }
}

const PENDING: &str = "expenses:change orders:pending:hvac";
const TRACKED: &str = "expenses:change orders:hvac";

#[test]
fn a_change_order_is_recorded_once_with_its_accounts() {
    for trade in ["pending", "pending:x"] {
        assert_eq!(
            error(eco_create(&ctx(), order(trade))),
            "input error: 'pending' is a reserved trade name under change orders"
        );
    }
    let start = || eco_create(&ctx(), order("hvac"));
    assert_eq!(query(&start()), "tag:eco=^7$");
    assert_eq!(
        error(next(start(), found(vec![txn(vec![tag("eco", "7")], &[])]))),
        "input error: change order '7' already exists"
    );
    let asked = || next(start(), found(vec![txn(vec![tag("eco", "77")], &[])]));
    let step = next(asked(), names(&[TRACKED]));
    assert_eq!(
        addition(&step),
        (format!("account {PENDING}\n"), "declare accounts".to_string())
    );
    let step = next(step, committed('b'));
    assert_eq!(query(&step), "tag:idem=^k$");
    let declared = next(asked(), names(&[PENDING, TRACKED]));
    assert_eq!(query(&declared), "tag:idem=^k$", "nothing to declare");
    let step = next(step, found(vec![]));
    let step = next(step, names(&[PENDING, TRACKED, "liabilities:ap:vendor:GC"]));
    let step = next(step, names(&["$"]));
    let (text, _) = addition(&step);
    assert!(text.contains("ECO 7: add outlets"));
    assert!(text.contains(", eco:7, eco_event:created, vendor:GC\n"));
    let out = done(next(step, committed('c')));
    assert_eq!((out.eco.as_str(), out.outcome.base.commit), ("7", oid('c')));
    let bad = next(
        next(eco_create(&ctx(), order("a;b")), found(vec![])),
        names(&[]),
    );
    assert!(error(bad).starts_with("input error: invalid account name: "));
}

fn created() -> Transaction {
    txn(
        vec![tag("id", "c1"), tag("eco", "7"), tag("eco_event", "created")],
        &[(PENDING, 150000), ("liabilities:ap:vendor:GC", -150000)],
    )
}

fn approved() -> Transaction {
    txn(
        vec![tag("id", "a1"), tag("eco", "7"), tag("eco_event", "approved")],
        &[(TRACKED, 150000), (PENDING, -150000)],
    )
}

fn order_ref() -> EcoRefArgs {
    EcoRefArgs { eco: "7".to_string(), date: day() }
}

#[test]
fn a_change_order_is_approved_once_with_what_was_recorded() {
    let start = approve;
    assert_eq!(query(&start()), "tag:eco=^7$");
    assert_eq!(
        error(next(start(), found(vec![]))),
        "input error: unknown change order '7' — record it first with eco_create"
    );
    let step = next(start(), found(vec![created(), approved()]));
    assert_eq!(query(&step), "tag:reverses=^c1$");
    let step = next(step, found(vec![]));
    assert_eq!(query(&step), "tag:reverses=^a1$");
    assert_eq!(
        error(next(step, found(vec![]))),
        "input error: change order '7' is already approved"
    );
    let bare = txn(vec![tag("eco", "7"), tag("eco_event", "created")], &[("e:x", 1)]);
    assert_eq!(
        error(next(start(), found(vec![bare]))),
        "internal error: ECO '7' create transaction has no pending-CO posting"
    );
    let step = next(next(start(), found(vec![created()])), found(vec![]));
    assert!(query(&step).starts_with("tag:idem=^"));
    let step = next(next(step, found(vec![])), names(&[PENDING, TRACKED]));
    let step = next(step, names(&["$"]));
    let (text, _) = addition(&step);
    assert!(text.contains("ECO 7: approved"));
    assert!(text.ends_with(&format!("    {TRACKED}  1500.00 $\n    {PENDING}\n")));
    let step = next(step, committed('b'));
    match &step {
        Step::Run(_, Action::Budget { account }) => assert_eq!(account, TRACKED),
        other => panic!("{other:?}"),
    }
    let report = BudgetReport { rows: vec![], total_actual: vec![], total_goal: vec![] };
    let out = done(next(step, Reply::Budget(Some(report))));
    assert_eq!(out.outcome.base.commit, oid('b'));
    assert!(out.budget.is_some());
}

#[test]
fn a_change_order_is_voided_where_it_is_not_reversed_yet() {
    let start = || eco_void(&ctx(), order_ref());
    let both = || next(start(), found(vec![created(), approved()]));
    let reversal = |of: &str| found(vec![txn(vec![tag("reverses", of)], &[])]);
    let all_reversed = next(next(both(), reversal("c1")), reversal("a1"));
    assert_eq!(
        error(all_reversed),
        "input error: change order '7' is already fully voided"
    );
    let step = next(next(both(), found(vec![])), reversal("a12"));
    assert_eq!(query(&step), "tag:id=^c1$");
    let step = next(step, found(vec![created()]));
    assert!(addition(&step).1.starts_with("void reverses:c1"));
    let step = next(step, committed('b'));
    assert_eq!(query(&step), "tag:id=^a1$");
    let step = next(next(step, found(vec![approved()])), committed('c'));
    let out = done(step);
    assert_eq!((out.eco.as_str(), out.count), ("7", 2));
    assert_eq!(out.last.base.commit, oid('c'));
    assert!(error(next(start(), found(vec![]))).contains("unknown change order '7'"));
    assert!(error(next(start(), Reply::Transactions(Err(failed())))).contains("eco lookup: "));
}

#[test]
fn a_change_order_is_recorded_and_approved_once_in_its_ledger() {
    let vendor = "liabilities:ap:vendor:GC";
    let declared = [PENDING, TRACKED, vendor];
    let step = next(eco_create(&ctx(), order("hvac")), found(vec![]));
    let step = next(next(step, names(&declared)), found(vec![]));
    let step = next(next(step, names(&declared)), names(&["$"]));
    let recorded = listed(&addition(&step).0, &[(PENDING, 150000), (vendor, -150000)]);
    assert!(!done(next(step, committed('b'))).outcome.deduped);
    let eco = order("hvac").eco;
    assert_eq!(
        error(next(eco_create(&ctx(), order("roof")), found(vec![recorded.clone()]))),
        format!("input error: change order '{eco}' already exists")
    );

    let reading = |ledger: Vec<Transaction>| {
        let mut step = next(approve(), found(ledger.clone()));
        while let Step::Run(s, Action::Print { query }) = step {
            if query.starts_with("tag:idem=") {
                step = s.go(found(vec![]));
                break;
            }
            step = s.go(found(ledger.clone()));
        }
        step
    };
    let step = next(reading(vec![recorded.clone()]), names(&declared));
    let step = next(step, names(&["$"]));
    let approval = listed(&addition(&step).0, &[(TRACKED, 150000), (PENDING, -150000)]);
    let step = next(step, committed('c'));
    assert!(!done(next(step, Reply::Budget(None))).outcome.deduped);
    assert_eq!(
        error(reading(vec![recorded, approval])),
        format!("input error: change order '{eco}' is already approved")
    );
}

#[test]
fn a_change_order_is_named_without_the_white_space_around_it() {
    let mut args = order("hvac");
    args.eco = " 7\t".to_string();
    let step = eco_create(&ctx(), args);
    assert_eq!(query(&step), "tag:eco=^7$");
    assert_eq!(
        error(next(step, found(vec![created()]))),
        "input error: change order '7' already exists"
    );
    let mut args = order("hvac");
    args.eco = "7 ".to_string();
    let step = next(next(eco_create(&ctx(), args), found(vec![])), names(&[PENDING, TRACKED]));
    let declared = [PENDING, TRACKED, "liabilities:ap:vendor:GC"];
    let step = next(next(next(step, found(vec![])), names(&declared)), names(&["$"]));
    let (text, _) = addition(&step);
    assert!(text.contains(" ECO 7: add outlets  ; "), "{text}");
    assert!(text.contains(", eco:7, eco_event:created, vendor:GC\n"), "{text}");
    assert_eq!(done(next(step, committed('c'))).eco, "7");

    let spaced = || EcoRefArgs { eco: " 7 ".to_string(), date: day() };
    let ctx = deciding();
    let decision: DecisionContext = ctx.as_decision().expect("a decision");
    let step = next(eco_approve(&decision, spaced()), found(vec![created(), approved()]));
    assert_eq!(
        error(next(next(step, found(vec![])), found(vec![]))),
        "input error: change order '7' is already approved"
    );
    let step = eco_void(&ctx, spaced());
    assert_eq!(query(&step), "tag:eco=^7$");
    let step = next(next(step, found(vec![created()])), found(vec![]));
    let out = done(next(next(step, found(vec![created()])), committed('d')));
    assert_eq!((out.eco.as_str(), out.count), ("7", 1));
}

/// The sum of what the transactions post to an account.
fn sum(txns: &[Transaction], account: &str) -> i128 {
    txns.iter()
        .flat_map(|t| &t.postings)
        .filter(|p| p.account == account)
        .flat_map(|p| &p.amounts)
        .map(|a| a.quantity.mantissa)
        .sum()
}

#[test]
fn a_voided_change_order_leaves_nothing() {
    let vendor = "liabilities:ap:vendor:GC";
    let mut ledger = vec![created(), approved()];
    let mut step = eco_void(&ctx(), order_ref());
    let mut reversals = 0;
    let out = loop {
        match step {
            Step::Done(out) => break out.expect("voided"),
            Step::Run(s, Action::Print { .. }) => step = s.go(found(ledger.clone())),
            Step::Run(s, Action::Append { addition, .. }) => {
                let lines: &[(&str, i128)] = match stamp(&addition, "reverses").as_str() {
                    "c1" => &[(PENDING, -150000), (vendor, 150000)],
                    "a1" => &[(TRACKED, -150000), (PENDING, 150000)],
                    other => panic!("reverses {other}"),
                };
                for (account, mantissa) in lines {
                    let sign = if *mantissa < 0 { "-" } else { "" };
                    assert!(addition.contains(&format!("    {account}  {sign}1500.00 $\n")), "{addition}");
                }
                ledger.push(listed(&addition, lines));
                reversals += 1;
                step = s.go(committed('b'));
            }
            Step::Run(_, other) => panic!("{other:?}"),
        }
    };
    assert_eq!((out.count, reversals), (2, 2));
    for account in [PENDING, TRACKED, vendor] {
        assert_eq!(sum(&ledger, account), 0, "{account}");
    }

    let mut step = eco_void(&ctx(), order_ref());
    while let Step::Run(s, action) = step {
        assert!(matches!(action, Action::Print { .. }), "nothing is written: {action:?}");
        step = s.go(found(ledger.clone()));
    }
    assert_eq!(error(step), "input error: change order '7' is already fully voided");
}

#[test]
fn a_change_order_that_was_voided_in_part_leaves_nothing() {
    let vendor = "liabilities:ap:vendor:GC";
    let reversal = |of: &str, lines: &[(&str, i128)]| {
        txn(vec![tag("id", &format!("r-{of}")), tag("idem", "x"), tag("reverses", of)], lines)
    };
    let other = txn(vec![tag("id", "o")], &[(TRACKED, 700), (vendor, -700)]);
    let mut ledger = vec![
        other,
        created(),
        approved(),
        reversal("a1", &[(TRACKED, -150000), (PENDING, 150000)]),
    ];
    let mut step = eco_void(&ctx(), order_ref());
    let out = loop {
        match step {
            Step::Done(out) => break out.expect("voided"),
            Step::Run(s, Action::Print { .. }) => step = s.go(found(ledger.clone())),
            Step::Run(s, Action::Append { addition, .. }) => {
                assert_eq!(stamp(&addition, "reverses"), "c1", "the rest of it only");
                ledger.push(reversal("c1", &[(PENDING, -150000), (vendor, 150000)]));
                step = s.go(committed('b'));
            }
            Step::Run(_, other) => panic!("{other:?}"),
        }
    };
    assert_eq!(out.count, 1);
    assert_eq!(
        [PENDING, TRACKED, vendor].map(|account| sum(&ledger, account)),
        [0, 700, -700],
        "what it is without the order"
    );
}

#[test]
fn a_write_replaces_the_journal_only_after_the_check() {
    let (s, a) = AppendState::start("x\n", "m");
    assert!(matches!(a, AppendAction::ReadJournal));
    let step = s.step(AppendReply::Journal(Ok("a".to_string())));
    let (s, name) = match step {
        AppendStep::Run(s, AppendAction::WriteCandidate { name, text }) => {
            assert_eq!(text, "a\n\nx\n");
            (s, name)
        }
        other => panic!("{other:?}"),
    };
    let s = match s.step(AppendReply::File(Ok(()))) {
        AppendStep::Run(s, AppendAction::CheckCandidate { name: n }) => {
            assert_eq!(n, name);
            s
        }
        other => panic!("{other:?}"),
    };
    let s = match s.step(AppendReply::Checked(Ok(()))) {
        AppendStep::Run(s, AppendAction::ReplaceJournal { name: n }) => {
            assert_eq!(n, name);
            s
        }
        other => panic!("{other:?}"),
    };
    let s = match s.step(AppendReply::File(Ok(()))) {
        AppendStep::Run(s, AppendAction::Commit { message }) => {
            assert_eq!(message, "m");
            s
        }
        other => panic!("{other:?}"),
    };
    match s.step(AppendReply::Committed(Ok(oid('b')))) {
        AppendStep::Done(Ok(c)) => assert_eq!(c, oid('b')),
        other => panic!("{other:?}"),
    }
}

#[test]
fn a_write_that_fails_the_check_changes_nothing() {
    let checking = || {
        let (s, _) = AppendState::start("x\n", "m");
        let AppendStep::Run(s, _) = s.step(AppendReply::Journal(Ok(String::new()))) else {
            panic!("a candidate")
        };
        let AppendStep::Run(s, _) = s.step(AppendReply::File(Ok(()))) else {
            panic!("a check")
        };
        s
    };
    let rejected = HledgerError::NonZero { status: "1".to_string(), stderr: "bad".to_string() };
    let AppendStep::Run(s, AppendAction::DiscardCandidate { .. }) =
        checking().step(AppendReply::Checked(Err(rejected)))
    else {
        panic!("the candidate is removed")
    };
    match s.step(AppendReply::File(Err(WriteError::io("remove", "gone")))) {
        AppendStep::Done(Err(e)) => assert_eq!(
            e.to_string(),
            "internal error: hledger check --strict rejected our generated journal (formatter bug):\nbad"
        ),
        other => panic!("{other:?}"),
    }
    let AppendStep::Run(_, action) = checking().step(AppendReply::Checked(Err(HledgerError::NoJournal)))
    else {
        panic!("the candidate is removed")
    };
    assert!(matches!(action, AppendAction::DiscardCandidate { .. }));
}

#[test]
fn a_write_that_cannot_be_finished_is_taken_back() {
    let gone = || WriteError::io("atomic replace", "gone");
    let run = |step: AppendStep| match step {
        AppendStep::Run(s, a) => (s, a),
        other => panic!("{other:?}"),
    };
    let ended = |step: AppendStep| match step {
        AppendStep::Done(Err(e)) => assert_eq!(e.to_string(), "internal error: atomic replace: gone"),
        other => panic!("{other:?}"),
    };
    let writing = || {
        let (s, _) = AppendState::start("x\n", "m");
        run(s.step(AppendReply::Journal(Ok("a\n".to_string())))).0
    };
    let (s, a) = run(writing().step(AppendReply::File(Err(gone()))));
    assert!(matches!(a, AppendAction::DiscardCandidate { .. }), "{a:?}");
    ended(s.step(AppendReply::File(Ok(()))));

    let replacing = || {
        let (s, _) = run(writing().step(AppendReply::File(Ok(()))));
        run(s.step(AppendReply::Checked(Ok(()))))
    };
    let (s, a) = replacing();
    let AppendAction::ReplaceJournal { name } = a else {
        panic!("{a:?}")
    };
    let (s, a) = run(s.step(AppendReply::File(Err(gone()))));
    match a {
        AppendAction::DiscardCandidate { name: n } => assert_eq!(n, name),
        other => panic!("{other:?}"),
    }
    ended(s.step(AppendReply::File(Ok(()))));

    let (s, _) = run(replacing().0.step(AppendReply::File(Ok(()))));
    let (s, a) = run(s.step(AppendReply::Committed(Err(gone()))));
    match a {
        AppendAction::RestoreJournal { text } => assert_eq!(text, "a\n", "as it was read"),
        other => panic!("{other:?}"),
    }
    ended(s.step(AppendReply::File(Err(WriteError::io("write candidate", "full")))));
}

#[test]
fn an_uncommitted_journal_is_committed_or_restored() {
    assert!(matches!(reconcile(false, true), ReconcileStep::Done(Ok(None))));
    assert!(matches!(reconcile(true, false), ReconcileStep::Done(Ok(None))));
    assert!(matches!(
        reconcile(true, true),
        ReconcileStep::Run(ReconcileState::Locking, ReconcileAction::Lock)
    ));
    assert!(matches!(
        ReconcileState::Locking.step(ReconcileReply::Locked(Ok(()))),
        ReconcileStep::Run(ReconcileState::Sweeping, ReconcileAction::Sweep)
    ));
    assert!(matches!(
        ReconcileState::Sweeping.step(ReconcileReply::Swept),
        ReconcileStep::Run(ReconcileState::Looking, ReconcileAction::IsDirty)
    ));
    assert!(matches!(
        ReconcileState::Looking.step(ReconcileReply::Dirty(Ok(false))),
        ReconcileStep::Done(Ok(None))
    ));
    match ReconcileState::Checking.step(ReconcileReply::Checked(Ok(()))) {
        ReconcileStep::Run(ReconcileState::Committing, ReconcileAction::Commit { message }) => {
            assert_eq!(message, "reconcile uncommitted journal")
        }
        other => panic!("{other:?}"),
    }
    assert!(matches!(
        ReconcileState::Checking.step(ReconcileReply::Checked(Err(failed()))),
        ReconcileStep::Run(ReconcileState::Restoring, ReconcileAction::Restore)
    ));
    match ReconcileState::Committing.step(ReconcileReply::Committed(Ok(oid('b')))) {
        ReconcileStep::Done(Ok(Some(c))) => assert_eq!(c, oid('b')),
        other => panic!("{other:?}"),
    }
    assert!(unblock("r", &Ok(())).is_ok());
    assert_eq!(
        unblock("r", &Err(WriteError::git("torn"))).unwrap_err().to_string(),
        "refused: writes blocked: r (reconcile retry failed: internal error: git: torn)"
    );
}

#[test]
fn stale_decisions_are_refused_until_the_next_read() {
    let mut view = ConnectionView::new();
    let err = view.begin_write(ToolClass::Decide, "j", epoch('a')).unwrap_err();
    assert!(err.to_string().contains("(never read)"));
    read(&mut view, Some(epoch('a')), true);
    assert!(view.begin_write(ToolClass::Decide, "j", epoch('a')).is_ok());
    // Another connection commits.
    let err = view.begin_write(ToolClass::Decide, "j", epoch('b')).unwrap_err();
    assert!(matches!(err, WriteError::StaleEpoch(_)));
    assert!(view.begin_write(ToolClass::Record, "j", epoch('b')).is_ok());
    read(&mut view, Some(epoch('b')), true);
    let ctx = view.begin_write(ToolClass::Decide, "j", epoch('b')).unwrap();
    assert_eq!(ctx.journal(), "j");
}

#[test]
fn own_writes_do_not_mask_those_of_others() {
    let mut view = ConnectionView::new();
    read(&mut view, Some(epoch('a')), true);
    // On top of what was seen: the view moves along.
    let ctx = view.begin_write(ToolClass::Record, "j", epoch('a')).unwrap();
    view.finish_write(ctx, Some(epoch('b')));
    assert_eq!(view.last_seen(), Some(&epoch('b')));
    // On top of a commit that was not seen: it stays.
    let ctx = view.begin_write(ToolClass::Record, "j", epoch('c')).unwrap();
    view.finish_write(ctx, Some(epoch('d')));
    assert_eq!(view.last_seen(), Some(&epoch('b')));
    assert!(view.begin_write(ToolClass::Decide, "j", epoch('d')).is_err());
    // A head that cannot be read clears the view.
    let ctx = view.begin_write(ToolClass::Record, "j", epoch('b')).unwrap();
    view.finish_write(ctx, None);
    assert_eq!(view.last_seen(), None);
}

#[test]
fn a_read_counts_from_before_it_began() {
    let mut view = ConnectionView::new();
    // The head was `a` when the read began; another commit came in between.
    read(&mut view, Some(epoch('a')), true);
    assert!(view.begin_write(ToolClass::Decide, "j", epoch('b')).is_err());
    read(&mut view, Some(epoch('b')), false);
    assert!(view.begin_write(ToolClass::Decide, "j", epoch('b')).is_err(), "a failed read");
    read(&mut view, None, true);
    assert_eq!(view.last_seen(), Some(&epoch('a')));
}

fn version(minor: u32) -> GuardReply {
    GuardReply::Version(Ok(Version { raw: String::new(), major: 1, minor }))
}

/// The way to a write up to the reading of the head.
fn sampling(view: &mut ConnectionView, class: ToolClass) -> GuardState {
    let GuardStep::Run(s, GuardAction::Version) = guarded(class, Some("/l/main.journal")) else {
        panic!("the version is asked for")
    };
    let GuardStep::Run(s, GuardAction::EnsureJournal { journal }) = s.step(view, version(52)) else {
        panic!("the journal is made")
    };
    assert_eq!(journal, "/l/main.journal");
    let GuardStep::Run(s, GuardAction::LockProcess) = s.step(view, GuardReply::Ensured(Ok(()))) else {
        panic!("the first lock is taken")
    };
    let GuardStep::Run(s, GuardAction::LockFile { dir }) = s.step(view, GuardReply::Locked(Ok(()))) else {
        panic!("the second lock is taken")
    };
    assert_eq!(dir, "/l");
    let GuardStep::Run(s, GuardAction::Sample { .. }) = s.step(view, GuardReply::Locked(Ok(()))) else {
        panic!("the head is read")
    };
    s
}

fn refused(step: GuardStep) -> String {
    match step {
        GuardStep::Done(Err(e)) => e.to_string(),
        other => panic!("{other:?}"),
    }
}

#[test]
fn a_write_is_locked_and_checked_before_it_is_performed() {
    let mut view = ConnectionView::new();
    read(&mut view, Some(epoch('a')), true);
    let s = sampling(&mut view, ToolClass::Decide);
    assert!(s.context().is_none());
    let GuardStep::Run(s, GuardAction::Perform) =
        s.step(&mut view, GuardReply::Head(Ok(epoch('a'))))
    else {
        panic!("the operation is performed")
    };
    assert_eq!(s.context().map(|c| c.journal()), Some("/l/main.journal"));
    let done = GuardReply::Performed(Ok(()));
    let GuardStep::Run(s, GuardAction::Resample { journal }) = s.step(&mut view, done) else {
        panic!("the head is read again")
    };
    assert_eq!(journal, "/l/main.journal");
    let step = s.step(&mut view, GuardReply::Head(Ok(epoch('b'))));
    assert!(matches!(step, GuardStep::Done(Ok(()))));
    assert_eq!(view.last_seen(), Some(&epoch('b')));

    let s = sampling(&mut view, ToolClass::Decide);
    let stale = s.step(&mut view, GuardReply::Head(Ok(epoch('c'))));
    assert!(refused(stale).starts_with("STALE: "));
    assert_eq!(view.last_seen(), Some(&epoch('b')), "a refusal changes nothing");
}

#[test]
fn a_write_that_cannot_begin_says_why() {
    let mut view = ConnectionView::new();
    assert_eq!(
        refused(guarded(ToolClass::Record, None)),
        "refused: no journal configured"
    );
    let start = || match guarded(ToolClass::Record, Some("j")) {
        GuardStep::Run(s, _) => s,
        other => panic!("{other:?}"),
    };
    assert!(refused(start().step(&mut view, version(51))).contains("hledger 1.51"));
    let missing = GuardReply::Version(Err(HledgerError::NoJournal));
    assert!(refused(start().step(&mut view, missing)).starts_with("refused: hledger unavailable: "));
    assert_eq!(
        refused(start().step(&mut view, GuardReply::Locked(Ok(())))),
        "internal error: unexpected reply"
    );
    let s = sampling(&mut view, ToolClass::Record);
    let GuardStep::Run(s, GuardAction::Perform) =
        s.step(&mut view, GuardReply::Head(Ok(Epoch::new(None))))
    else {
        panic!("a recording call is never stale")
    };
    let failed = GuardReply::Performed(Err(WriteError::io("x", "y")));
    assert_eq!(refused(s.step(&mut view, failed)), "internal error: x: y");
    assert_eq!(view.last_seen(), None);
}
