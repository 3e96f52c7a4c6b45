//! Payments and change orders, step by step: the operations that read the ledger, decide,
//! and then post. They are run as those of [`crate::write::plan`] are.
//!
//! A change order is recorded as pending, then approved into the account that the budget
//! tracks, or voided. Its state is in its transactions: each carries the tag `eco` with the
//! name of the order, and `eco_event` with what it did.

use vstd::prelude::*;

use crate::domain::{
    amount_posting, balancing_posting, eco_account, eco_approve_input, eco_approved,
    eco_create_input, eco_created, eco_details, eco_pending_account, has_outstanding_ap,
    pay_invoice_input, pending_order, shows_debt, vendor_ap_account,
};
use crate::hledger::{
    BalanceReport, BudgetReport, Transaction, TransactionView, hledger_error_text,
    transactions_view,
};
use crate::hledger::amount::quantity_text;
use crate::server::args::{EcoCreateArgs, EcoRefArgs, PayInvoiceArgs};
use crate::sums::total;
use crate::text::{cat3, has_prefix, is_blank, same, starts_with, texts, trim, trimmed};
use crate::write::{
    WriteError, WriteOutcome, exact_tag_query, is_input_error, keep_exact_tag, tag_of, tag_query,
    tag_value, with_tag,
};
use crate::write::input::{TransactionInput, TransactionInputView, option_view};
use crate::write::plan::{
    Action, PostState, Reply, Step, VoidState, declarations, ends_input, ends_internal,
    ensure_declared_accounts, internal, misplaced, post_begins, post_next, start_post, void_begins,
    void_next,
};
use crate::write::view::{DecisionContext, WriteContext};

verus! {

// ---------------------------------------------------------------------------
// Paying an invoice
// ---------------------------------------------------------------------------

/// Where paying an invoice stands.
#[derive(Debug)]
pub enum PayState {
    /// What is owed to the vendor is being read.
    Balance { args: PayInvoiceArgs },
    /// The payment is being posted.
    Posting { post: PostState },
}

/// The step of a payment that a step of its posting makes.
pub open spec fn pay_posts(inner: Step<PostState, WriteOutcome>, r: Step<PayState, WriteOutcome>) -> bool {
    match inner {
        Step::Run(s, a) => r == Step::<PayState, WriteOutcome>::Run(PayState::Posting { post: s }, a),
        Step::Done(done) => r == Step::<PayState, WriteOutcome>::Done(done),
    }
}

/// The payment that is asked for.
pub open spec fn payment(args: PayInvoiceArgs) -> TransactionInputView {
    TransactionInputView {
        date: args.date@,
        description: "pay "@ + args.vendor@,
        postings: seq![
            amount_posting("liabilities:ap:vendor:"@ + args.vendor@, args.money.amount@, args.money.commodity@),
            balancing_posting("assets:checking"@),
        ],
        tags: seq![("vendor"@, args.vendor@)],
        idem: option_view(args.money.idem),
    }
}

/// What follows a reply.
pub open spec fn pay_next(s: PayState, reply: Reply, r: Step<PayState, WriteOutcome>) -> bool {
    match s {
        PayState::Balance { args } => match reply {
            Reply::Balance(Ok(report)) => if shows_debt(report@) {
                exists|input: TransactionInput, inner: Step<PostState, WriteOutcome>|
                    input@ == payment(args) && #[trigger] post_begins(input, inner) && pay_posts(inner, r)
            } else {
                ends_input(r, "vendor '"@ + args.vendor@ + "' has no outstanding AP balance"@)
            },
            Reply::Balance(Err(e)) => ends_internal(r, "AP balance query: "@ + hledger_error_text(e)),
            _ => ends_internal(r, "unexpected reply"@),
        },
        PayState::Posting { post } => exists|inner: Step<PostState, WriteOutcome>|
            #![trigger post_next(post, reply, inner)]
            post_next(post, reply, inner) && pay_posts(inner, r),
    }
}

/// Begins to pay an invoice: what is owed to the vendor is read first.
pub fn pay_invoice(_ctx: &WriteContext, args: PayInvoiceArgs) -> (r: Step<PayState, WriteOutcome>)
    ensures
        r matches Step::Run(PayState::Balance { args: a }, Action::BalanceFlat { account }) && a == args && account@
            == "liabilities:ap:vendor:"@ + args.vendor@,
{
    let account: String = vendor_ap_account(&args.vendor);
    Step::Run(PayState::Balance { args }, Action::BalanceFlat { account })
}

fn pay_by(inner: Step<PostState, WriteOutcome>) -> (r: Step<PayState, WriteOutcome>)
    ensures
        pay_posts(inner, r),
{
    match inner {
        Step::Run(post, action) => Step::Run(PayState::Posting { post }, action),
        Step::Done(done) => Step::Done(done),
    }
}

impl PayState {
    /// What follows the reply to the last action.
    pub fn step(self, reply: Reply) -> (r: Step<PayState, WriteOutcome>)
        ensures
            pay_next(self, reply, r),
    {
        match self {
            PayState::Balance { args } => match reply {
                Reply::Balance(Ok(report)) => if has_outstanding_ap(&report) {
                    let input: TransactionInput = pay_invoice_input(
                        args.date,
                        &args.vendor,
                        args.money.amount,
                        args.money.commodity,
                        args.money.idem,
                    );
                    let inner: Step<PostState, WriteOutcome> = start_post(input);
                    let r: Step<PayState, WriteOutcome> = pay_by(inner);
                    assert(input@ == payment(args) && post_begins(input, inner) && pay_posts(inner, r));
                    r
                } else {
                    Step::Done(
                        Err(WriteError::Input(cat3("vendor '", &args.vendor, "' has no outstanding AP balance"))),
                    )
                },
                Reply::Balance(Err(e)) => internal("AP balance query: ", &e),
                _ => misplaced(),
            },
            PayState::Posting { post } => {
                let inner: Step<PostState, WriteOutcome> = post.step(reply);
                let r: Step<PayState, WriteOutcome> = pay_by(inner);
                assert(post_next(post, reply, inner) && pay_posts(inner, r));
                r
            },
        }
    }
}

/// Nothing is paid to a vendor to whom nothing is owed.
pub proof fn law_nothing_owed_nothing_paid(
    args: PayInvoiceArgs,
    report: BalanceReport,
    r: Step<PayState, WriteOutcome>,
)
    requires
        pay_next(PayState::Balance { args }, Reply::Balance(Ok(report)), r),
    ensures
        r is Done <==> !shows_debt(report@),
        r is Done ==> r->Done_0 is Err,
{
}

// ---------------------------------------------------------------------------
// Recording a change order
// ---------------------------------------------------------------------------

/// Is it a trade name that change orders cannot have?
pub open spec fn is_reserved_trade(trade: Seq<char>) -> bool {
    trade == "pending"@ || starts_with(trade, "pending:"@)
}

/// A change order and the write that recorded it.
#[derive(Debug)]
pub struct RecordedOrder {
    pub eco: String,
    pub outcome: WriteOutcome,
}

/// Where recording a change order stands.
#[derive(Debug)]
pub enum CreateState {
    /// An order of the same name is being looked for.
    Lookup { args: EcoCreateArgs },
    /// The declared accounts are being read.
    Declared { args: EcoCreateArgs },
    /// The accounts of the trade are being declared.
    Declaring { args: EcoCreateArgs },
    /// The order is being posted.
    Posting { eco: String, post: PostState },
}

/// The transaction that is asked for.
pub open spec fn order_recorded(args: EcoCreateArgs) -> TransactionInputView {
    eco_created(
        args.date@,
        args.eco@,
        args.trade@,
        args.vendor@,
        args.description@,
        args.money.amount@,
        args.money.commodity@,
        option_view(args.money.idem),
    )
}

/// The step of recording that a step of its posting makes.
pub open spec fn create_posts(
    inner: Step<PostState, WriteOutcome>,
    eco: Seq<char>,
    r: Step<CreateState, RecordedOrder>,
) -> bool {
    match inner {
        Step::Run(s, a) => r matches Step::Run(CreateState::Posting { eco: e, post }, action) && e@ == eco && post == s
            && action == a,
        Step::Done(Ok(out)) => r matches Step::Done(Ok(recorded)) && recorded.eco@ == eco && recorded.outcome == out,
        Step::Done(Err(e)) => r == Step::<CreateState, RecordedOrder>::Done(Err(e)),
    }
}

/// Does the posting of the order begin?
pub open spec fn create_begins_post(args: EcoCreateArgs, r: Step<CreateState, RecordedOrder>) -> bool {
    exists|input: TransactionInput, inner: Step<PostState, WriteOutcome>|
        input@ == order_recorded(args) && #[trigger] post_begins(input, inner) && create_posts(inner, args.eco@, r)
}

/// The accounts that a change order of a trade needs: the pending one and the approved one.
pub open spec fn order_accounts(trade: Seq<char>) -> Seq<Seq<char>> {
    seq!["expenses:change orders:pending:"@ + trade, "expenses:change orders:"@ + trade]
}

/// What follows a reply.
pub open spec fn create_next(s: CreateState, reply: Reply, r: Step<CreateState, RecordedOrder>) -> bool {
    match s {
        CreateState::Lookup { args } => match reply {
            Reply::Transactions(Ok(txns)) => if with_tag(transactions_view(txns@), "eco"@, args.eco@).len() > 0 {
                ends_input(r, "change order '"@ + args.eco@ + "' already exists"@)
            } else {
                r matches Step::Run(CreateState::Declared { args: a }, Action::DeclaredAccounts) && a == args
            },
            Reply::Transactions(Err(e)) => ends_internal(r, "eco lookup: "@ + hledger_error_text(e)),
            _ => ends_internal(r, "unexpected reply"@),
        },
        CreateState::Declared { args } => match reply {
            Reply::Names(Ok(names)) => match declarations(order_accounts(args.trade@), texts(names@)) {
                Err(m) => ends_input(r, m),
                Ok(text) => if text.len() == 0 {
                    create_begins_post(args, r)
                } else {
                    r matches Step::Run(CreateState::Declaring { args: a }, Action::Append { addition, message }) && a
                        == args && addition@ == text && message@ == "declare accounts"@
                },
            },
            Reply::Names(Err(e)) => ends_internal(r, "read declared accounts: "@ + hledger_error_text(e)),
            _ => ends_internal(r, "unexpected reply"@),
        },
        CreateState::Declaring { args } => match reply {
            Reply::Committed(Ok(_)) => create_begins_post(args, r),
            Reply::Committed(Err(e)) => r == Step::<CreateState, RecordedOrder>::Done(Err(e)),
            _ => ends_internal(r, "unexpected reply"@),
        },
        CreateState::Posting { eco, post } => exists|inner: Step<PostState, WriteOutcome>|
            #![trigger post_next(post, reply, inner)]
            post_next(post, reply, inner) && create_posts(inner, eco@, r),
    }
}

/// How recording a change order begins. Its name is what was given without the white space
/// around it, which no tag keeps.
pub open spec fn create_begins(args: EcoCreateArgs, r: Step<CreateState, RecordedOrder>) -> bool {
    if is_reserved_trade(args.trade@) {
        ends_input(r, "'pending' is a reserved trade name under change orders"@)
    } else {
        r matches Step::Run(CreateState::Lookup { args: a }, Action::Print { query }) && a.eco@ == trim(args.eco@) && a
            == (EcoCreateArgs { eco: a.eco, ..args }) && query@ == exact_tag_query("eco"@, a.eco@)
    }
}

/// Begins to record a change order.
pub fn eco_create(_ctx: &WriteContext, args: EcoCreateArgs) -> (r: Step<CreateState, RecordedOrder>)
    ensures
        create_begins(args, r),
{
    if same(&args.trade, "pending") || has_prefix(&args.trade, "pending:") {
        return Step::Done(
            Err(WriteError::Input("'pending' is a reserved trade name under change orders".to_owned())),
        );
    }
    let eco: String = trimmed(&args.eco);
    let query: String = tag_query("eco", &eco);
    Step::Run(
        CreateState::Lookup {
            args: EcoCreateArgs {
                eco,
                trade: args.trade,
                vendor: args.vendor,
                description: args.description,
                date: args.date,
                money: args.money,
            },
        },
        Action::Print { query },
    )
}

fn create_by(inner: Step<PostState, WriteOutcome>, eco: String) -> (r: Step<CreateState, RecordedOrder>)
    ensures
        create_posts(inner, eco@, r),
{
    match inner {
        Step::Run(post, action) => Step::Run(CreateState::Posting { eco, post }, action),
        Step::Done(Ok(outcome)) => Step::Done(Ok(RecordedOrder { eco, outcome })),
        Step::Done(Err(e)) => Step::Done(Err(e)),
    }
}

fn create_start_post(args: EcoCreateArgs) -> (r: Step<CreateState, RecordedOrder>)
    ensures
        create_begins_post(args, r),
{
    let input: TransactionInput = eco_create_input(
        args.date,
        &args.eco,
        &args.trade,
        &args.vendor,
        &args.description,
        args.money.amount,
        args.money.commodity,
        args.money.idem,
    );
    let inner: Step<PostState, WriteOutcome> = start_post(input);
    let r: Step<CreateState, RecordedOrder> = create_by(inner, args.eco);
    assert(input@ == order_recorded(args) && post_begins(input, inner) && create_posts(inner, args.eco@, r));
    r
}

impl CreateState {
    /// What follows the reply to the last action.
    pub fn step(self, reply: Reply) -> (r: Step<CreateState, RecordedOrder>)
        ensures
            create_next(self, reply, r),
    {
        match self {
            CreateState::Lookup { args } => match reply {
                Reply::Transactions(Ok(txns)) => {
                    let found: Vec<Transaction> = keep_exact_tag(txns, "eco", &args.eco);
                    assert(transactions_view(found@).len() == found@.len());
                    if found.len() > 0 {
                        Step::Done(Err(WriteError::Input(cat3("change order '", &args.eco, "' already exists"))))
                    } else {
                        Step::Run(CreateState::Declared { args }, Action::DeclaredAccounts)
                    }
                },
                Reply::Transactions(Err(e)) => internal("eco lookup: ", &e),
                _ => misplaced(),
            },
            CreateState::Declared { args } => match reply {
                Reply::Names(Ok(names)) => {
                    let mut wanted: Vec<String> = Vec::new();
                    wanted.push(eco_pending_account(&args.trade));
                    wanted.push(eco_account(&args.trade));
                    assert(texts(wanted@) =~= order_accounts(args.trade@));
                    match ensure_declared_accounts(&wanted, &names) {
                        Err(e) => Step::Done(Err(e)),
                        Ok(addition) => if is_blank(&addition) {
                            create_start_post(args)
                        } else {
                            Step::Run(
                                CreateState::Declaring { args },
                                Action::Append { addition, message: "declare accounts".to_owned() },
                            )
                        },
                    }
                },
                Reply::Names(Err(e)) => internal("read declared accounts: ", &e),
                _ => misplaced(),
            },
            CreateState::Declaring { args } => match reply {
                Reply::Committed(Ok(_)) => create_start_post(args),
                Reply::Committed(Err(e)) => Step::Done(Err(e)),
                _ => misplaced(),
            },
            CreateState::Posting { eco, post } => {
                let inner: Step<PostState, WriteOutcome> = post.step(reply);
                let r: Step<CreateState, RecordedOrder> = create_by(inner, eco);
                assert(post_next(post, reply, inner) && create_posts(inner, eco@, r));
                r
            },
        }
    }
}

// ---------------------------------------------------------------------------
// What happened to a change order
// ---------------------------------------------------------------------------

/// What the transactions of a change order tell of it.
#[derive(Debug)]
pub struct EcoEvents {
    /// The name of the order.
    pub eco: String,
    /// The transaction that recorded it, if it exists.
    pub created: Option<Transaction>,
    /// Is there a transaction that approved it?
    pub approved: bool,
    /// The identifiers of its transactions that are not reversed yet.
    pub unreversed: Vec<String>,
}

/// Does the transaction mark this event?
pub open spec fn marks_event(txn: TransactionView, event: Seq<char>) -> bool {
    exists|i: int| 0 <= i < txn.tags.len() && #[trigger] txn.tags[i] == ("eco_event"@, event)
}

/// The first transaction that marks the event.
pub open spec fn first_event(txns: Seq<TransactionView>, event: Seq<char>) -> Option<TransactionView>
    decreases txns.len(),
{
    if txns.len() == 0 {
        None
    } else if marks_event(txns[0], event) {
        Some(txns[0])
    } else {
        first_event(txns.skip(1), event)
    }
}

/// The identifiers of the transactions, without those that have none.
pub open spec fn ids_of(txns: Seq<TransactionView>) -> Seq<Seq<char>>
    decreases txns.len(),
{
    if txns.len() == 0 {
        Seq::empty()
    } else {
        match tag_of(txns.last().tags, "id"@) {
            Some(id) => ids_of(txns.drop_last()).push(id),
            None => ids_of(txns.drop_last()),
        }
    }
}

/// What an optional transaction holds.
pub open spec fn transaction_view(t: Option<Transaction>) -> Option<TransactionView> {
    match t {
        Some(t) => Some(t@),
        None => None,
    }
}

impl EcoEvents {
    /// The transaction that recorded the order, or the error for an unknown one.
    pub fn created(&self) -> (r: Result<&Transaction, WriteError>)
        ensures
            match self.created {
                Some(t) => r matches Ok(found) && *found == t,
                None => r matches Err(e) && is_input_error(
                    e,
                    "unknown change order '"@ + self.eco@ + "' — record it first with eco_create"@,
                ),
            },
    {
        match &self.created {
            Some(t) => Ok(t),
            None => Err(
                WriteError::Input(
                    cat3("unknown change order '", &self.eco, "' — record it first with eco_create"),
                ),
            ),
        }
    }
}

/// Where reading what happened to a change order stands.
#[derive(Debug)]
pub enum EventsState {
    /// Its transactions are being read.
    Lookup { eco: String },
    /// Of its transactions with these identifiers, the one at `at` is being looked for among
    /// those that others reverse.
    Reversals { found: EcoEvents, ids: Vec<String>, at: usize },
}

/// Does the search for the reversal of the identifier at `at` begin, or is the reading done?
pub open spec fn events_go_on(
    eco: Seq<char>,
    created: Option<TransactionView>,
    approved: bool,
    unreversed: Seq<Seq<char>>,
    ids: Seq<Seq<char>>,
    at: int,
    r: Step<EventsState, EcoEvents>,
) -> bool {
    if at < ids.len() {
        r matches Step::Run(EventsState::Reversals { found, ids: i, at: a }, Action::Print { query }) && events_are(
            found,
            eco,
            created,
            approved,
            unreversed,
        ) && texts(i@) == ids && a == at && query@ == exact_tag_query("reverses"@, ids[at])
    } else {
        r matches Step::Done(Ok(found)) && events_are(found, eco, created, approved, unreversed)
    }
}

/// Are these the events of the order?
pub open spec fn events_are(
    found: EcoEvents,
    eco: Seq<char>,
    created: Option<TransactionView>,
    approved: bool,
    unreversed: Seq<Seq<char>>,
) -> bool {
    found.eco@ == eco && transaction_view(found.created) == created && found.approved == approved && texts(
        found.unreversed@,
    ) == unreversed
}

/// What follows a reply.
pub open spec fn events_next(s: EventsState, reply: Reply, r: Step<EventsState, EcoEvents>) -> bool {
    match s {
        EventsState::Lookup { eco } => match reply {
            Reply::Transactions(Ok(txns)) => {
                let found = with_tag(transactions_view(txns@), "eco"@, eco@);
                events_go_on(
                    eco@,
                    first_event(found, "created"@),
                    first_event(found, "approved"@) is Some,
                    Seq::empty(),
                    ids_of(found),
                    0,
                    r,
                )
            },
            Reply::Transactions(Err(e)) => ends_internal(r, "eco lookup: "@ + hledger_error_text(e)),
            _ => ends_internal(r, "unexpected reply"@),
        },
        EventsState::Reversals { found, ids, at } => match reply {
            Reply::Transactions(Ok(txns)) => if at < ids@.len() {
                let id = ids@[at as int]@;
                let open = if with_tag(transactions_view(txns@), "reverses"@, id).len() == 0 {
                    texts(found.unreversed@).push(id)
                } else {
                    texts(found.unreversed@)
                };
                events_go_on(
                    found.eco@,
                    transaction_view(found.created),
                    found.approved,
                    open,
                    texts(ids@),
                    at + 1,
                    r,
                )
            } else {
                ends_internal(r, "unexpected reply"@)
            },
            Reply::Transactions(Err(e)) => ends_internal(r, "eco lookup: "@ + hledger_error_text(e)),
            _ => ends_internal(r, "unexpected reply"@),
        },
    }
}

/// How reading what happened to a change order begins.
pub open spec fn events_begin(eco: Seq<char>, r: Step<EventsState, EcoEvents>) -> bool {
    r matches Step::Run(EventsState::Lookup { eco: e }, Action::Print { query }) && e@ == eco && query@
        == exact_tag_query("eco"@, eco)
}

/// Begins to read what happened to a change order.
pub fn eco_events(eco: &str) -> (r: Step<EventsState, EcoEvents>)
    ensures
        events_begin(eco@, r),
{
    Step::Run(EventsState::Lookup { eco: eco.to_owned() }, Action::Print { query: tag_query("eco", eco) })
}

fn marks(txn: &Transaction, event: &str) -> (r: bool)
    ensures
        r == marks_event(txn@, event@),
{
    let mut i: usize = 0;
    while i < txn.tags.len()
        invariant
            i <= txn.tags.len(),
            forall|j: int| 0 <= j < i ==> #[trigger] txn@.tags[j] != ("eco_event"@, event@),
        decreases txn.tags.len() - i,
    {
        if same(&txn.tags[i].0, "eco_event") && same(&txn.tags[i].1, event) {
            assert(txn@.tags[i as int] == ("eco_event"@, event@));
            return true;
        }
        i += 1;
    }
    false
}

/// Where the first transaction that marks the event stands, or the number of transactions.
fn find_event(txns: &Vec<Transaction>, event: &str) -> (r: usize)
    ensures
        r <= txns.len(),
        first_event(transactions_view(txns@), event@) == if r < txns.len() {
            Some(txns@[r as int]@)
        } else {
            None
        },
{
    let ghost all = transactions_view(txns@);
    let mut i: usize = 0;
    assert(all.skip(0) =~= all);
    while i < txns.len()
        invariant
            i <= txns.len(),
            all == transactions_view(txns@),
            first_event(all, event@) == first_event(all.skip(i as int), event@),
        decreases txns.len() - i,
    {
        assert(all.skip(i as int)[0] == txns@[i as int]@);
        if marks(&txns[i], event) {
            return i;
        }
        proof {
            assert(all.skip(i as int).skip(1) =~= all.skip(i + 1));
        }
        i += 1;
    }
    i
}

fn collect_ids(txns: &Vec<Transaction>) -> (r: Vec<String>)
    ensures
        texts(r@) == ids_of(transactions_view(txns@)),
{
    let ghost all = transactions_view(txns@);
    let mut out: Vec<String> = Vec::new();
    let mut i: usize = 0;
    assert(texts(out@) =~= ids_of(all.take(0)));
    while i < txns.len()
        invariant
            i <= txns.len(),
            all == transactions_view(txns@),
            texts(out@) == ids_of(all.take(i as int)),
        decreases txns.len() - i,
    {
        let ghost before = texts(out@);
        proof {
            assert(all.take(i + 1).drop_last() =~= all.take(i as int));
            assert(all.take(i + 1).last() == txns@[i as int]@);
        }
        if let Some(id) = tag_value(&txns[i], "id") {
            out.push(id);
            assert(texts(out@) =~= before.push(id@));
        }
        i += 1;
    }
    assert(all.take(i as int) =~= all);
    out
}

fn go_on(found: EcoEvents, ids: Vec<String>, at: usize) -> (r: Step<EventsState, EcoEvents>)
    ensures
        events_go_on(
            found.eco@,
            transaction_view(found.created),
            found.approved,
            texts(found.unreversed@),
            texts(ids@),
            at as int,
            r,
        ),
{
    if at < ids.len() {
        let query: String = tag_query("reverses", &ids[at]);
        Step::Run(EventsState::Reversals { found, ids, at }, Action::Print { query })
    } else {
        Step::Done(Ok(found))
    }
}

impl EventsState {
    /// What follows the reply to the last action.
    pub fn step(self, reply: Reply) -> (r: Step<EventsState, EcoEvents>)
        ensures
            events_next(self, reply, r),
    {
        match self {
            EventsState::Lookup { eco } => match reply {
                Reply::Transactions(Ok(txns)) => {
                    let mut found: Vec<Transaction> = keep_exact_tag(txns, "eco", &eco);
                    let ids: Vec<String> = collect_ids(&found);
                    let approved: bool = find_event(&found, "approved") < found.len();
                    let k: usize = find_event(&found, "created");
                    let created: Option<Transaction> = if k < found.len() {
                        Some(found.swap_remove(k))
                    } else {
                        None
                    };
                    let unreversed: Vec<String> = Vec::new();
                    assert(texts(unreversed@) =~= Seq::empty());
                    go_on(EcoEvents { eco, created, approved, unreversed }, ids, 0)
                },
                Reply::Transactions(Err(e)) => internal("eco lookup: ", &e),
                _ => misplaced(),
            },
            EventsState::Reversals { found, ids, at } => match reply {
                Reply::Transactions(Ok(txns)) => {
                    if at >= ids.len() {
                        return misplaced();
                    }
                    let reversing: Vec<Transaction> = keep_exact_tag(txns, "reverses", &ids[at]);
                    assert(transactions_view(reversing@).len() == reversing@.len());
                    let mut found: EcoEvents = found;
                    let ghost before = texts(found.unreversed@);
                    if reversing.len() == 0 {
                        found.unreversed.push(ids[at].clone());
                        assert(texts(found.unreversed@) =~= before.push(ids@[at as int]@));
                    }
                    go_on(found, ids, at + 1)
                },
                Reply::Transactions(Err(e)) => internal("eco lookup: ", &e),
                _ => misplaced(),
            },
        }
    }
}

// ---------------------------------------------------------------------------
// Approving a change order
// ---------------------------------------------------------------------------

/// A change order, the write that approved it, and how its account stands to its budget.
#[derive(Debug)]
pub struct ApprovedOrder {
    pub eco: String,
    pub outcome: WriteOutcome,
    pub budget: Option<BudgetReport>,
}

/// Where approving a change order stands.
#[derive(Debug)]
pub enum ApproveState {
    /// What happened to the order is being read.
    Events { args: EcoRefArgs, events: EventsState },
    /// The approval is being posted.
    Posting { eco: String, trade: String, post: PostState },
    /// It is posted, and the budget is being read.
    Standing { eco: String, outcome: WriteOutcome },
}

/// The step of an approval that a step of its posting makes.
pub open spec fn approve_posts(
    inner: Step<PostState, WriteOutcome>,
    eco: Seq<char>,
    trade: Seq<char>,
    r: Step<ApproveState, ApprovedOrder>,
) -> bool {
    match inner {
        Step::Run(s, a) => r matches Step::Run(ApproveState::Posting { eco: e, trade: t, post }, action) && e@ == eco
            && t@ == trade && post == s && action == a,
        Step::Done(Ok(out)) => r matches Step::Run(ApproveState::Standing { eco: e, outcome }, Action::Budget { account })
            && e@ == eco && outcome == out && account@ == "expenses:change orders:"@ + trade,
        Step::Done(Err(e)) => r == Step::<ApproveState, ApprovedOrder>::Done(Err(e)),
    }
}

/// What is decided on what happened to the order: an order that exists and is not approved
/// yet is approved with the amount that it was recorded with.
pub open spec fn approve_decides(
    found: EcoEvents,
    args: EcoRefArgs,
    r: Step<ApproveState, ApprovedOrder>,
) -> bool {
    match found.created {
        None => ends_input(r, "unknown change order '"@ + found.eco@ + "' — record it first with eco_create"@),
        Some(created) => if found.approved {
            ends_input(r, "change order '"@ + args.eco@ + "' is already approved"@)
        } else {
            match pending_order(created@.postings) {
                None => ends_internal(r, "ECO '"@ + args.eco@ + "' create transaction has no pending-CO posting"@),
                Some((trade, amount)) => exists|input: TransactionInput, inner: Step<PostState, WriteOutcome>|
                    input@ == eco_approved(
                        args.date@,
                        args.eco@,
                        trade,
                        quantity_text(amount.quantity),
                        amount.commodity,
                    ) && #[trigger] post_begins(input, inner) && approve_posts(inner, args.eco@, trade, r),
            }
        },
    }
}

/// The step of an approval that a step of reading the events makes.
pub open spec fn approve_reads(
    inner: Step<EventsState, EcoEvents>,
    args: EcoRefArgs,
    r: Step<ApproveState, ApprovedOrder>,
) -> bool {
    match inner {
        Step::Run(s, a) => r matches Step::Run(ApproveState::Events { args: g, events }, action) && g == args && events
            == s && action == a,
        Step::Done(Ok(found)) => approve_decides(found, args, r),
        Step::Done(Err(e)) => r == Step::<ApproveState, ApprovedOrder>::Done(Err(e)),
    }
}

/// What follows a reply.
pub open spec fn approve_next(s: ApproveState, reply: Reply, r: Step<ApproveState, ApprovedOrder>) -> bool {
    match s {
        ApproveState::Events { args, events } => exists|inner: Step<EventsState, EcoEvents>|
            #![trigger events_next(events, reply, inner)]
            events_next(events, reply, inner) && approve_reads(inner, args, r),
        ApproveState::Posting { eco, trade, post } => exists|inner: Step<PostState, WriteOutcome>|
            #![trigger post_next(post, reply, inner)]
            post_next(post, reply, inner) && approve_posts(inner, eco@, trade@, r),
        ApproveState::Standing { eco, outcome } => match reply {
            Reply::Budget(report) => r matches Step::Done(Ok(order)) && order.eco == eco && order.outcome == outcome
                && order.budget == report,
            _ => ends_internal(r, "unexpected reply"@),
        },
    }
}

/// Are these the arguments with the name of the order in it: what was given without the white
/// space around it, which no tag keeps?
pub open spec fn is_named(named: EcoRefArgs, args: EcoRefArgs) -> bool {
    named.eco@ == trim(args.eco@) && named.date == args.date
}

/// How approving a change order begins.
pub open spec fn approve_begins(args: EcoRefArgs, r: Step<ApproveState, ApprovedOrder>) -> bool {
    exists|named: EcoRefArgs, inner: Step<EventsState, EcoEvents>|
        is_named(named, args) && #[trigger] events_begin(named.eco@, inner) && approve_reads(inner, named, r)
}

/// Begins to approve a change order. It is a decision, so a connection that has not seen the
/// head cannot begin it.
pub fn eco_approve(_ctx: &DecisionContext<'_>, args: EcoRefArgs) -> (r: Step<ApproveState, ApprovedOrder>)
    ensures
        approve_begins(args, r),
{
    let named: EcoRefArgs = EcoRefArgs { eco: trimmed(&args.eco), date: args.date };
    let inner: Step<EventsState, EcoEvents> = eco_events(&named.eco);
    let r: Step<ApproveState, ApprovedOrder> = approve_on(inner, named);
    assert(is_named(named, args) && events_begin(named.eco@, inner) && approve_reads(inner, named, r));
    r
}

fn approve_by(inner: Step<PostState, WriteOutcome>, eco: String, trade: String) -> (r: Step<
    ApproveState,
    ApprovedOrder,
>)
    ensures
        approve_posts(inner, eco@, trade@, r),
{
    match inner {
        Step::Run(post, action) => Step::Run(ApproveState::Posting { eco, trade, post }, action),
        Step::Done(Ok(outcome)) => {
            let account: String = eco_account(&trade);
            Step::Run(ApproveState::Standing { eco, outcome }, Action::Budget { account })
        },
        Step::Done(Err(e)) => Step::Done(Err(e)),
    }
}

fn approve_found(found: EcoEvents, args: EcoRefArgs) -> (r: Step<ApproveState, ApprovedOrder>)
    ensures
        approve_decides(found, args, r),
{
    let created: &Transaction = match found.created() {
        Ok(created) => created,
        Err(e) => {
            return Step::Done(Err(e));
        },
    };
    if found.approved {
        return Step::Done(Err(WriteError::Input(cat3("change order '", &args.eco, "' is already approved"))));
    }
    match eco_details(created) {
        None => Step::Done(
            Err(WriteError::Internal(cat3("ECO '", &args.eco, "' create transaction has no pending-CO posting"))),
        ),
        Some((trade, amount)) => {
            let input: TransactionInput = eco_approve_input(
                args.date,
                &args.eco,
                &trade,
                amount.quantity.render(),
                amount.commodity.clone(),
            );
            let inner: Step<PostState, WriteOutcome> = start_post(input);
            let r: Step<ApproveState, ApprovedOrder> = approve_by(inner, args.eco, trade);
            proof {
                let (t, a) = pending_order(created@.postings)->0;
                assert(input@ == eco_approved(args.date@, args.eco@, t, quantity_text(a.quantity), a.commodity)
                    && post_begins(input, inner) && approve_posts(inner, args.eco@, t, r));
            }
            r
        },
    }
}

fn approve_on(inner: Step<EventsState, EcoEvents>, args: EcoRefArgs) -> (r: Step<ApproveState, ApprovedOrder>)
    ensures
        approve_reads(inner, args, r),
{
    match inner {
        Step::Run(events, action) => Step::Run(ApproveState::Events { args, events }, action),
        Step::Done(Ok(found)) => approve_found(found, args),
        Step::Done(Err(e)) => Step::Done(Err(e)),
    }
}

impl ApproveState {
    /// What follows the reply to the last action.
    pub fn step(self, reply: Reply) -> (r: Step<ApproveState, ApprovedOrder>)
        ensures
            approve_next(self, reply, r),
    {
        match self {
            ApproveState::Events { args, events } => {
                let inner: Step<EventsState, EcoEvents> = events.step(reply);
                let r: Step<ApproveState, ApprovedOrder> = approve_on(inner, args);
                assert(events_next(events, reply, inner) && approve_reads(inner, args, r));
                r
            },
            ApproveState::Posting { eco, trade, post } => {
                let inner: Step<PostState, WriteOutcome> = post.step(reply);
                let r: Step<ApproveState, ApprovedOrder> = approve_by(inner, eco, trade);
                assert(post_next(post, reply, inner) && approve_posts(inner, eco@, trade@, r));
                r
            },
            ApproveState::Standing { eco, outcome } => match reply {
                Reply::Budget(budget) => Step::Done(Ok(ApprovedOrder { eco, outcome, budget })),
                _ => misplaced(),
            },
        }
    }
}

// ---------------------------------------------------------------------------
// Voiding a change order
// ---------------------------------------------------------------------------

/// A change order, how many of its transactions were reversed, and the last of these writes.
#[derive(Debug)]
pub struct VoidedOrder {
    pub eco: String,
    pub count: usize,
    pub last: WriteOutcome,
}

/// Where voiding a change order stands.
#[derive(Debug)]
pub enum EcoVoidState {
    /// What happened to the order is being read.
    Events { eco: String, events: EventsState },
    /// Of its transactions that are not reversed yet, the one at `at` is being voided.
    Voiding { eco: String, targets: Vec<String>, at: usize, void: VoidState },
}

/// The step that a step of voiding the transaction at `at` makes: once it is voided, the
/// next one is, and after the last one all is done.
pub open spec fn order_voids(
    inner: Step<VoidState, WriteOutcome>,
    eco: Seq<char>,
    targets: Seq<Seq<char>>,
    at: int,
    r: Step<EcoVoidState, VoidedOrder>,
) -> bool {
    match inner {
        Step::Run(s, a) => r matches Step::Run(EcoVoidState::Voiding { eco: e, targets: t, at: k, void }, action) && e@
            == eco && texts(t@) == targets && k == at && void == s && action == a,
        Step::Done(Ok(out)) => if at + 1 < targets.len() {
            order_void_begins(eco, targets, at + 1, r)
        } else {
            r matches Step::Done(Ok(order)) && order.eco@ == eco && order.count == targets.len() && order.last == out
        },
        Step::Done(Err(e)) => r == Step::<EcoVoidState, VoidedOrder>::Done(Err(e)),
    }
}

/// Does voiding the transaction at `at` begin?
pub open spec fn order_void_begins(
    eco: Seq<char>,
    targets: Seq<Seq<char>>,
    at: int,
    r: Step<EcoVoidState, VoidedOrder>,
) -> bool {
    r matches Step::Run(EcoVoidState::Voiding { eco: e, targets: t, at: k, void }, action) && e@ == eco && texts(t@)
        == targets && k == at && void_begins(targets[at], Step::<VoidState, WriteOutcome>::Run(void, action))
}

/// What is decided on what happened to the order.
pub open spec fn order_void_decides(found: EcoEvents, eco: Seq<char>, r: Step<EcoVoidState, VoidedOrder>) -> bool {
    if found.created is None {
        ends_input(r, "unknown change order '"@ + found.eco@ + "' — record it first with eco_create"@)
    } else if found.unreversed@.len() == 0 {
        ends_input(r, "change order '"@ + eco + "' is already fully voided"@)
    } else {
        order_void_begins(eco, texts(found.unreversed@), 0, r)
    }
}

/// The step that a step of reading the events makes.
pub open spec fn order_void_reads(
    inner: Step<EventsState, EcoEvents>,
    eco: Seq<char>,
    r: Step<EcoVoidState, VoidedOrder>,
) -> bool {
    match inner {
        Step::Run(s, a) => r matches Step::Run(EcoVoidState::Events { eco: e, events }, action) && e@ == eco && events
            == s && action == a,
        Step::Done(Ok(found)) => order_void_decides(found, eco, r),
        Step::Done(Err(e)) => r == Step::<EcoVoidState, VoidedOrder>::Done(Err(e)),
    }
}

/// What follows a reply.
pub open spec fn eco_void_next(s: EcoVoidState, reply: Reply, r: Step<EcoVoidState, VoidedOrder>) -> bool {
    match s {
        EcoVoidState::Events { eco, events } => exists|inner: Step<EventsState, EcoEvents>|
            #![trigger events_next(events, reply, inner)]
            events_next(events, reply, inner) && order_void_reads(inner, eco@, r),
        EcoVoidState::Voiding { eco, targets, at, void } => exists|inner: Step<VoidState, WriteOutcome>|
            #![trigger void_next(void, reply, inner)]
            void_next(void, reply, inner) && order_voids(inner, eco@, texts(targets@), at as int, r),
    }
}

/// How voiding the change order of this name begins.
pub open spec fn eco_void_begins(eco: Seq<char>, r: Step<EcoVoidState, VoidedOrder>) -> bool {
    exists|inner: Step<EventsState, EcoEvents>|
        #![trigger events_begin(eco, inner)]
        events_begin(eco, inner) && order_void_reads(inner, eco, r)
}

/// Begins to void a change order: each of its transactions that is not reversed yet is.
pub fn eco_void(_ctx: &WriteContext, args: EcoRefArgs) -> (r: Step<EcoVoidState, VoidedOrder>)
    ensures
        eco_void_begins(trim(args.eco@), r),
{
    let eco: String = trimmed(&args.eco);
    let inner: Step<EventsState, EcoEvents> = eco_events(&eco);
    let r: Step<EcoVoidState, VoidedOrder> = void_on(inner, eco);
    assert(events_begin(eco@, inner) && order_void_reads(inner, eco@, r));
    r
}

fn void_nth(eco: String, targets: Vec<String>, at: usize) -> (r: Step<EcoVoidState, VoidedOrder>)
    requires
        at < targets.len(),
    ensures
        order_void_begins(eco@, texts(targets@), at as int, r),
{
    let query: String = tag_query("id", &targets[at]);
    let void: VoidState = VoidState::Lookup { target_id: targets[at].clone() };
    Step::Run(EcoVoidState::Voiding { eco, targets, at, void }, Action::Print { query })
}

fn void_on(inner: Step<EventsState, EcoEvents>, eco: String) -> (r: Step<EcoVoidState, VoidedOrder>)
    ensures
        order_void_reads(inner, eco@, r),
{
    match inner {
        Step::Run(events, action) => Step::Run(EcoVoidState::Events { eco, events }, action),
        Step::Done(Ok(found)) => {
            if let Err(e) = found.created() {
                return Step::Done(Err(e));
            }
            if found.unreversed.len() == 0 {
                return Step::Done(
                    Err(WriteError::Input(cat3("change order '", &eco, "' is already fully voided"))),
                );
            }
            void_nth(eco, found.unreversed, 0)
        },
        Step::Done(Err(e)) => Step::Done(Err(e)),
    }
}

impl EcoVoidState {
    /// What follows the reply to the last action.
    pub fn step(self, reply: Reply) -> (r: Step<EcoVoidState, VoidedOrder>)
        ensures
            eco_void_next(self, reply, r),
    {
        match self {
            EcoVoidState::Events { eco, events } => {
                let inner: Step<EventsState, EcoEvents> = events.step(reply);
                let r: Step<EcoVoidState, VoidedOrder> = void_on(inner, eco);
                assert(events_next(events, reply, inner) && order_void_reads(inner, eco@, r));
                r
            },
            EcoVoidState::Voiding { eco, targets, at, void } => {
                let inner: Step<VoidState, WriteOutcome> = void.step(reply);
                let r: Step<EcoVoidState, VoidedOrder> = match inner {
                    Step::Run(next, action) => Step::Run(
                        EcoVoidState::Voiding { eco, targets, at, void: next },
                        action,
                    ),
                    Step::Done(Ok(last)) => if at < targets.len() && at + 1 < targets.len() {
                        void_nth(eco, targets, at + 1)
                    } else {
                        let count: usize = targets.len();
                        Step::Done(Ok(VoidedOrder { eco, count, last }))
                    },
                    Step::Done(Err(e)) => Step::Done(Err(e)),
                };
                assert(void_next(void, reply, inner) && order_voids(inner, eco@, texts(targets@), at as int, r));
                r
            },
        }
    }
}

// ---------------------------------------------------------------------------
// Laws
// ---------------------------------------------------------------------------

/// A change order is approved at most once: nothing is posted for one that does not exist or
/// that is approved already.
pub proof fn law_approved_once(found: EcoEvents, args: EcoRefArgs, r: Step<ApproveState, ApprovedOrder>)
    requires
        approve_decides(found, args, r),
        found.created is None || found.approved,
    ensures
        r matches Step::Done(Err(e)) && e is Input,
{
}

/// What is approved is what was recorded: the approval moves the amount, the commodity and
/// the trade that the order was recorded with, whatever the caller believes them to be.
pub proof fn law_approval_is_of_the_recorded_amount(
    found: EcoEvents,
    args: EcoRefArgs,
    r: Step<ApproveState, ApprovedOrder>,
)
    requires
        approve_decides(found, args, r),
        r is Run,
    ensures
        found.created matches Some(created) && pending_order(created@.postings) matches Some((trade, amount))
            && exists|input: TransactionInput, inner: Step<PostState, WriteOutcome>|
            input@.postings == seq![
                amount_posting(
                    "expenses:change orders:"@ + trade,
                    quantity_text(amount.quantity),
                    amount.commodity,
                ),
                balancing_posting("expenses:change orders:pending:"@ + trade),
            ] && #[trigger] post_begins(input, inner) && approve_posts(inner, args.eco@, trade, r),
{
    let created = found.created->0;
    let (trade, amount) = pending_order(created@.postings)->0;
    let (input, inner) = choose|input: TransactionInput, inner: Step<PostState, WriteOutcome>|
        input@ == eco_approved(args.date@, args.eco@, trade, quantity_text(amount.quantity), amount.commodity)
            && #[trigger] post_begins(input, inner) && approve_posts(inner, args.eco@, trade, r);
    assert(post_begins(input, inner));
}

/// What the replies to the searches for reversals leave open: the identifiers for which
/// nothing was found that reverses them.
pub open spec fn still_open(ids: Seq<Seq<char>>, replies: Seq<Seq<TransactionView>>) -> Seq<Seq<char>>
    decreases replies.len(),
{
    if replies.len() == 0 {
        Seq::empty()
    } else {
        let init = still_open(ids, replies.drop_last());
        let id = ids[replies.len() - 1];
        if with_tag(replies.last(), "reverses"@, id).len() == 0 {
            init.push(id)
        } else {
            init
        }
    }
}

/// One step of reading what happened to a change order.
pub struct EventsTurn {
    pub state: EventsState,
    pub txns: Vec<Transaction>,
    pub step: Step<EventsState, EcoEvents>,
}

/// Is it the course of reading what happened to the order, with every search answered?
pub open spec fn events_course(turns: Seq<EventsTurn>, eco: Seq<char>) -> bool {
    &&& turns.len() > 0
    &&& (turns[0].state matches EventsState::Lookup { eco: e } && e@ == eco)
    &&& forall|i: int|
        0 <= i < turns.len() ==> events_next(
            (#[trigger] turns[i]).state,
            Reply::Transactions(Ok(turns[i].txns)),
            turns[i].step,
        )
    &&& forall|i: int|
        0 < i < turns.len() ==> (turns[i - 1].step matches Step::Run(s, _) && (#[trigger] turns[i]).state == s)
}

/// The replies to the searches for reversals, which follow the first one.
pub open spec fn reversal_replies(turns: Seq<EventsTurn>, n: nat) -> Seq<Seq<TransactionView>> {
    Seq::new(n, |i: int| transactions_view(turns[i + 1].txns@))
}

proof fn lemma_events_course(turns: Seq<EventsTurn>, eco: Seq<char>, i: int)
    requires
        events_course(turns, eco),
        0 <= i < turns.len(),
    ensures
        ({
            let found = with_tag(transactions_view(turns[0].txns@), "eco"@, eco);
            events_go_on(
                eco,
                first_event(found, "created"@),
                first_event(found, "approved"@) is Some,
                still_open(ids_of(found), reversal_replies(turns, i as nat)),
                ids_of(found),
                i,
                turns[i].step,
            )
        }),
    decreases i,
{
    let found = with_tag(transactions_view(turns[0].txns@), "eco"@, eco);
    let ids = ids_of(found);
    assert(events_next(turns[i].state, Reply::Transactions(Ok(turns[i].txns)), turns[i].step));
    if i == 0 {
        assert(still_open(ids, reversal_replies(turns, 0)) =~= Seq::empty());
    } else {
        lemma_events_course(turns, eco, i - 1);
        assert(turns[i].state == turns[i - 1].step->Run_0);
        let replies = reversal_replies(turns, i as nat);
        assert(replies.drop_last() =~= reversal_replies(turns, (i - 1) as nat));
        assert(replies.last() == transactions_view(turns[i].txns@));
        let s_ids = turns[i].state->Reversals_ids;
        assert(texts(s_ids@) == ids);
        assert(s_ids@[i - 1]@ == ids[i - 1]);
    }
}

/// Reading what happened to a change order tells exactly: the first transaction of the order
/// that marks its recording, whether one marks its approval, and, of the identifiers of its
/// transactions, those that nothing reverses.
pub proof fn law_events_are_complete(turns: Seq<EventsTurn>, eco: Seq<char>)
    requires
        events_course(turns, eco),
        turns.last().step is Done,
    ensures
        turns.last().step matches Step::Done(Ok(ev)) && ({
            let found = with_tag(transactions_view(turns[0].txns@), "eco"@, eco);
            let n = (turns.len() - 1) as nat;
            &&& n >= ids_of(found).len()
            &&& ev.eco@ == eco
            &&& transaction_view(ev.created) == first_event(found, "created"@)
            &&& ev.approved == (first_event(found, "approved"@) is Some)
            &&& texts(ev.unreversed@) == still_open(ids_of(found), reversal_replies(turns, n))
        }),
{
    lemma_events_course(turns, eco, turns.len() - 1);
}

/// A payment takes what is asked for from the checking account and puts it to what is owed to the
/// vendor. It is posted wherever anything is owed, on whatever row of the report and in whatever
/// commodity, and only there.
pub proof fn law_payment_goes_from_checking_to_the_vendor(
    args: PayInvoiceArgs,
    report: BalanceReport,
    r: Step<PayState, WriteOutcome>,
)
    requires
        pay_next(PayState::Balance { args }, Reply::Balance(Ok(report)), r),
    ensures
        (exists|i: int, j: int|
            0 <= i < report@.rows.len() && 0 <= j < report@.rows[i].amounts.len() && (
            #[trigger] report@.rows[i].amounts[j]).quantity.mantissa < 0) <==> r is Run,
        r matches Step::Run(PayState::Posting { post }, action) ==> exists|input: TransactionInput|
            {
                &&& #[trigger] post_begins(input, Step::Run(post, action))
                &&& input@.date == args.date@ && input@.idem == option_view(args.money.idem)
                &&& input@.description == "pay "@ + args.vendor@
                &&& input@.postings.len() == 2
                &&& input@.postings[0].account == "liabilities:ap:vendor:"@ + args.vendor@
                &&& input@.postings[0].amount == Some((args.money.amount@, args.money.commodity@))
                &&& input@.postings[1].account == "assets:checking"@
                &&& input@.postings[1].amount is None
                &&& input@.tags == seq![("vendor"@, args.vendor@)]
            },
        r is Run ==> r->Run_0 is Posting,
        r matches Step::Done(d) ==> ends_input(r, "vendor '"@ + args.vendor@ + "' has no outstanding AP balance"@),
{
    if shows_debt(report@) {
        let (input, inner) = choose|input: TransactionInput, inner: Step<PostState, WriteOutcome>|
            input@ == payment(args) && #[trigger] post_begins(input, inner) && pay_posts(inner, r);
        assert(post_begins(input, inner) && pay_posts(inner, r));
        assert(post_begins(input, Step::Run(r->Run_0->Posting_post, r->Run_1)));
    }
}

/// A change order of a trade needs the pending account of the trade and the account of the trade,
/// and a trade cannot be called `pending`, nor anything below it.
pub proof fn law_change_order_accounts(trade: Seq<char>)
    ensures
        order_accounts(trade).len() == 2,
        order_accounts(trade)[0] == "expenses:change orders:pending:"@ + trade,
        order_accounts(trade)[1] == "expenses:change orders:"@ + trade,
        is_reserved_trade(trade) <==> trade == "pending"@ || (trade.len() >= 8 && trade.take(8) == "pending:"@),
{
    reveal_strlit("pending:");
}

/// The identifiers of two lists of transactions are those of the one and then those of the other;
/// a transaction has the one that its tag tells, or none.
pub proof fn law_every_identifier_is_listed(a: Seq<TransactionView>, b: Seq<TransactionView>, t: TransactionView)
    ensures
        ids_of(a + b) == ids_of(a) + ids_of(b),
        ids_of(Seq::empty()).len() == 0,
        ids_of(seq![t]) == match tag_of(t.tags, "id"@) {
            Some(id) => seq![id],
            None => Seq::empty(),
        },
    decreases b.len(),
{
    if b.len() == 0 {
        assert(a + b =~= a);
        assert(ids_of(a) + ids_of(b) =~= ids_of(a));
    } else {
        law_every_identifier_is_listed(a, b.drop_last(), t);
        assert((a + b).drop_last() =~= a + b.drop_last());
        assert(ids_of(a + b) =~= ids_of(a) + ids_of(b));
    }
    let one = seq![t];
    assert(one.drop_last() =~= Seq::<TransactionView>::empty());
    assert(ids_of(one.drop_last()) =~= Seq::<Seq<char>>::empty());
    assert(one.last() == t);
    assert(ids_of(one) =~= match tag_of(t.tags, "id"@) {
        Some(id) => seq![id],
        None => Seq::empty(),
    });
}

/// The transaction of an event is the first one with a tag `eco_event` that names the event, and
/// there is one wherever a transaction has such a tag, among whatever others.
pub proof fn law_event_is_the_first_of_its_kind(txns: Seq<TransactionView>, event: Seq<char>)
    ensures
        match first_event(txns, event) {
            Some(t) => exists|k: int|
                0 <= k < txns.len() && #[trigger] txns[k] == t && t.tags.contains(("eco_event"@, event)) && forall|m: int|
                    0 <= m < k ==> !(#[trigger] txns[m]).tags.contains(("eco_event"@, event)),
            None => forall|m: int| 0 <= m < txns.len() ==> !(#[trigger] txns[m]).tags.contains(("eco_event"@, event)),
        },
    decreases txns.len(),
{
    if txns.len() > 0 {
        let own = ("eco_event"@, event);
        let first = txns[0];
        if first.tags.contains(own) {
            let i = choose|i: int| 0 <= i < first.tags.len() && first.tags[i] == own;
            assert(first.tags[i] == own);
            assert(marks_event(first, event));
            assert(txns[0] == first);
        } else {
            assert(!marks_event(first, event)) by {
                if marks_event(first, event) {
                    let i = choose|i: int| 0 <= i < first.tags.len() && #[trigger] first.tags[i] == own;
                    assert(first.tags.contains(own));
                }
            }
            let rest = txns.skip(1);
            law_event_is_the_first_of_its_kind(rest, event);
            match first_event(rest, event) {
                Some(t) => {
                    let k = choose|k: int|
                        0 <= k < rest.len() && #[trigger] rest[k] == t && t.tags.contains(own) && forall|m: int|
                            0 <= m < k ==> !(#[trigger] rest[m]).tags.contains(own);
                    assert(txns[k + 1] == t);
                    assert forall|m: int| 0 <= m < k + 1 implies !(#[trigger] txns[m]).tags.contains(own) by {
                        if m > 0 {
                            assert(rest[m - 1] == txns[m]);
                        }
                    }
                },
                None => {
                    assert forall|m: int| 0 <= m < txns.len() implies !(#[trigger] txns[m]).tags.contains(own) by {
                        if m > 0 {
                            assert(rest[m - 1] == txns[m]);
                        }
                    }
                },
            }
        }
    }
}

/// Is it an identifier that was looked for and that nothing was found to reverse?
pub open spec fn is_left_open(ids: Seq<Seq<char>>, replies: Seq<Seq<TransactionView>>, id: Seq<char>) -> bool {
    exists|i: int|
        0 <= i < replies.len() && with_tag(#[trigger] replies[i], "reverses"@, ids[i]).len() == 0 && ids[i] == id
}

/// Of the identifiers that were looked for, those are still open for which nothing was found that
/// reverses them: each of these is there, and no other, and there are as many as such searches.
pub proof fn law_open_is_what_nothing_reverses(ids: Seq<Seq<char>>, replies: Seq<Seq<TransactionView>>)
    requires
        replies.len() <= ids.len(),
    ensures
        still_open(ids, replies).len() == total(
            Seq::new(
                replies.len(),
                |i: int|
                    if with_tag(replies[i], "reverses"@, ids[i]).len() == 0 {
                        1int
                    } else {
                        0
                    },
            ),
        ),
        forall|i: int|
            0 <= i < replies.len() && with_tag(#[trigger] replies[i], "reverses"@, ids[i]).len() == 0 ==> still_open(
                ids,
                replies,
            ).contains(ids[i]),
        forall|k: int|
            #![trigger still_open(ids, replies)[k]]
            0 <= k < still_open(ids, replies).len() ==> is_left_open(ids, replies, still_open(ids, replies)[k]),
    decreases replies.len(),
{
    let open = still_open(ids, replies);
    let counts = Seq::new(
        replies.len(),
        |i: int|
            if with_tag(replies[i], "reverses"@, ids[i]).len() == 0 {
                1int
            } else {
                0
            },
    );
    if replies.len() > 0 {
        let init = replies.drop_last();
        let n = replies.len() - 1;
        law_open_is_what_nothing_reverses(ids, init);
        let before = still_open(ids, init);
        let own = Seq::new(
            init.len(),
            |i: int|
                if with_tag(init[i], "reverses"@, ids[i]).len() == 0 {
                    1int
                } else {
                    0
                },
        );
        assert(counts.drop_last() =~= own);
        assert(counts.last() == counts[n]);
        assert forall|i: int| 0 <= i < replies.len() && with_tag(#[trigger] replies[i], "reverses"@, ids[i]).len() == 0
            implies open.contains(ids[i]) by {
            if i < n {
                assert(init[i] == replies[i]);
                assert(with_tag(init[i], "reverses"@, ids[i]).len() == 0);
                assert(before.contains(ids[i]));
                let k = choose|k: int| 0 <= k < before.len() && before[k] == ids[i];
                assert(open[k] == ids[i]);
            } else {
                assert(open[open.len() - 1] == ids[i]);
            }
        }
        assert forall|k: int|
            #![trigger open[k]]
            0 <= k < open.len() implies is_left_open(ids, replies, open[k]) by {
            if k < before.len() {
                assert(open[k] == before[k]);
                assert(is_left_open(ids, init, before[k]));
                let i = choose|i: int|
                    0 <= i < init.len() && with_tag(#[trigger] init[i], "reverses"@, ids[i]).len() == 0 && ids[i]
                        == before[k];
                assert(replies[i] == init[i]);
            } else {
                assert(with_tag(replies[n], "reverses"@, ids[n]).len() == 0);
            }
        }
    } else {
        assert(counts =~= Seq::<int>::empty());
    }
}

/// A change order is approved exactly where it was recorded, is not approved yet, and what was
/// recorded has an amount on a pending account.
pub proof fn law_approvals_fail_only_for_a_reason(
    found: EcoEvents,
    args: EcoRefArgs,
    r: Step<ApproveState, ApprovedOrder>,
)
    requires
        approve_decides(found, args, r),
    ensures
        r is Run <==> found.created is Some && !found.approved && pending_order((found.created->0)@.postings) is Some,
{
    if found.created is Some && !found.approved && pending_order((found.created->0)@.postings) is Some {
        let (trade, amount) = pending_order((found.created->0)@.postings)->0;
        let (input, inner) = choose|input: TransactionInput, inner: Step<PostState, WriteOutcome>|
            input@ == eco_approved(args.date@, args.eco@, trade, quantity_text(amount.quantity), amount.commodity)
                && #[trigger] post_begins(input, inner) && approve_posts(inner, args.eco@, trade, r);
        assert(post_begins(input, inner));
    }
}

/// A change order is recorded exactly where none of its name is there; its accounts are declared
/// where they are not, and then it is posted.
pub proof fn law_recordings_fail_only_for_a_reason(s: CreateState, reply: Reply, r: Step<CreateState, RecordedOrder>)
    requires
        create_next(s, reply, r),
    ensures
        s matches CreateState::Lookup { args } ==> reply matches Reply::Transactions(Ok(txns)) ==> (r is Run) == (with_tag(
            transactions_view(txns@),
            "eco"@,
            args.eco@,
        ).len() == 0),
        s matches CreateState::Declared { args } ==> reply matches Reply::Names(Ok(names)) ==> match declarations(
            order_accounts(args.trade@),
            texts(names@),
        ) {
            Err(_) => r matches Step::Done(Err(e)) && e is Input,
            Ok(text) => if text.len() == 0 {
                r matches Step::Run(CreateState::Posting { .. }, Action::Print { .. })
            } else {
                r matches Step::Run(CreateState::Declaring { .. }, Action::Append { addition, .. }) && addition@ == text
            },
        },
        s is Declaring && (reply matches Reply::Committed(Ok(_))) ==> (r matches Step::Run(
            CreateState::Posting { .. },
            Action::Print { .. },
        )),
{
    match s {
        CreateState::Declared { args } => {
            if create_begins_post(args, r) {
                lemma_create_begins_post(args, r);
            }
        },
        CreateState::Declaring { args } => {
            if create_begins_post(args, r) {
                lemma_create_begins_post(args, r);
            }
        },
        _ => {},
    }
}

proof fn lemma_create_begins_post(args: EcoCreateArgs, r: Step<CreateState, RecordedOrder>)
    requires
        create_begins_post(args, r),
    ensures
        r matches Step::Run(CreateState::Posting { .. }, Action::Print { .. }),
{
    let (input, inner) = choose|input: TransactionInput, inner: Step<PostState, WriteOutcome>|
        input@ == order_recorded(args) && #[trigger] post_begins(input, inner) && create_posts(inner, args.eco@, r);
    assert(post_begins(input, inner) && create_posts(inner, args.eco@, r));
}

/// What is asked for a change order is what is posted for it: on its date, with its description,
/// its amount on the pending account of its trade, owed to its vendor, under its name and key.
pub proof fn law_order_is_recorded_as_asked(args: EcoCreateArgs)
    ensures
        ({
            let input = order_recorded(args);
            &&& input.date == args.date@ && input.idem == option_view(args.money.idem)
            &&& input.description == "ECO "@ + args.eco@ + ": "@ + args.description@
            &&& input.postings.len() == 2
            &&& input.postings[0].account == "expenses:change orders:pending:"@ + args.trade@
            &&& input.postings[0].amount == Some((args.money.amount@, args.money.commodity@))
            &&& input.postings[1].account == "liabilities:ap:vendor:"@ + args.vendor@
            &&& input.postings[1].amount is None
            &&& input.tags == seq![("eco"@, args.eco@), ("eco_event"@, "created"@), ("vendor"@, args.vendor@)]
        }),
{
}

/// Once an approval is posted, the budget that is read is that of the trade's own account, and the
/// approval ends with the outcome of its post, whatever the budget is.
pub proof fn law_approval_shows_the_budget_of_its_trade(
    out: WriteOutcome,
    eco: Seq<char>,
    trade: Seq<char>,
    r: Step<ApproveState, ApprovedOrder>,
    reply: Reply,
    end: Step<ApproveState, ApprovedOrder>,
)
    requires
        approve_posts(Step::Done(Ok(out)), eco, trade, r),
        r is Run,
        approve_next(r->Run_0, reply, end),
    ensures
        r matches Step::Run(ApproveState::Standing { eco: e, outcome }, Action::Budget { account }) && e@ == eco && outcome
            == out && account@ == "expenses:change orders:"@ + trade,
        reply matches Reply::Budget(report) ==> (end matches Step::Done(Ok(order)) && order.eco@ == eco && order.outcome
            == out && order.budget == report),
{
}

} // verus!
