//! The write operations, step by step.
//!
//! Each operation is a state that waits for the reply to an [`Action`]. Whoever runs it
//! performs the action, hands the [`Reply`] to `step`, and goes on with what follows until
//! the operation is done. All of it happens under the write locks: a
//! [`WriteContext`](crate::write::view::WriteContext) is asked for where an operation
//! begins.

use vstd::prelude::*;

use crate::date::civil_text;
use crate::epoch::CommitOid;
use crate::hledger::{
    BalanceReport, BudgetReport, HledgerError, PostingView, Transaction, TransactionView,
    hledger_error_text, postings_view, tags_view, transactions_view,
};
use crate::text::{cat, cat3, listed, texts, trim, trimmed};
use crate::write::{
    CommitOutcome, WriteError, WriteOutcome, account_directive, commodity_directive,
    commodity_text, exact_tag_query, fresh_uuid, is_account_name, is_commodity_symbol,
    is_input_error, is_internal_error, is_reversible, is_uuid_text, keep_exact_tag,
    law_kept_transactions_match_exactly, negated_lines, posted_lines, reversal_postings,
    reversible, sanitize, sanitized, tag_of, tag_query, tag_value, with_tag,
};
use crate::write::format::{entry_text, render_entry};
use crate::write::input::{TransactionInput, TransactionInputView};
use crate::write::validate::{ValidatedTxn, ValidatedView, validate, validation};
use crate::write::view::WriteContext;

verus! {

/// What is to be done next.
#[derive(Debug)]
pub enum Action {
    /// List the transactions that match the query.
    Print { query: String },
    /// List the declared accounts.
    DeclaredAccounts,
    /// List the declared commodities.
    DeclaredCommodities,
    /// List the tombstoned accounts.
    TombstonedAccounts,
    /// Report the balance of the account, without its parents.
    BalanceFlat { account: String },
    /// Report the account against its budget.
    Budget { account: String },
    /// Tell the commit at the head.
    Head,
    /// Append to the journal and commit: see [`crate::write::append`].
    Append { addition: String, message: String },
    /// Read the journal and the budget file, where there is one.
    ReadBudget,
    /// Run hledger's strict check on this journal beside this budget file, in a directory of
    /// their own.
    CheckBudget { journal: String, budget: String },
    /// Put this text in the place of the budget file, in one step; remove the file where there
    /// is none.
    PutBudget { text: Option<String> },
    /// Put this text in the place of the journal, in one step.
    PutJournal { text: String },
    /// Commit the journal and the budget file with this message.
    CommitBudget { message: String },
}

/// What came of it.
#[derive(Debug)]
pub enum Reply {
    /// Transactions were listed.
    Transactions(Result<Vec<Transaction>, HledgerError>),
    /// Names were listed.
    Names(Result<Vec<String>, HledgerError>),
    /// A balance was reported.
    Balance(Result<BalanceReport, HledgerError>),
    /// A budget was reported, or could not be.
    Budget(Option<BudgetReport>),
    /// The head was read.
    Head(Result<Option<CommitOid>, WriteError>),
    /// A commit was made.
    Committed(Result<CommitOid, WriteError>),
    /// The journal and the budget file were read.
    Budgets(Result<(String, Option<String>), WriteError>),
    /// The check was run.
    Checked(Result<(), HledgerError>),
    /// The files to check could not be laid out.
    NotStaged(WriteError),
    /// A file was put in place.
    Put(Result<(), WriteError>),
}

/// What follows: another action, or the end.
#[derive(Debug)]
pub enum Step<S, T> {
    Run(S, Action),
    Done(Result<T, WriteError>),
}

/// One step of an operation: the state, the action that was performed, the reply that came
/// in, and what followed.
pub struct Turn<S, T> {
    pub state: S,
    pub action: Action,
    pub reply: Reply,
    pub step: Step<S, T>,
}

/// Does each turn go on from what followed in the turn before it?
pub open spec fn chained<S, T>(turns: Seq<Turn<S, T>>) -> bool {
    forall|i: int|
        0 < i < turns.len() ==> (turns[i - 1].step matches Step::Run(s, a) && (#[trigger] turns[i]).state == s
            && turns[i].action == a)
}

/// The entries that were committed, in order.
pub open spec fn entries<S, T>(turns: Seq<Turn<S, T>>) -> Seq<Seq<char>>
    decreases turns.len(),
{
    if turns.len() == 0 {
        Seq::empty()
    } else {
        let last = turns.last();
        match (last.action, last.reply) {
            (Action::Append { addition, .. }, Reply::Committed(Ok(_))) => entries(turns.drop_last()).push(addition@),
            _ => entries(turns.drop_last()),
        }
    }
}

/// The transactions that a reply lists.
pub open spec fn listed_txns(reply: Reply) -> Seq<TransactionView> {
    match reply {
        Reply::Transactions(Ok(txns)) => transactions_view(txns@),
        _ => Seq::empty(),
    }
}

/// Is it what a search of the ledger can give: of the transactions with the tag that was asked
/// for, those in the ledger and in its order, and whatever else the query matched?
pub open spec fn answers(query: Seq<char>, found: Seq<TransactionView>, ledger: Seq<TransactionView>) -> bool {
    forall|name: Seq<char>, value: Seq<char>|
        query == exact_tag_query(name, value) ==> #[trigger] with_tag(found, name, value) == with_tag(
            ledger,
            name,
            value,
        )
}

pub proof fn lemma_entries_step<S, T>(turns: Seq<Turn<S, T>>, i: int)
    requires
        0 <= i < turns.len(),
    ensures
        entries(turns.take(i + 1)) == match (turns[i].action, turns[i].reply) {
            (Action::Append { addition, .. }, Reply::Committed(Ok(_))) => entries(turns.take(i)).push(addition@),
            _ => entries(turns.take(i)),
        },
{
    assert(turns.take(i + 1).drop_last() =~= turns.take(i));
    assert(turns.take(i + 1).last() == turns[i]);
}

/// Does the operation end in an internal error with this message?
pub open spec fn ends_internal<S, T>(r: Step<S, T>, message: Seq<char>) -> bool {
    r matches Step::Done(Err(e)) && is_internal_error(e, message)
}

/// Does the operation end in an input error with this message?
pub open spec fn ends_input<S, T>(r: Step<S, T>, message: Seq<char>) -> bool {
    r matches Step::Done(Err(e)) && is_input_error(e, message)
}

/// The end where hledger failed.
pub(crate) fn internal<S, T>(context: &str, e: &HledgerError) -> (r: Step<S, T>)
    ensures
        ends_internal(r, context@ + hledger_error_text(*e)),
{
    Step::Done(Err(WriteError::Internal(cat(context, &e.to_string()))))
}

/// The end where a reply does not fit.
pub(crate) fn misplaced<S, T>() -> (r: Step<S, T>)
    ensures
        ends_internal(r, "unexpected reply"@),
{
    Step::Done(Err(WriteError::Internal("unexpected reply".to_owned())))
}

// ---------------------------------------------------------------------------
// Posting
// ---------------------------------------------------------------------------

/// The tags of a new transaction: its identifier, its idempotency key, and its own.
pub open spec fn stamped(id: Seq<char>, idem: Seq<char>, tags: Seq<(Seq<char>, Seq<char>)>) -> Seq<
    (Seq<char>, Seq<char>),
> {
    seq![("id"@, id), ("idem"@, idem)] + tags
}

/// Among the tags of a new transaction, the first one named `id` is its identifier, and the
/// first one named `idem` its idempotency key, whatever the others are. That they are read back
/// from the entry is [`crate::write::readback::law_posted_entry_is_found`].
pub proof fn law_stamps_are_found(id: Seq<char>, idem: Seq<char>, tags: Seq<(Seq<char>, Seq<char>)>)
    ensures
        tag_of(stamped(id, idem, tags), "id"@) == Some(id),
        tag_of(stamped(id, idem, tags), "idem"@) == Some(idem),
{
    let all = stamped(id, idem, tags);
    reveal_strlit("id");
    reveal_strlit("idem");
    assert("id"@.len() != "idem"@.len());
    assert(all.skip(1)[0] == ("idem"@, idem));
    assert(tag_of(all.skip(1), "idem"@) == Some(idem));
}

/// The entry of a transaction that passed the checks.
pub open spec fn post_text(v: ValidatedView, id: Seq<char>, idem: Seq<char>) -> Seq<char> {
    entry_text(civil_text(v.date), v.description, v.postings, stamped(id, idem, v.tags))
}

/// The entry of a transaction that passed the checks, stamped with its identifier and its
/// idempotency key.
pub fn post_entry(v: &ValidatedTxn, id: &str, idem: &str) -> (r: String)
    ensures
        r@ == post_text(v@, id@, idem@),
{
    let mut tags: Vec<(String, String)> = Vec::new();
    tags.push(("id".to_owned(), id.to_owned()));
    tags.push(("idem".to_owned(), idem.to_owned()));
    let ghost own = tags_view(v.tags@);
    assert(tags_view(tags@) =~= stamped(id@, idem@, own.take(0)));
    let mut i: usize = 0;
    while i < v.tags.len()
        invariant
            i <= v.tags.len(),
            own == tags_view(v.tags@),
            tags_view(tags@) == stamped(id@, idem@, own.take(i as int)),
        decreases v.tags.len() - i,
    {
        let ghost before = tags_view(tags@);
        tags.push((v.tags[i].0.clone(), v.tags[i].1.clone()));
        proof {
            assert(tags_view(tags@) =~= before.push(own[i as int]));
            assert(own.take(i + 1) =~= own.take(i as int).push(own[i as int]));
            assert(tags_view(tags@) =~= stamped(id@, idem@, own.take(i + 1)));
        }
        i += 1;
    }
    assert(own.take(i as int) =~= own);
    render_entry(&v.date.to_string(), &v.description, &v.postings, &tags)
}

/// Did the transaction pass the checks, against some declared accounts and commodities, and
/// was this read from it?
pub open spec fn accepted(input: TransactionInputView, v: ValidatedView) -> bool {
    exists|accounts: Seq<Seq<char>>, commodities: Seq<Seq<char>>| #[trigger]
        validation(input, accounts, commodities) == Ok::<ValidatedView, Seq<char>>(v)
}

/// Where posting a transaction stands.
#[derive(Debug)]
pub enum PostState {
    /// An earlier transaction with the same idempotency key is being looked for.
    Lookup { input: TransactionInput, idem: String },
    /// There is one, with this identifier; the head is being read.
    Known { id: String },
    /// The declared accounts are being read.
    Accounts { input: TransactionInput, idem: String },
    /// The declared commodities are being read.
    Commodities { input: TransactionInput, idem: String, accounts: Vec<String> },
    /// The entry with this identifier is being appended.
    Appending { id: String },
}

/// Is it the key to write the transaction with: the caller's, without the white space around
/// it, which no tag keeps, or a fresh one where there is none?
pub open spec fn is_key_for(input: TransactionInputView, key: Seq<char>) -> bool {
    match input.idem {
        Some(given) => key == trim(given),
        None => is_uuid_text(key),
    }
}

/// The key to write the transaction with.
pub(crate) fn key_for(input: &TransactionInput) -> (r: String)
    ensures
        is_key_for(input@, r@),
{
    match &input.idem {
        Some(given) => trimmed(given),
        None => fresh_uuid(),
    }
}

/// How posting begins: with the search for an earlier transaction with the same key.
pub open spec fn post_begins(input: TransactionInput, r: Step<PostState, WriteOutcome>) -> bool {
    r matches Step::Run(PostState::Lookup { input: i, idem }, Action::Print { query }) && i == input && query@
        == exact_tag_query("idem"@, idem@) && is_key_for(input@, idem@)
}

/// Is the entry of a transaction that passed the checks being appended, with a fresh
/// identifier?
pub open spec fn post_appends(v: ValidatedView, key: Seq<char>, s: PostState, a: Action) -> bool {
    s matches PostState::Appending { id } && a matches Action::Append { addition, message } && is_uuid_text(id@)
        && addition@ == post_text(v, id@, key) && message@ == "post id:"@ + id@
}

/// Begins to append the entry of a transaction that passed the checks.
pub(crate) fn append_post(v: &ValidatedTxn, key: &str) -> (r: (PostState, Action))
    ensures
        post_appends(v@, key@, r.0, r.1),
{
    let id: String = fresh_uuid();
    let addition: String = post_entry(v, &id, key);
    let message: String = cat("post id:", &id);
    (PostState::Appending { id }, Action::Append { addition, message })
}

/// What follows a reply.
pub open spec fn post_next(s: PostState, reply: Reply, r: Step<PostState, WriteOutcome>) -> bool {
    match (s, reply) {
        (PostState::Lookup { input, idem }, Reply::Transactions(Ok(txns))) => {
            let prior = with_tag(transactions_view(txns@), "idem"@, idem@);
            if prior.len() > 0 {
                r matches Step::Run(PostState::Known { id }, Action::Head) && id@ == match tag_of(prior[0].tags, "id"@) {
                    Some(id) => id,
                    None => Seq::empty(),
                }
            } else {
                r matches Step::Run(PostState::Accounts { input: i, idem: k }, Action::DeclaredAccounts) && i == input
                    && k == idem
            }
        },
        (PostState::Lookup { .. }, Reply::Transactions(Err(e))) => ends_internal(
            r,
            "idempotency query: "@ + hledger_error_text(e),
        ),
        (PostState::Known { id }, Reply::Head(Ok(head))) => r matches Step::Done(Ok(out)) && out.deduped
            && out.base.id@ == id@ && out.base.commit@ == match head {
            Some(oid) => oid@,
            None => Seq::empty(),
        },
        (PostState::Known { .. }, Reply::Head(Err(e))) => r == Step::<PostState, WriteOutcome>::Done(Err(e)),
        (PostState::Accounts { input, idem }, Reply::Names(Ok(names))) => r matches Step::Run(
            PostState::Commodities { input: i, idem: k, accounts },
            Action::DeclaredCommodities,
        ) && i == input && k == idem && accounts == names,
        (PostState::Accounts { .. }, Reply::Names(Err(e))) => ends_internal(
            r,
            "read declared accounts: "@ + hledger_error_text(e),
        ),
        (PostState::Commodities { input, idem, accounts }, Reply::Names(Ok(names))) => match validation(
            input@,
            texts(accounts@),
            texts(names@),
        ) {
            Ok(v) => r matches Step::Run(next, action) && post_appends(v, idem@, next, action),
            Err(m) => ends_input(r, m),
        },
        (PostState::Commodities { .. }, Reply::Names(Err(e))) => ends_internal(
            r,
            "read declared commodities: "@ + hledger_error_text(e),
        ),
        (PostState::Appending { id }, Reply::Committed(Ok(commit))) => r matches Step::Done(Ok(out)) && !out.deduped
            && out.base.id@ == id@ && out.base.commit == commit,
        (PostState::Appending { .. }, Reply::Committed(Err(e))) => r == Step::<PostState, WriteOutcome>::Done(Err(e)),
        _ => ends_internal(r, "unexpected reply"@),
    }
}

/// Begins to post a transaction.
pub fn post_transaction(_ctx: &WriteContext, input: TransactionInput) -> (r: Step<PostState, WriteOutcome>)
    ensures
        post_begins(input, r),
{
    start_post(input)
}

/// Begins to post a transaction, in the middle of another operation.
pub(crate) fn start_post(input: TransactionInput) -> (r: Step<PostState, WriteOutcome>)
    ensures
        post_begins(input, r),
{
    let idem: String = key_for(&input);
    let query: String = tag_query("idem", &idem);
    Step::Run(PostState::Lookup { input, idem }, Action::Print { query })
}

impl PostState {
    /// What follows the reply to the last action.
    pub fn step(self, reply: Reply) -> (r: Step<PostState, WriteOutcome>)
        ensures
            post_next(self, reply, r),
    {
        match (self, reply) {
            (PostState::Lookup { input, idem }, Reply::Transactions(found)) => match found {
                Ok(txns) => {
                    let prior: Vec<Transaction> = keep_exact_tag(txns, "idem", &idem);
                    if prior.len() > 0 {
                        assert(transactions_view(prior@)[0] == prior@[0]@);
                        let id: String = match tag_value(&prior[0], "id") {
                            Some(id) => id,
                            None => String::new(),
                        };
                        assert(tag_of(prior@[0]@.tags, "id"@) is None ==> id@ =~= Seq::empty());
                        Step::Run(PostState::Known { id }, Action::Head)
                    } else {
                        assert(transactions_view(prior@).len() == 0);
                        Step::Run(PostState::Accounts { input, idem }, Action::DeclaredAccounts)
                    }
                },
                Err(e) => internal("idempotency query: ", &e),
            },
            (PostState::Known { id }, Reply::Head(head)) => match head {
                Ok(Some(commit)) => Step::Done(Ok(WriteOutcome { base: CommitOutcome { id, commit }, deduped: true })),
                Ok(None) => {
                    let none: String = String::new();
                    let commit: CommitOid = CommitOid::new(none);
                    assert(commit@ =~= Seq::empty());
                    Step::Done(Ok(WriteOutcome { base: CommitOutcome { id, commit }, deduped: true }))
                },
                Err(e) => Step::Done(Err(e)),
            },
            (PostState::Accounts { input, idem }, Reply::Names(names)) => match names {
                Ok(accounts) => Step::Run(
                    PostState::Commodities { input, idem, accounts },
                    Action::DeclaredCommodities,
                ),
                Err(e) => internal("read declared accounts: ", &e),
            },
            (PostState::Commodities { input, idem, accounts }, Reply::Names(names)) => match names {
                Ok(commodities) => match validate(&input, &accounts, &commodities) {
                    Ok(v) => {
                        let (next, action) = append_post(&v, &idem);
                        Step::Run(next, action)
                    },
                    Err(m) => Step::Done(Err(WriteError::Input(m))),
                },
                Err(e) => internal("read declared commodities: ", &e),
            },
            (PostState::Appending { id }, Reply::Committed(committed)) => match committed {
                Ok(commit) => Step::Done(Ok(WriteOutcome::from(CommitOutcome { id, commit }))),
                Err(e) => Step::Done(Err(e)),
            },
            _ => misplaced(),
        }
    }
}

/// A repeated request writes nothing: where a transaction with exactly this idempotency key
/// is there already, posting ends without anything being appended, with the identifier of
/// that transaction, marked as repeated.
pub proof fn law_repeated_post_writes_nothing(
    input: TransactionInput,
    idem: String,
    txns: Vec<Transaction>,
    first: Step<PostState, WriteOutcome>,
    reply: Reply,
    second: Step<PostState, WriteOutcome>,
)
    requires
        post_next(PostState::Lookup { input, idem }, Reply::Transactions(Ok(txns)), first),
        with_tag(transactions_view(txns@), "idem"@, idem@).len() > 0,
        first matches Step::Run(s, _) && post_next(s, reply, second),
    ensures
        first matches Step::Run(_, Action::Head),
        second is Done,
        second matches Step::Done(Ok(out)) ==> out.deduped && (tag_of(
            with_tag(transactions_view(txns@), "idem"@, idem@)[0].tags,
            "id"@,
        ) matches Some(id) ==> out.base.id@ == id),
{
}

/// Nothing is appended unless the transaction passed the checks against the declared
/// accounts and commodities: what posting appends is the entry of a valid transaction.
pub proof fn law_post_appends_only_valid_entries(s: PostState, reply: Reply, r: Step<PostState, WriteOutcome>)
    requires
        post_next(s, reply, r),
    ensures
        r matches Step::Run(_, Action::Append { addition, .. }) ==> (s matches PostState::Commodities {
            input,
            idem,
            accounts,
        } && reply matches Reply::Names(Ok(names)) && exists|id: Seq<char>|
            is_uuid_text(id) && validation(input@, texts(accounts@), texts(names@)) is Ok && addition@ == #[trigger] post_text(
                validation(input@, texts(accounts@), texts(names@))->Ok_0,
                id,
                idem@,
            )),
{
    if let Step::Run(PostState::Appending { id }, Action::Append { addition, .. }) = r {
        assert(is_uuid_text(id@));
    }
}

// ---------------------------------------------------------------------------
// Voiding
// ---------------------------------------------------------------------------

/// The entry that reverses a transaction: on the same date, with every amount negated, and
/// with a tag that names what it reverses.
pub open spec fn void_text(target: TransactionView, target_id: Seq<char>, id: Seq<char>, idem: Seq<char>) -> Seq<char> {
    entry_text(
        civil_text(target.date),
        sanitized("reversal of "@ + target.description),
        negated_lines(posted_lines(target.postings)),
        reversal_tags(target_id, id, idem),
    )
}

/// The entry that reverses a transaction.
pub fn void_entry(target: &Transaction, target_id: &str, id: &str, idem: &str) -> (r: String)
    requires
        reversible(target@.postings),
    ensures
        r@ == void_text(target@, target_id@, id@, idem@),
{
    let mut tags: Vec<(String, String)> = Vec::new();
    tags.push(("id".to_owned(), id.to_owned()));
    tags.push(("idem".to_owned(), idem.to_owned()));
    tags.push(("reverses".to_owned(), target_id.to_owned()));
    assert(tags_view(tags@) =~= reversal_tags(target_id@, id@, idem@));
    let description: String = sanitize(&cat("reversal of ", &target.description));
    render_entry(&target.date.to_string(), &description, &reversal_postings(target), &tags)
}

/// The tags of a reversing entry.
pub open spec fn reversal_tags(target_id: Seq<char>, id: Seq<char>, idem: Seq<char>) -> Seq<(Seq<char>, Seq<char>)> {
    seq![("id"@, id), ("idem"@, idem), ("reverses"@, target_id)]
}

/// A reversing entry is marked with what it reverses, so it is never voided itself: what
/// carries its tags is refused.
pub proof fn law_reversals_are_not_voided(
    target: TransactionView,
    target_id: Seq<char>,
    id: Seq<char>,
    idem: Seq<char>,
    r: Step<VoidState, WriteOutcome>,
)
    requires
        target.tags == reversal_tags(target_id, id, idem),
        void_found(target, id, r),
    ensures
        tag_of(target.tags, "reverses"@) == Some(target_id),
        r matches Step::Done(Err(e)) && e is Input,
{
    let all = reversal_tags(target_id, id, idem);
    reveal_strlit("id");
    reveal_strlit("idem");
    reveal_strlit("reverses");
    assert("id"@.len() == 2 && "idem"@.len() == 4 && "reverses"@.len() == 8);
    assert(all.skip(1)[0] == ("idem"@, idem));
    assert(all.skip(1).skip(1)[0] == ("reverses"@, target_id));
    assert(tag_of(all.skip(1).skip(1), "reverses"@) == Some(target_id));
    assert(tag_of(all.skip(1), "reverses"@) == Some(target_id));
}

/// Does the entry reverse the transaction with this identifier: is it the reversing entry of
/// a transaction that carries it and is no reversal itself?
pub open spec fn reverses(entry: Seq<char>, target: TransactionView, target_id: Seq<char>) -> bool {
    &&& tag_of(target.tags, "id"@) == Some(target_id)
    &&& tag_of(target.tags, "reverses"@) is None
    &&& posted_lines(target.postings).len() > 0
    &&& reversible(target.postings)
    &&& exists|id: Seq<char>, idem: Seq<char>| entry == #[trigger] void_text(target, target_id, id, idem)
}

/// Where voiding a transaction stands.
#[derive(Debug)]
pub enum VoidState {
    /// The transaction is being looked for.
    Lookup { target_id: String },
    /// The reversing entry with this identifier is being appended.
    Appending { id: String },
}

/// How voiding begins: with the search for the transaction.
pub open spec fn void_begins(target_id: Seq<char>, r: Step<VoidState, WriteOutcome>) -> bool {
    r matches Step::Run(VoidState::Lookup { target_id: t }, Action::Print { query }) && t@ == target_id && query@
        == exact_tag_query("id"@, target_id)
}

/// What becomes of the transaction that was found.
pub open spec fn void_found(
    target: TransactionView,
    target_id: Seq<char>,
    r: Step<VoidState, WriteOutcome>,
) -> bool {
    if tag_of(target.tags, "reverses"@) is Some {
        ends_input(r, "transaction '"@ + target_id + "' is itself a reversal; refusing to void a reversal"@)
    } else if posted_lines(target.postings).len() == 0 {
        ends_internal(r, "target transaction has no postings to reverse"@)
    } else if !reversible(target.postings) {
        ends_internal(r, "target transaction has an amount that cannot be negated"@)
    } else {
        r matches Step::Run(VoidState::Appending { id }, Action::Append { addition, message }) && is_uuid_text(id@)
            && message@ == "void reverses:"@ + target_id + " id:"@ + id@ && exists|idem: Seq<char>|
            is_uuid_text(idem) && addition@ == #[trigger] void_text(target, target_id, id@, idem)
    }
}

/// What follows a reply.
pub open spec fn void_next(s: VoidState, reply: Reply, r: Step<VoidState, WriteOutcome>) -> bool {
    match (s, reply) {
        (VoidState::Lookup { target_id }, Reply::Transactions(Ok(txns))) => {
            let found = with_tag(transactions_view(txns@), "id"@, target_id@);
            if found.len() == 0 {
                ends_input(r, "no transaction with id '"@ + target_id@ + "'"@)
            } else {
                void_found(found[0], target_id@, r)
            }
        },
        (VoidState::Lookup { .. }, Reply::Transactions(Err(e))) => ends_internal(
            r,
            "lookup by id: "@ + hledger_error_text(e),
        ),
        (VoidState::Appending { id }, Reply::Committed(Ok(commit))) => r matches Step::Done(Ok(out)) && !out.deduped
            && out.base.id@ == id@ && out.base.commit == commit,
        (VoidState::Appending { .. }, Reply::Committed(Err(e))) => r == Step::<VoidState, WriteOutcome>::Done(Err(e)),
        _ => ends_internal(r, "unexpected reply"@),
    }
}

/// Begins to void a transaction.
pub fn void_transaction(_ctx: &WriteContext, target_id: &str) -> (r: Step<VoidState, WriteOutcome>)
    ensures
        void_begins(target_id@, r),
{
    void_start(target_id)
}

/// Begins to void a transaction, in the middle of another operation.
pub(crate) fn void_start(target_id: &str) -> (r: Step<VoidState, WriteOutcome>)
    ensures
        void_begins(target_id@, r),
{
    let query: String = tag_query("id", target_id);
    Step::Run(VoidState::Lookup { target_id: target_id.to_owned() }, Action::Print { query })
}

fn void_target(target: &Transaction, target_id: &str) -> (r: Step<VoidState, WriteOutcome>)
    ensures
        void_found(target@, target_id@, r),
{
    if tag_value(target, "reverses").is_some() {
        return Step::Done(
            Err(
                WriteError::Input(
                    cat3("transaction '", target_id, "' is itself a reversal; refusing to void a reversal"),
                ),
            ),
        );
    }
    if !has_amounts(target) {
        return Step::Done(Err(WriteError::Internal("target transaction has no postings to reverse".to_owned())));
    }
    if !is_reversible(target) {
        return Step::Done(
            Err(WriteError::Internal("target transaction has an amount that cannot be negated".to_owned())),
        );
    }
    let id: String = fresh_uuid();
    let idem: String = fresh_uuid();
    let addition: String = void_entry(target, target_id, &id, &idem);
    let mut message: String = cat3("void reverses:", target_id, " id:");
    message.append(&id);
    Step::Run(VoidState::Appending { id }, Action::Append { addition, message })
}

/// Has the transaction an amount?
fn has_amounts(target: &Transaction) -> (r: bool)
    ensures
        r == (posted_lines(target@.postings).len() > 0),
{
    let ghost all = target@.postings;
    let mut i: usize = 0;
    assert(posted_lines(all.take(0)).len() == 0);
    while i < target.postings.len()
        invariant
            i <= target.postings.len(),
            all == postings_view(target.postings@),
            posted_lines(all.take(i as int)).len() == 0,
        decreases target.postings.len() - i,
    {
        proof {
            assert(all.take(i + 1).drop_last() =~= all.take(i as int));
            assert(all.take(i + 1).last() == target.postings@[i as int]@);
        }
        if target.postings[i].amounts.len() > 0 {
            proof {
                lemma_posted_lines_grow(all, i + 1);
            }
            return true;
        }
        i += 1;
    }
    assert(all.take(i as int) =~= all);
    false
}

proof fn lemma_posted_lines_grow(all: Seq<PostingView>, i: int)
    requires
        0 <= i <= all.len(),
    ensures
        posted_lines(all.take(i)).len() <= posted_lines(all).len(),
    decreases all.len() - i,
{
    if i == all.len() {
        assert(all.take(i) =~= all);
    } else {
        assert(all.take(i + 1).drop_last() =~= all.take(i));
        lemma_posted_lines_grow(all, i + 1);
    }
}

impl VoidState {
    /// What follows the reply to the last action.
    pub fn step(self, reply: Reply) -> (r: Step<VoidState, WriteOutcome>)
        ensures
            void_next(self, reply, r),
    {
        match (self, reply) {
            (VoidState::Lookup { target_id }, Reply::Transactions(found)) => match found {
                Ok(txns) => {
                    let matching: Vec<Transaction> = keep_exact_tag(txns, "id", &target_id);
                    if matching.len() == 0 {
                        assert(transactions_view(matching@).len() == 0);
                        Step::Done(Err(WriteError::Input(cat3("no transaction with id '", &target_id, "'"))))
                    } else {
                        assert(transactions_view(matching@)[0] == matching@[0]@);
                        void_target(&matching[0], &target_id)
                    }
                },
                Err(e) => internal("lookup by id: ", &e),
            },
            (VoidState::Appending { id }, Reply::Committed(committed)) => match committed {
                Ok(commit) => Step::Done(Ok(WriteOutcome::from(CommitOutcome { id, commit }))),
                Err(e) => Step::Done(Err(e)),
            },
            _ => misplaced(),
        }
    }
}

/// What voiding appends reverses the transaction that was asked for, the first one found.
pub proof fn law_void_reverses_its_target(s: VoidState, reply: Reply, r: Step<VoidState, WriteOutcome>)
    requires
        void_next(s, reply, r),
    ensures
        r matches Step::Run(next, a) ==> (s matches VoidState::Lookup { target_id } && next is Appending && (
        a matches Action::Append { addition, .. } && with_tag(listed_txns(reply), "id"@, target_id@).len() > 0
            && reverses(addition@, with_tag(listed_txns(reply), "id"@, target_id@)[0], target_id@))),
        r matches Step::Done(Ok(out)) ==> s is Appending && !out.deduped && (reply matches Reply::Committed(Ok(_))),
{
    if let Step::Run(_, Action::Append { addition, .. }) = r {
        let target_id = s->Lookup_target_id;
        law_kept_transactions_match_exactly(listed_txns(reply), "id"@, target_id@);
    }
}

// ---------------------------------------------------------------------------
// Directives
// ---------------------------------------------------------------------------

/// Something with this name is being committed.
#[derive(Debug)]
pub struct Recording {
    pub id: String,
}

/// How a directive begins: it is appended, and committed with the message.
pub open spec fn recording_begins(
    id: Seq<char>,
    addition: Seq<char>,
    message: Seq<char>,
    r: Step<Recording, CommitOutcome>,
) -> bool {
    r matches Step::Run(s, Action::Append { addition: a, message: m }) && s.id@ == id && a@ == addition && m@ == message
}

/// What follows the commit.
pub open spec fn recording_next(s: Recording, reply: Reply, r: Step<Recording, CommitOutcome>) -> bool {
    match reply {
        Reply::Committed(Ok(commit)) => r matches Step::Done(Ok(out)) && out.id@ == s.id@ && out.commit == commit,
        Reply::Committed(Err(e)) => r == Step::<Recording, CommitOutcome>::Done(Err(e)),
        _ => ends_internal(r, "unexpected reply"@),
    }
}

impl Recording {
    /// What follows the reply to the last action.
    pub fn step(self, reply: Reply) -> (r: Step<Recording, CommitOutcome>)
        ensures
            recording_next(self, reply, r),
    {
        match reply {
            Reply::Committed(Ok(commit)) => Step::Done(Ok(CommitOutcome { id: self.id, commit })),
            Reply::Committed(Err(e)) => Step::Done(Err(e)),
            _ => misplaced(),
        }
    }
}

/// Begins to declare an account.
pub fn declare_account(_ctx: &WriteContext, name: &str) -> (r: Step<Recording, CommitOutcome>)
    ensures
        ({
            let t = trim(name@);
            if is_account_name(t) {
                recording_begins(t, "account "@ + t + "\n"@, "declare account"@, r)
            } else {
                ends_input(r, "invalid account name: '"@ + t + "'"@)
            }
        }),
{
    match account_directive(name) {
        Ok((id, addition)) => Step::Run(
            Recording { id },
            Action::Append { addition, message: "declare account".to_owned() },
        ),
        Err(e) => Step::Done(Err(e)),
    }
}

/// Begins to declare a commodity with so many decimal places.
pub fn declare_commodity(_ctx: &WriteContext, symbol: &str, places: u32) -> (r: Step<Recording, CommitOutcome>)
    ensures
        ({
            let t = trim(symbol@);
            if is_commodity_symbol(t) {
                recording_begins(t, commodity_text(t, places as nat), "declare commodity"@, r)
            } else {
                ends_input(r, "invalid commodity symbol: '"@ + t + "'"@)
            }
        }),
{
    match commodity_directive(symbol, places) {
        Ok((id, addition)) => Step::Run(
            Recording { id },
            Action::Append { addition, message: "declare commodity".to_owned() },
        ),
        Err(e) => Step::Done(Err(e)),
    }
}

/// Begins to declare a vendor: its payables account and its expense account, in one commit.
pub fn vendor_add(_ctx: &WriteContext, vendor: &str, ap_account: &str, expense_account: &str) -> (r: Step<
    Recording,
    CommitOutcome,
>)
    ensures
        ({
            let a = trim(ap_account@);
            let x = trim(expense_account@);
            if !is_account_name(a) {
                ends_input(r, "invalid account name: '"@ + a + "'"@)
            } else if !is_account_name(x) {
                ends_input(r, "invalid account name: '"@ + x + "'"@)
            } else {
                recording_begins(
                    vendor@,
                    "account "@ + a + "\n"@ + ("account "@ + x + "\n"@),
                    "add vendor "@ + vendor@,
                    r,
                )
            }
        }),
{
    let (_, first) = match account_directive(ap_account) {
        Ok(d) => d,
        Err(e) => {
            return Step::Done(Err(e));
        },
    };
    let (_, second) = match account_directive(expense_account) {
        Ok(d) => d,
        Err(e) => {
            return Step::Done(Err(e));
        },
    };
    Step::Run(
        Recording { id: vendor.to_owned() },
        Action::Append { addition: cat(&first, &second), message: cat("add vendor ", vendor) },
    )
}

/// The directives for those of the accounts `wanted` that are not declared, or the message
/// for the first of them that is no account name.
pub open spec fn declarations(wanted: Seq<Seq<char>>, declared: Seq<Seq<char>>) -> Result<Seq<char>, Seq<char>>
    decreases wanted.len(),
{
    if wanted.len() == 0 {
        Ok(Seq::empty())
    } else {
        match declarations(wanted.drop_last(), declared) {
            Err(m) => Err(m),
            Ok(text) => {
                let t = trim(wanted.last());
                if declared.contains(wanted.last()) {
                    Ok(text)
                } else if is_account_name(t) {
                    Ok(text + ("account "@ + t + "\n"@))
                } else {
                    Err("invalid account name: '"@ + t + "'"@)
                }
            },
        }
    }
}

proof fn lemma_declarations_fail(wanted: Seq<Seq<char>>, declared: Seq<Seq<char>>, i: int)
    requires
        0 <= i <= wanted.len(),
        declarations(wanted.take(i), declared) is Err,
    ensures
        declarations(wanted, declared) == declarations(wanted.take(i), declared),
    decreases wanted.len() - i,
{
    if i == wanted.len() {
        assert(wanted.take(i) =~= wanted);
    } else {
        assert(wanted.take(i + 1).drop_last() =~= wanted.take(i));
        lemma_declarations_fail(wanted, declared, i + 1);
    }
}

/// The directives that declare those of the accounts that are not declared yet; nothing
/// where all of them are.
pub fn ensure_declared_accounts(wanted: &Vec<String>, declared: &Vec<String>) -> (r: Result<String, WriteError>)
    ensures
        match r {
            Ok(text) => declarations(texts(wanted@), texts(declared@)) == Ok::<Seq<char>, Seq<char>>(text@),
            Err(e) => declarations(texts(wanted@), texts(declared@)) matches Err(m) && is_input_error(e, m),
        },
{
    let ghost all = texts(wanted@);
    let ghost known = texts(declared@);
    let mut out: String = String::new();
    let mut i: usize = 0;
    assert(out@ =~= Seq::empty());
    while i < wanted.len()
        invariant
            i <= wanted.len(),
            all == texts(wanted@),
            known == texts(declared@),
            declarations(all.take(i as int), known) == Ok::<Seq<char>, Seq<char>>(out@),
        decreases wanted.len() - i,
    {
        proof {
            assert(all.take(i + 1).drop_last() =~= all.take(i as int));
            assert(all.take(i + 1).last() == wanted@[i as int]@);
        }
        if !listed(declared, &wanted[i]) {
            match account_directive(&wanted[i]) {
                Ok((_, directive)) => {
                    out.append(&directive);
                },
                Err(e) => {
                    proof {
                        lemma_declarations_fail(all, known, i + 1);
                    }
                    return Err(e);
                },
            }
        }
        i += 1;
    }
    assert(all.take(i as int) =~= all);
    Ok(out)
}

/// Where tombstoning an account stands.
#[derive(Debug)]
pub enum TombstoneState {
    /// The declared accounts are being read.
    Declared { name: String },
    /// The tombstoned accounts are being read.
    Tombstoned { name: String },
    /// It is tombstoned already; the head is being read.
    Known { name: String },
    /// The directive is being appended.
    Appending { name: String },
}

/// What follows a reply.
pub open spec fn tombstone_next(s: TombstoneState, reply: Reply, r: Step<TombstoneState, CommitOutcome>) -> bool {
    match (s, reply) {
        (TombstoneState::Declared { name }, Reply::Names(Ok(names))) => if texts(names@).contains(name@) {
            r matches Step::Run(TombstoneState::Tombstoned { name: n }, Action::TombstonedAccounts) && n@ == name@
        } else {
            ends_input(r, "cannot tombstone undeclared account '"@ + name@ + "'"@)
        },
        (TombstoneState::Declared { .. }, Reply::Names(Err(e))) => ends_internal(
            r,
            "read declared accounts: "@ + hledger_error_text(e),
        ),
        (TombstoneState::Tombstoned { name }, Reply::Names(Ok(names))) => if texts(names@).contains(name@) {
            r matches Step::Run(TombstoneState::Known { name: n }, Action::Head) && n@ == name@
        } else {
            r matches Step::Run(TombstoneState::Appending { name: n }, Action::Append { addition, message }) && n@
                == name@ && addition@ == "account "@ + name@ + "  ; tombstoned:\n"@ && message@ == "tombstone account "@
                + name@
        },
        (TombstoneState::Tombstoned { .. }, Reply::Names(Err(e))) => ends_internal(
            r,
            "read tombstoned accounts: "@ + hledger_error_text(e),
        ),
        (TombstoneState::Known { name }, Reply::Head(Ok(Some(oid)))) => r matches Step::Done(Ok(out)) && out.id@ == name@
            && out.commit == oid,
        (TombstoneState::Known { .. }, Reply::Head(Ok(None))) => ends_internal(
            r,
            "idempotent tombstone implies a prior commit"@,
        ),
        (TombstoneState::Known { .. }, Reply::Head(Err(e))) => r == Step::<TombstoneState, CommitOutcome>::Done(Err(e)),
        (TombstoneState::Appending { name }, Reply::Committed(Ok(commit))) => r matches Step::Done(Ok(out)) && out.id@
            == name@ && out.commit == commit,
        (TombstoneState::Appending { .. }, Reply::Committed(Err(e))) => r == Step::<
            TombstoneState,
            CommitOutcome,
        >::Done(Err(e)),
        _ => ends_internal(r, "unexpected reply"@),
    }
}

/// Begins to tombstone an account: it stays declared, with a tag that marks it as closed.
pub fn tombstone_account(_ctx: &WriteContext, name: &str) -> (r: Step<TombstoneState, CommitOutcome>)
    ensures
        r matches Step::Run(TombstoneState::Declared { name: n }, Action::DeclaredAccounts) && n@ == trim(name@),
{
    Step::Run(TombstoneState::Declared { name: trimmed(name) }, Action::DeclaredAccounts)
}

impl TombstoneState {
    /// What follows the reply to the last action.
    pub fn step(self, reply: Reply) -> (r: Step<TombstoneState, CommitOutcome>)
        ensures
            tombstone_next(self, reply, r),
    {
        match (self, reply) {
            (TombstoneState::Declared { name }, Reply::Names(names)) => match names {
                Ok(names) => if listed(&names, &name) {
                    Step::Run(TombstoneState::Tombstoned { name }, Action::TombstonedAccounts)
                } else {
                    Step::Done(Err(WriteError::Input(cat3("cannot tombstone undeclared account '", &name, "'"))))
                },
                Err(e) => internal("read declared accounts: ", &e),
            },
            (TombstoneState::Tombstoned { name }, Reply::Names(names)) => match names {
                Ok(names) => if listed(&names, &name) {
                    Step::Run(TombstoneState::Known { name }, Action::Head)
                } else {
                    let addition: String = cat3("account ", &name, "  ; tombstoned:\n");
                    let message: String = cat("tombstone account ", &name);
                    Step::Run(TombstoneState::Appending { name }, Action::Append { addition, message })
                },
                Err(e) => internal("read tombstoned accounts: ", &e),
            },
            (TombstoneState::Known { name }, Reply::Head(head)) => match head {
                Ok(Some(commit)) => Step::Done(Ok(CommitOutcome { id: name, commit })),
                Ok(None) => Step::Done(
                    Err(WriteError::Internal("idempotent tombstone implies a prior commit".to_owned())),
                ),
                Err(e) => Step::Done(Err(e)),
            },
            (TombstoneState::Appending { name }, Reply::Committed(committed)) => match committed {
                Ok(commit) => Step::Done(Ok(CommitOutcome { id: name, commit })),
                Err(e) => Step::Done(Err(e)),
            },
            _ => misplaced(),
        }
    }
}

/// Tombstoning twice is the same as once: an account that is tombstoned already is left as
/// it is, and nothing is appended.
pub proof fn law_tombstone_is_idempotent(
    name: String,
    names: Vec<String>,
    first: Step<TombstoneState, CommitOutcome>,
    reply: Reply,
    second: Step<TombstoneState, CommitOutcome>,
)
    requires
        texts(names@).contains(name@),
        tombstone_next(TombstoneState::Tombstoned { name }, Reply::Names(Ok(names)), first),
        first matches Step::Run(s, _) && tombstone_next(s, reply, second),
    ensures
        first matches Step::Run(_, Action::Head),
        second is Done,
{
}

/// The accounts that are wanted and not declared are declared, each on a line of its own, in
/// their order, and no other: the directives for two lists are those for the one and then those
/// for the other; an account that is declared needs none, and a name that no account can have is
/// refused.
pub proof fn law_missing_accounts_are_declared(
    a: Seq<Seq<char>>,
    b: Seq<Seq<char>>,
    account: Seq<char>,
    declared: Seq<Seq<char>>,
)
    ensures
        match (declarations(a, declared), declarations(b, declared)) {
            (Ok(x), Ok(y)) => declarations(a + b, declared) == Ok::<Seq<char>, Seq<char>>(x + y),
            (Err(m), _) => declarations(a + b, declared) == Err::<Seq<char>, Seq<char>>(m),
            (Ok(_), Err(m)) => declarations(a + b, declared) == Err::<Seq<char>, Seq<char>>(m),
        },
        declarations(seq![account], declared) == if declared.contains(account) {
            Ok(Seq::empty())
        } else if trim(account).len() > 0 && trim(account)[0] != ':' && trim(account).last() != ':' && !trim(
            account,
        ).contains('\n') && !trim(account).contains(';') {
            Ok("account "@ + trim(account) + "\n"@)
        } else {
            Err("invalid account name: '"@ + trim(account) + "'"@)
        },
        declarations(Seq::empty(), declared) == Ok::<Seq<char>, Seq<char>>(Seq::empty()),
    decreases b.len(),
{
    if b.len() == 0 {
        assert(a + b =~= a);
        if let Ok(x) = declarations(a, declared) {
            assert(x + Seq::<char>::empty() =~= x);
        }
    } else {
        law_missing_accounts_are_declared(a, b.drop_last(), account, declared);
        assert((a + b).drop_last() =~= a + b.drop_last());
        assert((a + b).last() == b.last());
        if let (Ok(x), Ok(y)) = (declarations(a, declared), declarations(b.drop_last(), declared)) {
            let more = "account "@ + trim(b.last()) + "\n"@;
            assert((x + y) + more =~= x + (y + more));
        }
    }
    let one = seq![account];
    assert(one.drop_last() =~= Seq::<Seq<char>>::empty());
    assert(one.last() == account);
    let line = "account "@ + trim(account) + "\n"@;
    assert(Seq::<char>::empty() + line =~= line);
}

/// An account is closed only where it is declared and not closed already, by one directive that
/// keeps it declared under its name and marks it; in any other case nothing is appended.
pub proof fn law_only_open_accounts_are_closed(
    s: TombstoneState,
    reply: Reply,
    r: Step<TombstoneState, CommitOutcome>,
)
    requires
        tombstone_next(s, reply, r),
    ensures
        r matches Step::Run(_, Action::Append { addition, message }) ==> (s matches TombstoneState::Tombstoned { name }
            && reply matches Reply::Names(Ok(closed)) && !texts(closed@).contains(name@) && addition@ == "account "@
            + name@ + "  ; tombstoned:\n"@ && message@ == "tombstone account "@ + name@),
        (s matches TombstoneState::Tombstoned { name } && reply matches Reply::Names(Ok(closed)) && !texts(
            closed@,
        ).contains(name@)) ==> (r matches Step::Run(TombstoneState::Appending { .. }, Action::Append { .. })),
        (s matches TombstoneState::Declared { name } && reply matches Reply::Names(Ok(names)) && !texts(
            names@,
        ).contains(name@)) ==> (r matches Step::Done(Err(e)) && e is Input),
        (s matches TombstoneState::Declared { name } && reply matches Reply::Names(Ok(names)) && texts(names@).contains(
            name@,
        )) ==> (r matches Step::Run(TombstoneState::Tombstoned { name: n }, Action::TombstonedAccounts) && n@
            == s->Declared_name@),
        r matches Step::Done(Ok(out)) ==> (s matches TombstoneState::Appending { name } && out.id@ == name@
            && reply == Reply::Committed(Ok(out.commit))) || (s matches TombstoneState::Known { name } && out.id@ == name@
            && reply == Reply::Head(Ok(Some(out.commit)))),
{
}

/// Posting goes on as long as nothing fails: a key in use leads to the head, any other to the
/// checks; what passes them is appended and what does not is refused; and a commit ends it well.
pub proof fn law_posts_fail_only_for_a_reason(s: PostState, reply: Reply, r: Step<PostState, WriteOutcome>)
    requires
        post_next(s, reply, r),
    ensures
        s matches PostState::Lookup { idem, .. } ==> reply matches Reply::Transactions(Ok(txns)) ==> if exists|i: int|
            0 <= i < txns@.len() && tag_of((#[trigger] txns@[i])@.tags, "idem"@) == Some(idem@) {
            r matches Step::Run(PostState::Known { .. }, Action::Head)
        } else {
            r matches Step::Run(PostState::Accounts { .. }, Action::DeclaredAccounts)
        },
        s is Known && (reply matches Reply::Head(Ok(_))) ==> (r matches Step::Done(Ok(_))),
        s is Accounts && (reply matches Reply::Names(Ok(_))) ==> (r matches Step::Run(
            PostState::Commodities { .. },
            Action::DeclaredCommodities,
        )),
        s matches PostState::Commodities { input, accounts, .. } ==> reply matches Reply::Names(Ok(names)) ==> (
        r matches Step::Run(PostState::Appending { .. }, Action::Append { .. })) == (validation(
            input@,
            texts(accounts@),
            texts(names@),
        ) is Ok),
        s is Appending && (reply matches Reply::Committed(Ok(_))) ==> (r matches Step::Done(Ok(_))),
{
    if let (PostState::Lookup { idem, .. }, Reply::Transactions(Ok(txns))) = (s, reply) {
        let all = transactions_view(txns@);
        law_kept_transactions_match_exactly(all, "idem"@, idem@);
        let kept = with_tag(all, "idem"@, idem@);
        if exists|i: int| 0 <= i < txns@.len() && tag_of((#[trigger] txns@[i])@.tags, "idem"@) == Some(idem@) {
            let i = choose|i: int| 0 <= i < txns@.len() && tag_of((#[trigger] txns@[i])@.tags, "idem"@) == Some(idem@);
            assert(all[i] == txns@[i]@);
            assert(kept.contains(all[i]));
            assert(kept.len() > 0);
        } else if kept.len() > 0 {
            lemma_kept_is_listed(all, "idem"@, idem@);
            let t = kept[0];
            assert(all.contains(t));
            let i = choose|i: int| 0 <= i < all.len() && all[i] == t;
            assert(txns@[i]@ == t);
            assert(tag_of(txns@[i]@.tags, "idem"@) == Some(idem@));
        }
    }
}

proof fn lemma_kept_is_listed(txns: Seq<TransactionView>, name: Seq<char>, value: Seq<char>)
    ensures
        forall|i: int|
            0 <= i < with_tag(txns, name, value).len() ==> txns.contains(#[trigger] with_tag(txns, name, value)[i]),
    decreases txns.len(),
{
    if txns.len() > 0 {
        let init = txns.drop_last();
        lemma_kept_is_listed(init, name, value);
        assert forall|i: int| 0 <= i < with_tag(txns, name, value).len() implies txns.contains(
            #[trigger] with_tag(txns, name, value)[i],
        ) by {
            let t = with_tag(txns, name, value)[i];
            if i < with_tag(init, name, value).len() {
                assert(init.contains(t));
                let w = choose|w: int| 0 <= w < init.len() && init[w] == t;
                assert(txns[w] == t);
            } else {
                assert(txns[txns.len() - 1] == t);
            }
        }
    }
}

/// A transaction is voided exactly where it is found, reverses nothing itself, has an amount, and
/// has none that cannot be negated; and once its reversing entry is committed, voiding ends well.
pub proof fn law_voids_fail_only_for_a_reason(s: VoidState, reply: Reply, r: Step<VoidState, WriteOutcome>)
    requires
        void_next(s, reply, r),
    ensures
        s matches VoidState::Lookup { target_id } ==> reply matches Reply::Transactions(Ok(_)) ==> ({
            let found = with_tag(listed_txns(reply), "id"@, target_id@);
            &&& r is Run <==> found.len() > 0 && tag_of(found[0].tags, "reverses"@) is None && (exists|i: int|
                0 <= i < found[0].postings.len() && (#[trigger] found[0].postings[i]).amounts.len() > 0) && (forall|
                i: int,
                j: int,
            |
                0 <= i < found[0].postings.len() && 0 <= j < found[0].postings[i].amounts.len() ==> (
                #[trigger] found[0].postings[i].amounts[j]).quantity.mantissa != i128::MIN)
        }),
        s is Appending && (reply matches Reply::Committed(Ok(_))) ==> (r matches Step::Done(Ok(_))),
{
    if let (VoidState::Lookup { target_id }, Reply::Transactions(Ok(_))) = (s, reply) {
        let found = with_tag(listed_txns(reply), "id"@, target_id@);
        if found.len() > 0 {
            let postings = found[0].postings;
            lemma_has_lines(postings);
        }
    }
}

proof fn lemma_has_lines(postings: Seq<PostingView>)
    ensures
        posted_lines(postings).len() > 0 <==> exists|i: int|
            0 <= i < postings.len() && (#[trigger] postings[i]).amounts.len() > 0,
    decreases postings.len(),
{
    if postings.len() > 0 {
        let init = postings.drop_last();
        lemma_has_lines(init);
        let n = postings.len() - 1;
        if posted_lines(postings).len() > 0 {
            if postings[n].amounts.len() == 0 {
                let i = choose|i: int| 0 <= i < init.len() && (#[trigger] init[i]).amounts.len() > 0;
                assert(postings[i].amounts.len() > 0);
            }
        }
        if exists|i: int| 0 <= i < postings.len() && (#[trigger] postings[i]).amounts.len() > 0 {
            let i = choose|i: int| 0 <= i < postings.len() && (#[trigger] postings[i]).amounts.len() > 0;
            if i < n {
                assert(init[i].amounts.len() > 0);
            }
        }
    }
}

/// What is appended is committed under what it is: a transaction under its identifier, which is
/// the one in its entry, and a reversal under what it reverses and its own.
pub proof fn law_commits_tell_what_they_hold(
    v: ValidatedView,
    key: Seq<char>,
    s: PostState,
    a: Action,
    target: TransactionView,
    target_id: Seq<char>,
    r: Step<VoidState, WriteOutcome>,
)
    requires
        post_appends(v, key, s, a),
        void_found(target, target_id, r),
    ensures
        s matches PostState::Appending { id } && a matches Action::Append { addition, message } && message@ == "post id:"@
            + id@ && addition@ == post_text(v, id@, key),
        r matches Step::Run(VoidState::Appending { id }, Action::Append { addition, message }) ==> message@
            == "void reverses:"@ + target_id + " id:"@ + id@ && exists|idem: Seq<char>| addition@ == #[trigger] void_text(
            target,
            target_id,
            id@,
            idem,
        ),
{
}

} // verus!
