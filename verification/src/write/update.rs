//! Replacing a transaction, step by step: it is voided and another one is posted, two entries.
//!
//! Everything that can be wrong with the replacement is found before anything is changed: it
//! is checked, and its idempotency key is looked up. Once the reversal is committed, what is
//! left to do is to append the replacement.

use vstd::prelude::*;

use crate::hledger::{Transaction, TransactionView, hledger_error_text, transactions_view};
use crate::text::{cat3, texts};
use crate::write::{WriteError, WriteOutcome, exact_tag_query, keep_exact_tag, tag_query, with_tag};
use crate::write::input::{TransactionInput, TransactionInputView};
use crate::write::plan::{
    Action, PostState, Reply, Step, Turn, VoidState, accepted, append_post, chained, ends_input,
    ends_internal, entries, internal, is_key_for, key_for, law_void_reverses_its_target,
    lemma_entries_step, listed_txns, misplaced, post_appends, post_next, post_text, reverses,
    void_begins, void_next, void_start,
};
use crate::write::validate::{ValidatedTxn, ValidatedView, validate, validation};
use crate::write::view::WriteContext;

verus! {

/// Where replacing a transaction stands.
#[derive(Debug)]
pub enum UpdateState {
    /// The declared accounts are being read.
    Accounts { target_id: String, replacement: TransactionInput },
    /// The declared commodities are being read.
    Commodities { target_id: String, replacement: TransactionInput, accounts: Vec<String> },
    /// The replacement passed the checks, and its idempotency key is being looked up.
    Lookup { target_id: String, valid: ValidatedTxn, key: String },
    /// The key is free, and the transaction is being voided.
    Voiding { void: VoidState, valid: ValidatedTxn, key: String },
    /// The replacement is being appended.
    Posting { post: PostState },
}

/// The step of a replacement that a step of its voiding makes: once the transaction is voided,
/// the replacement is appended.
pub open spec fn update_voids(
    inner: Step<VoidState, WriteOutcome>,
    v: ValidatedView,
    key: Seq<char>,
    r: Step<UpdateState, WriteOutcome>,
) -> bool {
    match inner {
        Step::Run(s, a) => r matches Step::Run(UpdateState::Voiding { void, valid, key: k }, action) && void == s
            && valid@ == v && k@ == key && action == a,
        Step::Done(Ok(_)) => r matches Step::Run(UpdateState::Posting { post }, action) && post_appends(
            v,
            key,
            post,
            action,
        ),
        Step::Done(Err(e)) => r == Step::<UpdateState, WriteOutcome>::Done(Err(e)),
    }
}

/// The step of a replacement that a step of its posting makes.
pub open spec fn update_posts(inner: Step<PostState, WriteOutcome>, r: Step<UpdateState, WriteOutcome>) -> bool {
    match inner {
        Step::Run(s, a) => r == Step::<UpdateState, WriteOutcome>::Run(UpdateState::Posting { post: s }, a),
        Step::Done(done) => r == Step::<UpdateState, WriteOutcome>::Done(done),
    }
}

/// What follows a reply.
pub open spec fn update_next(s: UpdateState, reply: Reply, r: Step<UpdateState, WriteOutcome>) -> bool {
    match s {
        UpdateState::Accounts { target_id, replacement } => match reply {
            Reply::Names(Ok(names)) => r matches Step::Run(
                UpdateState::Commodities { target_id: t, replacement: p, accounts },
                Action::DeclaredCommodities,
            ) && t == target_id && p == replacement && accounts == names,
            Reply::Names(Err(e)) => ends_internal(r, "read declared accounts: "@ + hledger_error_text(e)),
            _ => ends_internal(r, "unexpected reply"@),
        },
        UpdateState::Commodities { target_id, replacement, accounts } => match reply {
            Reply::Names(Ok(names)) => match validation(replacement@, texts(accounts@), texts(names@)) {
                Ok(v) => r matches Step::Run(
                    UpdateState::Lookup { target_id: t, valid, key },
                    Action::Print { query },
                ) && t == target_id && valid@ == v && is_key_for(replacement@, key@) && query@ == exact_tag_query(
                    "idem"@,
                    key@,
                ),
                Err(m) => ends_input(r, m),
            },
            Reply::Names(Err(e)) => ends_internal(r, "read declared commodities: "@ + hledger_error_text(e)),
            _ => ends_internal(r, "unexpected reply"@),
        },
        UpdateState::Lookup { target_id, valid, key } => match reply {
            Reply::Transactions(Ok(txns)) => if with_tag(transactions_view(txns@), "idem"@, key@).len() > 0 {
                ends_input(
                    r,
                    "idempotency key '"@ + key@ + "' is already used; a replacement needs one of its own"@,
                )
            } else {
                exists|void: Step<VoidState, WriteOutcome>|
                    #![trigger void_begins(target_id@, void)]
                    void_begins(target_id@, void) && update_voids(void, valid@, key@, r)
            },
            Reply::Transactions(Err(e)) => ends_internal(r, "idempotency query: "@ + hledger_error_text(e)),
            _ => ends_internal(r, "unexpected reply"@),
        },
        UpdateState::Voiding { void, valid, key } => exists|inner: Step<VoidState, WriteOutcome>|
            #![trigger void_next(void, reply, inner)]
            void_next(void, reply, inner) && update_voids(inner, valid@, key@, r),
        UpdateState::Posting { post } => exists|inner: Step<PostState, WriteOutcome>|
            #![trigger post_next(post, reply, inner)]
            post_next(post, reply, inner) && update_posts(inner, r),
    }
}

/// Begins to replace a transaction.
pub fn update_transaction(_ctx: &WriteContext, target_id: &str, replacement: TransactionInput) -> (r: Step<
    UpdateState,
    WriteOutcome,
>)
    ensures
        r matches Step::Run(UpdateState::Accounts { target_id: t, replacement: p }, Action::DeclaredAccounts) && t@
            == target_id@ && p == replacement,
{
    Step::Run(UpdateState::Accounts { target_id: target_id.to_owned(), replacement }, Action::DeclaredAccounts)
}

fn after_void(inner: Step<VoidState, WriteOutcome>, valid: ValidatedTxn, key: String) -> (r: Step<
    UpdateState,
    WriteOutcome,
>)
    ensures
        update_voids(inner, valid@, key@, r),
{
    match inner {
        Step::Run(void, action) => Step::Run(UpdateState::Voiding { void, valid, key }, action),
        Step::Done(Ok(_)) => {
            let (post, action) = append_post(&valid, &key);
            Step::Run(UpdateState::Posting { post }, action)
        },
        Step::Done(Err(e)) => Step::Done(Err(e)),
    }
}

impl UpdateState {
    /// What follows the reply to the last action.
    pub fn step(self, reply: Reply) -> (r: Step<UpdateState, WriteOutcome>)
        ensures
            update_next(self, reply, r),
    {
        match self {
            UpdateState::Accounts { target_id, replacement } => match reply {
                Reply::Names(Ok(accounts)) => Step::Run(
                    UpdateState::Commodities { target_id, replacement, accounts },
                    Action::DeclaredCommodities,
                ),
                Reply::Names(Err(e)) => internal("read declared accounts: ", &e),
                _ => misplaced(),
            },
            UpdateState::Commodities { target_id, replacement, accounts } => match reply {
                Reply::Names(Ok(commodities)) => match validate(&replacement, &accounts, &commodities) {
                    Ok(valid) => {
                        let key: String = key_for(&replacement);
                        let query: String = tag_query("idem", &key);
                        Step::Run(UpdateState::Lookup { target_id, valid, key }, Action::Print { query })
                    },
                    Err(m) => Step::Done(Err(WriteError::Input(m))),
                },
                Reply::Names(Err(e)) => internal("read declared commodities: ", &e),
                _ => misplaced(),
            },
            UpdateState::Lookup { target_id, valid, key } => match reply {
                Reply::Transactions(Ok(txns)) => {
                    let used: Vec<Transaction> = keep_exact_tag(txns, "idem", &key);
                    assert(transactions_view(used@).len() == used@.len());
                    if used.len() > 0 {
                        Step::Done(
                            Err(
                                WriteError::Input(
                                    cat3(
                                        "idempotency key '",
                                        &key,
                                        "' is already used; a replacement needs one of its own",
                                    ),
                                ),
                            ),
                        )
                    } else {
                        let void: Step<VoidState, WriteOutcome> = void_start(&target_id);
                        let r: Step<UpdateState, WriteOutcome> = after_void(void, valid, key);
                        assert(void_begins(target_id@, void) && update_voids(void, valid@, key@, r));
                        r
                    }
                },
                Reply::Transactions(Err(e)) => internal("idempotency query: ", &e),
                _ => misplaced(),
            },
            UpdateState::Voiding { void, valid, key } => {
                let inner: Step<VoidState, WriteOutcome> = void.step(reply);
                let r: Step<UpdateState, WriteOutcome> = after_void(inner, valid, key);
                assert(void_next(void, reply, inner) && update_voids(inner, valid@, key@, r));
                r
            },
            UpdateState::Posting { post } => {
                let inner: Step<PostState, WriteOutcome> = post.step(reply);
                let r: Step<UpdateState, WriteOutcome> = match inner {
                    Step::Run(next, action) => Step::Run(UpdateState::Posting { post: next }, action),
                    Step::Done(done) => Step::Done(done),
                };
                assert(post_next(post, reply, inner) && update_posts(inner, r));
                r
            },
        }
    }
}

// ---------------------------------------------------------------------------
// Laws
// ---------------------------------------------------------------------------

/// One step of a replacement.
pub type UpdateTurn = Turn<UpdateState, WriteOutcome>;

/// Is it the course of replacing the transaction `target_id`?
pub open spec fn update_course(turns: Seq<UpdateTurn>, target_id: Seq<char>, replacement: TransactionInput) -> bool {
    &&& turns.len() > 0 ==> turns[0].action is DeclaredAccounts && (turns[0].state matches UpdateState::Accounts {
        target_id: t,
        replacement: p,
    } && t@ == target_id && p == replacement)
    &&& forall|i: int| 0 <= i < turns.len() ==> update_next(
        (#[trigger] turns[i]).state,
        turns[i].reply,
        turns[i].step,
    )
    &&& chained(turns)
}

/// Does the entry reverse a transaction with this identifier?
pub open spec fn is_reversal_of(entry: Seq<char>, target_id: Seq<char>) -> bool {
    exists|target: TransactionView| #[trigger] reverses(entry, target, target_id)
}

/// Is the entry that of the replacement, with this identifier?
pub open spec fn is_replacement(entry: Seq<char>, replacement: TransactionInputView, id: Seq<char>) -> bool {
    exists|v: ValidatedView, key: Seq<char>|
        accepted(replacement, v) && is_key_for(replacement, key) && entry == #[trigger] post_text(v, id, key)
}

/// Is the action the writing of an entry?
pub open spec fn appends(action: Action) -> bool {
    action is Append
}

/// What has been done where a replacement stands, with these entries committed.
spec fn update_stands(
    turn: UpdateTurn,
    done: Seq<Seq<char>>,
    target_id: Seq<char>,
    replacement: TransactionInput,
) -> bool {
    match turn.state {
        UpdateState::Accounts { target_id: t, replacement: p } => done.len() == 0 && !appends(turn.action) && t@
            == target_id && p == replacement,
        UpdateState::Commodities { target_id: t, replacement: p, .. } => done.len() == 0 && !appends(turn.action) && t@
            == target_id && p == replacement,
        UpdateState::Lookup { target_id: t, valid, key } => done.len() == 0 && !appends(turn.action) && t@ == target_id
            && accepted(replacement@, valid@) && is_key_for(replacement@, key@),
        UpdateState::Voiding { void, valid, key } => done.len() == 0 && accepted(replacement@, valid@) && is_key_for(
            replacement@,
            key@,
        ) && match void {
            VoidState::Lookup { target_id: t } => t@ == target_id && !appends(turn.action),
            VoidState::Appending { .. } => turn.action matches Action::Append { addition, .. } && is_reversal_of(
                addition@,
                target_id,
            ),
        },
        UpdateState::Posting { post } => done.len() == 1 && is_reversal_of(done[0], target_id) && (
        post matches PostState::Appending { id } && turn.action matches Action::Append { addition, .. }
            && is_replacement(addition@, replacement@, id@)),
    }
}

/// The entries after a turn.
spec fn with_turn(done: Seq<Seq<char>>, turn: UpdateTurn) -> Seq<Seq<char>> {
    match (turn.action, turn.reply) {
        (Action::Append { addition, .. }, Reply::Committed(Ok(_))) => done.push(addition@),
        _ => done,
    }
}

proof fn lemma_update_step(
    turn: UpdateTurn,
    next: UpdateTurn,
    done: Seq<Seq<char>>,
    target_id: Seq<char>,
    replacement: TransactionInput,
)
    requires
        update_stands(turn, done, target_id, replacement),
        update_next(turn.state, turn.reply, turn.step),
        turn.step matches Step::Run(s, a) && next.state == s && next.action == a,
    ensures
        update_stands(next, with_turn(done, turn), target_id, replacement),
{
    match turn.state {
        UpdateState::Accounts { .. } => {},
        UpdateState::Commodities { accounts, .. } => {
            if let Reply::Names(Ok(names)) = turn.reply {
                assert(validation(replacement@, texts(accounts@), texts(names@)) is Ok);
            }
        },
        UpdateState::Lookup { target_id: t, valid, key } => {
            let void = choose|void: Step<VoidState, WriteOutcome>|
                #![trigger void_begins(t@, void)]
                void_begins(t@, void) && update_voids(void, valid@, key@, turn.step);
            assert(void_begins(t@, void));
        },
        UpdateState::Voiding { void, valid, key } => {
            let inner = choose|inner: Step<VoidState, WriteOutcome>|
                #![trigger void_next(void, turn.reply, inner)]
                void_next(void, turn.reply, inner) && update_voids(inner, valid@, key@, turn.step);
            law_void_reverses_its_target(void, turn.reply, inner);
            match inner {
                Step::Run(s2, a2) => {
                    let addition = a2->Append_addition;
                    let target = with_tag(listed_txns(turn.reply), "id"@, target_id)[0];
                    assert(reverses(addition@, target, target_id));
                },
                Step::Done(_) => {
                    let id = next.state->Posting_post->Appending_id;
                    assert(next.action->Append_addition@ == post_text(valid@, id@, key@));
                },
            }
        },
        UpdateState::Posting { post } => {
            let inner = choose|inner: Step<PostState, WriteOutcome>|
                #![trigger post_next(post, turn.reply, inner)]
                post_next(post, turn.reply, inner) && update_posts(inner, turn.step);
            assert(inner is Done);
        },
    }
}

proof fn lemma_update_course(
    turns: Seq<UpdateTurn>,
    target_id: Seq<char>,
    replacement: TransactionInput,
    i: int,
)
    requires
        update_course(turns, target_id, replacement),
        0 <= i < turns.len(),
    ensures
        update_stands(turns[i], entries(turns.take(i)), target_id, replacement),
    decreases i,
{
    if i > 0 {
        lemma_update_course(turns, target_id, replacement, i - 1);
        lemma_entries_step(turns, i - 1);
        assert(update_next(turns[i - 1].state, turns[i - 1].reply, turns[i - 1].step));
        assert(turns[i].state == turns[i - 1].step->Run_0);
        lemma_update_step(turns[i - 1], turns[i], entries(turns.take(i - 1)), target_id, replacement);
    }
}

/// A replacement is two entries or none. A course that ends well has committed exactly two:
/// one that reverses the transaction, and then that of the replacement, with the identifier in
/// the outcome, and it is never taken for a repeated request. A course that ends in an error
/// has committed nothing, unless writing the replacement itself failed: no wrong replacement
/// and no key in use leaves the transaction voided with nothing in its place.
pub proof fn law_update_is_two_entries_or_none(
    turns: Seq<UpdateTurn>,
    target_id: Seq<char>,
    replacement: TransactionInput,
)
    requires
        update_course(turns, target_id, replacement),
        turns.len() > 0,
        turns.last().step is Done,
    ensures
        turns.last().step matches Step::Done(Ok(out)) ==> {
            &&& !out.deduped
            &&& entries(turns).len() == 2
            &&& is_reversal_of(entries(turns)[0], target_id)
            &&& is_replacement(entries(turns)[1], replacement@, out.base.id@)
        },
        turns.last().step matches Step::Done(Err(_)) ==> entries(turns).len() == 0 || (turns.last().state is Posting
            && appends(turns.last().action) && !(turns.last().reply matches Reply::Committed(Ok(_)))),
{
    let n = turns.len() - 1;
    let last = turns[n];
    lemma_update_course(turns, target_id, replacement, n);
    lemma_entries_step(turns, n);
    assert(turns.take(n + 1) =~= turns);
    assert(update_next(last.state, last.reply, last.step));
    match last.state {
        UpdateState::Voiding { void, valid, key } => {
            let inner = choose|inner: Step<VoidState, WriteOutcome>|
                #![trigger void_next(void, last.reply, inner)]
                void_next(void, last.reply, inner) && update_voids(inner, valid@, key@, last.step);
            assert(void_next(void, last.reply, inner));
        },
        UpdateState::Posting { post } => {
            let inner = choose|inner: Step<PostState, WriteOutcome>|
                #![trigger post_next(post, last.reply, inner)]
                post_next(post, last.reply, inner) && update_posts(inner, last.step);
            assert(post_next(post, last.reply, inner));
        },
        UpdateState::Lookup { target_id: t, valid, key } => {},
        _ => {},
    }
}

/// A replacement that fails the checks, or whose key is in use, is refused with nothing
/// written.
pub proof fn law_refused_replacement_writes_nothing(
    turns: Seq<UpdateTurn>,
    target_id: Seq<char>,
    replacement: TransactionInput,
    i: int,
)
    requires
        update_course(turns, target_id, replacement),
        0 <= i < turns.len(),
        match turns[i].state {
            UpdateState::Commodities { accounts, .. } => turns[i].reply matches Reply::Names(Ok(names)) && validation(
                replacement@,
                texts(accounts@),
                texts(names@),
            ) is Err,
            UpdateState::Lookup { key, .. } => with_tag(listed_txns(turns[i].reply), "idem"@, key@).len() > 0,
            _ => false,
        },
    ensures
        turns[i].step matches Step::Done(Err(e)) && e is Input,
        entries(turns.take(i + 1)).len() == 0,
{
    lemma_update_course(turns, target_id, replacement, i);
    lemma_entries_step(turns, i);
    assert(update_next(turns[i].state, turns[i].reply, turns[i].step));
}

/// A replacement goes on as long as nothing fails: what passes the checks is looked up by its key,
/// a key that is free leads to the void, and a void that ended leads to the replacement.
pub proof fn law_replacements_fail_only_for_a_reason(
    s: UpdateState,
    reply: Reply,
    r: Step<UpdateState, WriteOutcome>,
)
    requires
        update_next(s, reply, r),
    ensures
        s is Accounts && (reply matches Reply::Names(Ok(_))) ==> r is Run,
        s matches UpdateState::Commodities { replacement, accounts, .. } ==> reply matches Reply::Names(Ok(names)) ==> (
        r is Run) == (validation(replacement@, texts(accounts@), texts(names@)) is Ok),
        s matches UpdateState::Lookup { key, .. } ==> reply matches Reply::Transactions(Ok(_)) ==> (r is Run) == (with_tag(
            listed_txns(reply),
            "idem"@,
            key@,
        ).len() == 0),
        s matches UpdateState::Voiding { void, .. } && void is Appending && (reply matches Reply::Committed(Ok(_))) ==> (
        r matches Step::Run(UpdateState::Posting { .. }, Action::Append { .. })),
        s matches UpdateState::Posting { post } && post is Appending && (reply matches Reply::Committed(Ok(_))) ==> (
        r matches Step::Done(Ok(_))),
{
    match s {
        UpdateState::Lookup { target_id, valid, key } => {
            if let Reply::Transactions(Ok(_)) = reply {
                if with_tag(listed_txns(reply), "idem"@, key@).len() == 0 {
                    let void = choose|void: Step<VoidState, WriteOutcome>|
                        #![trigger void_begins(target_id@, void)]
                        void_begins(target_id@, void) && update_voids(void, valid@, key@, r);
                    assert(void_begins(target_id@, void));
                }
            }
        },
        UpdateState::Voiding { void, valid, key } => {
            let inner = choose|inner: Step<VoidState, WriteOutcome>|
                #![trigger void_next(void, reply, inner)]
                void_next(void, reply, inner) && update_voids(inner, valid@, key@, r);
            assert(void_next(void, reply, inner));
        },
        UpdateState::Posting { post } => {
            let inner = choose|inner: Step<PostState, WriteOutcome>|
                #![trigger post_next(post, reply, inner)]
                post_next(post, reply, inner) && update_posts(inner, r);
            assert(post_next(post, reply, inner));
        },
        _ => {},
    }
}

} // verus!
