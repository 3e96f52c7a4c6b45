//! Posting, seen as a whole: what a request and its repetition do to the ledger.
//!
//! Every transaction is written with an idempotency key, and a key that is in the ledger
//! already is answered with the transaction that carries it.

use vstd::prelude::*;

use crate::epoch::CommitOid;
use crate::hledger::TransactionView;
use crate::text::{same, texts, trim};
use crate::write::{WriteError, WriteOutcome, exact_tag_query, is_uuid_text, tag_of, with_tag};
use crate::write::input::{TransactionInput, TransactionInputView};
use crate::write::plan::{
    Action, PostState, Reply, Step, accepted, ends_input, is_key_for, listed_txns, post_appends,
    post_begins, post_next, post_text,
};
use crate::write::readback::{is_read_from, law_posted_entry_is_found, ledger_after};
use crate::write::validate::{
    ValidatedView, is_idem_key, law_validation_accepts_exactly, validation,
};

verus! {

/// What posting can touch: the transactions, and the commit at the head, where there is one.
pub struct Ledger {
    pub txns: Seq<TransactionView>,
    pub head: Option<Seq<char>>,
}

/// What a commit at the head, where there is one, is called.
pub open spec fn head_view(head: Option<CommitOid>) -> Option<Seq<char>> {
    match head {
        Some(oid) => Some(oid@),
        None => None,
    }
}

/// The name of the head; empty where there is no commit.
pub open spec fn head_text(head: Option<Seq<char>>) -> Seq<char> {
    match head {
        Some(oid) => oid,
        None => Seq::empty(),
    }
}

/// Is it what an action leaves of the ledger, by its reply? The transactions are those of
/// [`ledger_after`]; a commit becomes the head, and the head is told as it is.
pub open spec fn ledger_performed(d: Ledger, action: Action, reply: Reply, after: Ledger) -> bool {
    &&& ledger_after(d.txns, action, reply, after.txns)
    &&& match (action, reply) {
        (Action::Append { .. }, Reply::Committed(Ok(oid))) => after.head == Some(oid@),
        (Action::Head, Reply::Head(Ok(head))) => after.head == d.head && head_view(head) == d.head,
        _ => after.head == d.head,
    }
}

/// One step of posting a transaction, with what the action left of the ledger.
pub struct PostTurn {
    pub state: PostState,
    pub action: Action,
    pub reply: Reply,
    pub step: Step<PostState, WriteOutcome>,
    pub before: Ledger,
    pub after: Ledger,
}

/// Is it the course of posting this transaction with this key?
pub open spec fn post_course(turns: Seq<PostTurn>, input: TransactionInput, key: Seq<char>) -> bool {
    &&& turns.len() > 0 ==> post_begins(input, Step::Run(turns[0].state, turns[0].action)) && (
    turns[0].state matches PostState::Lookup { idem, .. } && idem@ == key)
    &&& forall|i: int|
        0 <= i < turns.len() ==> post_next((#[trigger] turns[i]).state, turns[i].reply, turns[i].step)
            && ledger_performed(turns[i].before, turns[i].action, turns[i].reply, turns[i].after)
    &&& forall|i: int|
        0 < i < turns.len() ==> (turns[i - 1].step matches Step::Run(s, a) && (#[trigger] turns[i]).state == s
            && turns[i].action == a) && turns[i].before == turns[i - 1].after
}

/// Was every action carried out?
pub open spec fn all_answered(turns: Seq<PostTurn>) -> bool {
    forall|i: int| 0 <= i < turns.len() ==> answered((#[trigger] turns[i]).action, turns[i].reply)
}

/// Is it the reply to an action of posting that was carried out?
pub open spec fn answered(action: Action, reply: Reply) -> bool {
    match action {
        Action::Print { .. } => reply matches Reply::Transactions(Ok(_)),
        Action::DeclaredAccounts | Action::DeclaredCommodities => reply matches Reply::Names(Ok(_)),
        Action::Head => reply matches Reply::Head(Ok(_)),
        Action::Append { .. } => reply matches Reply::Committed(Ok(_)),
        _ => false,
    }
}

/// Is nothing written in any turn?
pub open spec fn writes_nothing(turns: Seq<PostTurn>) -> bool {
    forall|i: int| 0 <= i < turns.len() ==> !((#[trigger] turns[i]).action is Append)
}

/// Where posting stands at turn `i`. Nothing was written before it.
spec fn post_stands(turns: Seq<PostTurn>, input: TransactionInput, key: Seq<char>, i: int) -> bool {
    let turn = turns[i];
    &&& turn.before == turns[0].before
    &&& match turn.state {
        PostState::Lookup { input: t, idem } => i == 0 && t == input && idem@ == key && (
        turn.action matches Action::Print { query } && query@ == exact_tag_query("idem"@, key)),
        PostState::Known { id } => i == 1 && turn.action is Head && ({
            let prior = with_tag(turns[0].before.txns, "idem"@, key);
            prior.len() > 0 && id@ == known_id(prior[0])
        }),
        PostState::Accounts { input: t, idem } => i == 1 && t == input && idem@ == key
            && turn.action is DeclaredAccounts,
        PostState::Commodities { input: t, idem, accounts } => i == 2 && t == input && idem@ == key
            && turn.action is DeclaredCommodities && turns[1].reply == Reply::Names(Ok(accounts)),
        PostState::Appending { .. } => i == 3 && (turns[1].reply matches Reply::Names(Ok(accounts)) && turns[2].reply matches Reply::Names(
            Ok(names),
        ) && validation(input@, texts(accounts@), texts(names@)) matches Ok(v) && post_appends(
            v,
            key,
            turn.state,
            turn.action,
        )),
    }
    &&& (turn.state is Accounts || turn.state is Commodities || turn.state is Appending) ==> with_tag(
        turns[0].before.txns,
        "idem"@,
        key,
    ).len() == 0
}

/// The identifier of a transaction; empty where it has none.
pub open spec fn known_id(t: TransactionView) -> Seq<char> {
    match tag_of(t.tags, "id"@) {
        Some(id) => id,
        None => Seq::empty(),
    }
}

proof fn lemma_post_course(turns: Seq<PostTurn>, input: TransactionInput, key: Seq<char>, i: int)
    requires
        post_course(turns, input, key),
        0 <= i < turns.len(),
    ensures
        post_stands(turns, input, key, i),
        is_key_for(input@, key),
    decreases i,
{
    if i > 0 {
        lemma_post_course(turns, input, key, i - 1);
        let turn = turns[i - 1];
        assert(post_next(turn.state, turn.reply, turn.step));
        assert(ledger_performed(turn.before, turn.action, turn.reply, turn.after));
        assert(turns[i].state == turn.step->Run_0);
        assert(turns[i].before == turn.after);
    }
}

/// The transaction in the ledger that was posted: that of a request that passed the checks,
/// with this key and this identifier.
pub open spec fn is_posted(t: TransactionView, input: TransactionInputView, id: Seq<char>, key: Seq<char>) -> bool {
    &&& exists|v: ValidatedView| accepted(input, v) && is_read_from(t, #[trigger] post_text(v, id, key))
    &&& tag_of(t.tags, "id"@) == Some(id)
    &&& tag_of(t.tags, "idem"@) == Some(key)
}

/// What a request did to the ledger, by how it ended.
pub open spec fn post_result(
    before: Ledger,
    input: TransactionInputView,
    key: Seq<char>,
    done: Result<WriteOutcome, WriteError>,
    after: Ledger,
) -> bool {
    let prior = with_tag(before.txns, "idem"@, key);
    match done {
        Ok(out) => if out.deduped {
            after == before && prior.len() > 0 && out.base.id@ == known_id(prior[0]) && out.base.commit@ == head_text(
                before.head,
            )
        } else {
            &&& prior.len() == 0
            &&& after.txns.len() == before.txns.len() + 1
            &&& after.txns.drop_last() == before.txns
            &&& is_posted(after.txns.last(), input, out.base.id@, key)
            &&& after.head == Some(out.base.commit@)
        },
        Err(_) => after == before,
    }
}

/// A request is one transaction or none. One that was carried out has added exactly one to the
/// ledger, the one that it asked for, with its key and with the identifier in the outcome, in
/// the commit that is now the head; its key was not in use. One that was recognised as a
/// repetition has changed nothing, and tells the first transaction with its key, and the head.
/// One that ended in an error has changed nothing. The key is the one that was given, or a
/// fresh one.
pub proof fn law_post_is_one_entry_or_none(turns: Seq<PostTurn>, input: TransactionInput, key: Seq<char>)
    requires
        post_course(turns, input, key),
        turns.len() > 0,
        turns.last().step is Done,
    ensures
        is_key_for(input@, key),
        post_result(turns[0].before, input@, key, turns.last().step->Done_0, turns.last().after),
{
    let n = turns.len() - 1;
    let last = turns[n];
    lemma_post_course(turns, input, key, n);
    assert(post_next(last.state, last.reply, last.step));
    assert(ledger_performed(last.before, last.action, last.reply, last.after));
    if let PostState::Appending { id } = last.state {
        if let Reply::Committed(Ok(_)) = last.reply {
            let accounts = turns[1].reply->Names_0->Ok_0;
            let names = turns[2].reply->Names_0->Ok_0;
            let v = validation(input@, texts(accounts@), texts(names@))->Ok_0;
            assert(accepted(input@, v));
            law_posted_entry_is_found(input@, texts(accounts@), texts(names@), id@, key);
            assert(is_read_from(last.after.txns.last(), post_text(v, id@, key)));
        }
    }
}

proof fn lemma_with_tag_push(ledger: Seq<TransactionView>, t: TransactionView, name: Seq<char>, value: Seq<char>)
    ensures
        with_tag(ledger.push(t), name, value) == if tag_of(t.tags, name) == Some(value) {
            with_tag(ledger, name, value).push(t)
        } else {
            with_tag(ledger, name, value)
        },
{
    assert(ledger.push(t).drop_last() =~= ledger);
}

/// What a search finds after a request that ended well: its own key, and with it the
/// transaction that the outcome tells; under any other key what was found before.
proof fn lemma_found_after(
    before: Ledger,
    input: TransactionInputView,
    key: Seq<char>,
    out: WriteOutcome,
    after: Ledger,
    other: Seq<char>,
)
    requires
        post_result(before, input, key, Ok(out), after),
    ensures
        with_tag(after.txns, "idem"@, key).len() > 0,
        known_id(with_tag(after.txns, "idem"@, key)[0]) == out.base.id@,
        !out.deduped ==> with_tag(after.txns, "idem"@, key).len() == 1,
        head_text(after.head) == out.base.commit@,
        other != key ==> with_tag(after.txns, "idem"@, other) == with_tag(before.txns, "idem"@, other),
{
    if !out.deduped {
        let t = after.txns.last();
        assert(after.txns =~= before.txns.push(t));
        lemma_with_tag_push(before.txns, t, "idem"@, key);
        lemma_with_tag_push(before.txns, t, "idem"@, other);
    }
}

proof fn lemma_known_key(turns: Seq<PostTurn>, input: TransactionInput, key: Seq<char>)
    requires
        post_course(turns, input, key),
        turns.len() > 0,
        turns.last().step is Done,
        all_answered(turns),
        with_tag(turns[0].before.txns, "idem"@, key).len() > 0,
    ensures
        turns.last().step matches Step::Done(Ok(out)) && out.deduped,
        writes_nothing(turns),
{
    let n = turns.len() - 1;
    lemma_post_course(turns, input, key, 0);
    assert(answered(turns[0].action, turns[0].reply));
    assert(post_next(turns[0].state, turns[0].reply, turns[0].step));
    assert(ledger_performed(turns[0].before, turns[0].action, turns[0].reply, turns[0].after));
    assert(with_tag(listed_txns(turns[0].reply), "idem"@, key) == with_tag(turns[0].before.txns, "idem"@, key));
    assert(turns[0].step matches Step::Run(PostState::Known { .. }, Action::Head));
    assert(turns[1].state == turns[0].step->Run_0);
    assert(answered(turns[1].action, turns[1].reply));
    assert(post_next(turns[1].state, turns[1].reply, turns[1].step));
    if n > 1 {
        assert(turns[2].state == turns[1].step->Run_0);
    }
}

/// A repeated request changes nothing. A first request with a key ended well, whether it was
/// carried out or was a repetition itself, and nothing was written since. Whatever a second one
/// with the same key asks for, it appends nothing and leaves the transactions and the head as
/// they are; it ends well, marked as repeated, with the identifier of the first one and the head
/// as the commit. Where the first one was carried out, the ledger holds exactly one transaction
/// with this key.
pub proof fn law_retry_is_recognised(
    first: Seq<PostTurn>,
    input: TransactionInput,
    second: Seq<PostTurn>,
    again: TransactionInput,
    key: Seq<char>,
)
    requires
        post_course(first, input, key),
        first.len() > 0,
        first.last().step matches Step::Done(Ok(_)),
        post_course(second, again, key),
        second.len() > 0,
        second[0].before == first.last().after,
        second.last().step is Done,
        all_answered(second),
    ensures
        ({
            let ledger = first.last().after;
            let out = first.last().step->Done_0->Ok_0;
            &&& second.last().step matches Step::Done(Ok(same)) && same.deduped && same.base.id@ == out.base.id@
                && same.base.commit@ == head_text(ledger.head)
            &&& second.last().after == ledger
            &&& writes_nothing(second)
            &&& !out.deduped ==> ledger.head == Some(out.base.commit@) && with_tag(ledger.txns, "idem"@, key).len() == 1
        }),
{
    let before = first[0].before;
    let ledger = first.last().after;
    let out = first.last().step->Done_0->Ok_0;
    law_post_is_one_entry_or_none(first, input, key);
    lemma_found_after(before, input@, key, out, ledger, key);
    lemma_known_key(second, again, key);
    law_post_is_one_entry_or_none(second, again, key);
}

/// The same key on a retry is the same key: two requests that are given one key search for and
/// write one key, whatever white space stands around it.
pub proof fn law_given_keys_agree(
    first: Seq<PostTurn>,
    input: TransactionInput,
    key: Seq<char>,
    second: Seq<PostTurn>,
    again: TransactionInput,
    same_key: Seq<char>,
)
    requires
        post_course(first, input, key),
        first.len() > 0,
        post_course(second, again, same_key),
        second.len() > 0,
        input@.idem is Some,
        again@.idem == input@.idem,
    ensures
        key == trim(input@.idem->0),
        same_key == key,
{
    lemma_post_course(first, input, key, 0);
    lemma_post_course(second, again, same_key, 0);
}

/// A key that was not used before is no repetition, whatever was posted under another one: a
/// request that passes the checks is carried out, and adds one transaction of its own. One that
/// does not pass them is refused, and adds none.
pub proof fn law_new_key_is_posted(
    first: Seq<PostTurn>,
    input: TransactionInput,
    key: Seq<char>,
    second: Seq<PostTurn>,
    other: TransactionInput,
    new_key: Seq<char>,
)
    requires
        post_course(first, input, key),
        first.len() > 0,
        first.last().step matches Step::Done(Ok(_)),
        new_key != key,
        with_tag(first[0].before.txns, "idem"@, new_key).len() == 0,
        post_course(second, other, new_key),
        second.len() > 0,
        second[0].before == first.last().after,
        second.last().step is Done,
        all_answered(second),
    ensures
        second.len() >= 3,
        second[1].reply matches Reply::Names(Ok(accounts)) && second[2].reply matches Reply::Names(Ok(names)) && match validation(
            other@,
            texts(accounts@),
            texts(names@),
        ) {
            Ok(v) => (second.last().step matches Step::Done(Ok(out)) && !out.deduped && is_posted(
                second.last().after.txns.last(),
                other@,
                out.base.id@,
                new_key,
            ) && is_read_from(second.last().after.txns.last(), post_text(v, out.base.id@, new_key)))
                && second.last().after.txns.len() == first.last().after.txns.len() + 1
                && second.last().after.txns.drop_last() == first.last().after.txns,
            Err(m) => ends_input(second.last().step, m) && second.last().after == first.last().after,
        },
{
    law_post_is_one_entry_or_none(first, input, key);
    lemma_found_after(
        first[0].before,
        input@,
        key,
        first.last().step->Done_0->Ok_0,
        first.last().after,
        new_key,
    );
    lemma_free_key(second, other, new_key);
    law_post_is_one_entry_or_none(second, other, new_key);
}

proof fn lemma_free_key(turns: Seq<PostTurn>, input: TransactionInput, key: Seq<char>)
    requires
        post_course(turns, input, key),
        turns.len() > 0,
        turns.last().step is Done,
        all_answered(turns),
        with_tag(turns[0].before.txns, "idem"@, key).len() == 0,
    ensures
        turns.len() >= 3,
        turns[1].reply matches Reply::Names(Ok(accounts)) && turns[2].reply matches Reply::Names(Ok(names)) && match validation(
            input@,
            texts(accounts@),
            texts(names@),
        ) {
            Ok(v) => turns.last().step matches Step::Done(Ok(out)) && !out.deduped && is_read_from(
                turns.last().after.txns.last(),
                post_text(v, out.base.id@, key),
            ),
            Err(m) => ends_input(turns.last().step, m),
        },
{
    let n = turns.len() - 1;
    lemma_post_course(turns, input, key, 0);
    assert(answered(turns[0].action, turns[0].reply));
    assert(post_next(turns[0].state, turns[0].reply, turns[0].step));
    assert(ledger_performed(turns[0].before, turns[0].action, turns[0].reply, turns[0].after));
    assert(with_tag(listed_txns(turns[0].reply), "idem"@, key) == with_tag(turns[0].before.txns, "idem"@, key));
    assert(turns[0].step matches Step::Run(PostState::Accounts { .. }, Action::DeclaredAccounts));
    assert(turns[1].state == turns[0].step->Run_0);
    assert(answered(turns[1].action, turns[1].reply));
    assert(post_next(turns[1].state, turns[1].reply, turns[1].step));
    assert(turns[2].state == turns[1].step->Run_0);
    assert(answered(turns[2].action, turns[2].reply));
    assert(post_next(turns[2].state, turns[2].reply, turns[2].step));
    if n > 2 {
        assert(turns[3].state == turns[2].step->Run_0);
        lemma_post_course(turns, input, key, 3);
        assert(answered(turns[3].action, turns[3].reply));
        assert(post_next(turns[3].state, turns[3].reply, turns[3].step));
        assert(ledger_performed(turns[3].before, turns[3].action, turns[3].reply, turns[3].after));
        if n > 3 {
            assert(turns[4].state == turns[3].step->Run_0);
        }
    }
}

/// A request whose key could not be read back is never carried out: with a line feed, a
/// semicolon or a comma in it, the request changes nothing. So there is nothing for a second
/// request with that key to repeat.
pub proof fn law_unfit_key_writes_nothing(turns: Seq<PostTurn>, input: TransactionInput, key: Seq<char>)
    requires
        post_course(turns, input, key),
        turns.len() > 0,
        turns.last().step is Done,
        input@.idem matches Some(given) && !is_idem_key(given),
    ensures
        turns.last().after == turns[0].before,
        turns.last().step matches Step::Done(Ok(out)) ==> out.deduped,
{
    let n = turns.len() - 1;
    lemma_post_course(turns, input, key, n);
    law_post_is_one_entry_or_none(turns, input, key);
    if turns[n].state is Appending {
        let accounts = turns[1].reply->Names_0->Ok_0;
        let names = turns[2].reply->Names_0->Ok_0;
        law_validation_accepts_exactly(input@, texts(accounts@), texts(names@));
    }
    assert(post_next(turns[n].state, turns[n].reply, turns[n].step));
}

// ---------------------------------------------------------------------------
// Posting in the middle of another operation
// ---------------------------------------------------------------------------

/// Is it the entry of a transaction that was asked for and passed the checks, with this
/// identifier and a key of its own?
pub open spec fn is_entry_of(entry: Seq<char>, input: TransactionInputView, id: Seq<char>) -> bool {
    is_uuid_text(id) && exists|v: ValidatedView, key: Seq<char>|
        accepted(input, v) && is_key_for(input, key) && entry == #[trigger] post_text(v, id, key)
}

/// Is the transaction being posted, with this action under way?
pub open spec fn post_stands_at(s: PostState, action: Action, input: TransactionInputView) -> bool {
    match s {
        PostState::Lookup { input: t, idem } => t@ == input && is_key_for(input, idem@) && action is Print,
        PostState::Known { .. } => action is Head,
        PostState::Accounts { input: t, idem } => t@ == input && is_key_for(input, idem@) && action is DeclaredAccounts,
        PostState::Commodities { input: t, idem, .. } => t@ == input && is_key_for(input, idem@)
            && action is DeclaredCommodities,
        PostState::Appending { id } => action matches Action::Append { addition, .. } && is_entry_of(
            addition@,
            input,
            id@,
        ),
    }
}

pub proof fn lemma_post_begins_at(input: TransactionInput, r: Step<PostState, WriteOutcome>)
    requires
        post_begins(input, r),
    ensures
        r matches Step::Run(s, a) && post_stands_at(s, a, input@),
{
}

pub proof fn lemma_post_steps_on(
    s: PostState,
    action: Action,
    input: TransactionInputView,
    reply: Reply,
    r: Step<PostState, WriteOutcome>,
)
    requires
        post_stands_at(s, action, input),
        post_next(s, reply, r),
    ensures
        r matches Step::Run(next, a) ==> post_stands_at(next, a, input) && !(action is Append),
        r matches Step::Done(Ok(out)) ==> if out.deduped {
            !(action is Append)
        } else {
            (action matches Action::Append { addition, .. } && is_entry_of(addition@, input, out.base.id@)) && (
            reply matches Reply::Committed(Ok(_)))
        },
{
    if let PostState::Commodities { idem, accounts, .. } = s {
        if let Reply::Names(Ok(names)) = reply {
            if let Step::Run(next, a) = r {
                let v = validation(input, texts(accounts@), texts(names@))->Ok_0;
                assert(accepted(input, v));
                let id = next->Appending_id@;
                assert(a->Append_addition@ == post_text(v, id, idem@));
            }
        }
    }
}

} // verus!
