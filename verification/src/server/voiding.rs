//! Voiding a change order, seen as a whole: what it leaves in the ledger.

use vstd::prelude::*;

use crate::hledger::{TransactionView, transactions_view};
use crate::server::orders::{
    EcoEvents, EcoVoidState, EventsState, VoidedOrder, eco_void_begins, eco_void_next,
    events_begin, events_next, first_event, ids_of, order_void_begins, order_void_reads,
    order_voids, transaction_view,
};
use crate::text::{listed, texts};
use crate::write::{
    WriteOutcome, exact_tag_query, is_uuid_text, law_kept_transactions_match_exactly,
    law_void_leaves_nothing, negated_lines, net, posted_lines, reversible, tag_of, with_tag,
};
use crate::write::plan::{
    Action, Reply, Step, VoidState, ends_input, reversal_tags, void_found, void_next, void_text,
};
use crate::write::readback::{
    is_read_from, is_readable, is_tag_value, law_reversal_is_found, ledger_after,
};

verus! {

// ---------------------------------------------------------------------------
// The ledger
// ---------------------------------------------------------------------------

/// Is the transaction still to be reversed: has it an identifier, and does nothing in the
/// ledger reverse it?
pub open spec fn is_open(ledger: Seq<TransactionView>, t: TransactionView) -> bool {
    tag_of(t.tags, "id"@) matches Some(id) && with_tag(ledger, "reverses"@, id).len() == 0
}

/// Those of the transactions that are still to be reversed.
pub open spec fn open_txns(ledger: Seq<TransactionView>, txns: Seq<TransactionView>) -> Seq<TransactionView>
    decreases txns.len(),
{
    if txns.len() == 0 {
        Seq::empty()
    } else if is_open(ledger, txns.last()) {
        open_txns(ledger, txns.drop_last()).push(txns.last())
    } else {
        open_txns(ledger, txns.drop_last())
    }
}

/// The transactions of a change order that are still to be reversed.
pub open spec fn open_order(ledger: Seq<TransactionView>, eco: Seq<char>) -> Seq<TransactionView> {
    open_txns(ledger, with_tag(ledger, "eco"@, eco))
}

/// What the transactions leave on the account in the commodity, counted in units of the last
/// of `places` decimal places.
pub open spec fn balance(txns: Seq<TransactionView>, account: Seq<char>, commodity: Seq<char>, places: nat) -> int
    decreases txns.len(),
{
    if txns.len() == 0 {
        0
    } else {
        balance(txns.drop_last(), account, commodity, places) + net(
            posted_lines(txns.last().postings),
            account,
            commodity,
            places,
        )
    }
}

/// Can it be a ledger: can identifiers be the values of tags, does no identifier occur twice,
/// and can accounts and commodities be written?
pub open spec fn is_ledger(ledger: Seq<TransactionView>) -> bool {
    &&& forall|i: int|
        0 <= i < ledger.len() ==> is_readable(#[trigger] ledger[i]) && (tag_of(ledger[i].tags, "id"@) matches Some(id)
            ==> is_tag_value(id))
    &&& forall|i: int, j: int|
        0 <= i < j < ledger.len() && tag_of(ledger[i].tags, "id"@) is Some ==> tag_of(
            (#[trigger] ledger[i]).tags,
            "id"@,
        ) != tag_of((#[trigger] ledger[j]).tags, "id"@)
}

/// Has this transaction what voiding asks for: no mark of a reversal, amounts, and none that
/// cannot be negated?
pub open spec fn is_voidable(t: TransactionView) -> bool {
    tag_of(t.tags, "reverses"@) is None && posted_lines(t.postings).len() > 0 && reversible(t.postings)
}

/// Does `r` reverse `t`: does it name its identifier, and post its amounts with the opposite
/// sign, without being a part of any change order?
pub open spec fn undoes(r: TransactionView, t: TransactionView) -> bool {
    &&& tag_of(t.tags, "id"@) is Some
    &&& tag_of(r.tags, "reverses"@) == tag_of(t.tags, "id"@)
    &&& tag_of(r.tags, "eco"@) is None
    &&& posted_lines(r.postings) == negated_lines(posted_lines(t.postings))
    &&& reversible(t.postings)
}

// ---------------------------------------------------------------------------
// The course of voiding a change order
// ---------------------------------------------------------------------------

/// One step of voiding a change order, with what the action left of the ledger.
pub struct OrderTurn {
    pub state: EcoVoidState,
    pub action: Action,
    pub reply: Reply,
    pub step: Step<EcoVoidState, VoidedOrder>,
    pub before: Seq<TransactionView>,
    pub after: Seq<TransactionView>,
}

/// Is it the course of voiding this change order?
pub open spec fn order_course(turns: Seq<OrderTurn>, eco: Seq<char>) -> bool {
    &&& turns.len() > 0 ==> is_ledger(turns[0].before) && eco_void_begins(
        eco,
        Step::Run(turns[0].state, turns[0].action),
    )
    &&& forall|i: int|
        0 <= i < turns.len() ==> eco_void_next((#[trigger] turns[i]).state, turns[i].reply, turns[i].step)
            && ledger_after(turns[i].before, turns[i].action, turns[i].reply, turns[i].after)
    &&& forall|i: int|
        0 < i < turns.len() ==> (turns[i - 1].step matches Step::Run(s, a) && (#[trigger] turns[i]).state == s
            && turns[i].action == a) && turns[i].before == turns[i - 1].after
}

/// Those of the identifiers that nothing in the ledger reverses.
spec fn open_ids(ledger: Seq<TransactionView>, ids: Seq<Seq<char>>) -> Seq<Seq<char>>
    decreases ids.len(),
{
    if ids.len() == 0 {
        Seq::empty()
    } else if with_tag(ledger, "reverses"@, ids.last()).len() == 0 {
        open_ids(ledger, ids.drop_last()).push(ids.last())
    } else {
        open_ids(ledger, ids.drop_last())
    }
}

proof fn lemma_open_ids(ledger: Seq<TransactionView>, txns: Seq<TransactionView>)
    ensures
        open_ids(ledger, ids_of(txns)) == ids_of(open_txns(ledger, txns)),
        ids_of(open_txns(ledger, txns)).len() == open_txns(ledger, txns).len(),
        forall|k: int|
            0 <= k < open_txns(ledger, txns).len() ==> tag_of((#[trigger] open_txns(ledger, txns)[k]).tags, "id"@)
                == Some(ids_of(open_txns(ledger, txns))[k]) && txns.contains(open_txns(ledger, txns)[k]),
    decreases txns.len(),
{
    if txns.len() > 0 {
        let init = txns.drop_last();
        lemma_open_ids(ledger, init);
        let open = open_txns(ledger, txns);
        if let Some(id) = tag_of(txns.last().tags, "id"@) {
            assert(ids_of(txns) == ids_of(init).push(id));
            assert(ids_of(txns).drop_last() =~= ids_of(init));
        }
        if is_open(ledger, txns.last()) {
            assert(open.drop_last() =~= open_txns(ledger, init));
        }
        assert forall|k: int| 0 <= k < open.len() implies tag_of((#[trigger] open[k]).tags, "id"@) == Some(
            ids_of(open)[k],
        ) && txns.contains(open[k]) by {
            if k < open_txns(ledger, init).len() {
                assert(open[k] == open_txns(ledger, init)[k]);
                let w = choose|w: int| 0 <= w < init.len() && init[w] == open[k];
                assert(txns[w] == open[k]);
            } else {
                assert(txns[txns.len() - 1] == open[k]);
            }
        }
    }
}

proof fn lemma_with_tag_concat(a: Seq<TransactionView>, b: Seq<TransactionView>, name: Seq<char>, value: Seq<char>)
    ensures
        with_tag(a + b, name, value) == with_tag(a, name, value) + with_tag(b, name, value),
    decreases b.len(),
{
    if b.len() == 0 {
        assert(a + b =~= a);
        assert(with_tag(a, name, value) + with_tag(b, name, value) =~= with_tag(a, name, value));
    } else {
        lemma_with_tag_concat(a, b.drop_last(), name, value);
        assert((a + b).drop_last() =~= a + b.drop_last());
        assert(with_tag(a + b, name, value) =~= with_tag(a, name, value) + with_tag(b, name, value));
    }
}

proof fn lemma_with_tag_within(txns: Seq<TransactionView>, name: Seq<char>, value: Seq<char>)
    ensures
        forall|i: int|
            0 <= i < with_tag(txns, name, value).len() ==> txns.contains(#[trigger] with_tag(txns, name, value)[i]),
    decreases txns.len(),
{
    if txns.len() > 0 {
        let init = txns.drop_last();
        lemma_with_tag_within(init, name, value);
        assert forall|i: int| 0 <= i < with_tag(txns, name, value).len() implies txns.contains(
            #[trigger] with_tag(txns, name, value)[i],
        ) by {
            let t = with_tag(txns, name, value)[i];
            if i < with_tag(init, name, value).len() {
                assert(t == with_tag(init, name, value)[i]);
                let w = choose|w: int| 0 <= w < init.len() && init[w] == t;
                assert(txns[w] == t);
            } else {
                assert(txns[txns.len() - 1] == t);
            }
        }
    }
}

/// The transaction that a search for the identifier of one that is still to be reversed finds
/// first is this one.
proof fn lemma_target(first: Seq<TransactionView>, added: Seq<TransactionView>, eco: Seq<char>, k: int)
    requires
        is_ledger(first),
        0 <= k < open_order(first, eco).len(),
    ensures
        ({
            let id = ids_of(open_order(first, eco))[k];
            let found = with_tag(first + added, "id"@, id);
            &&& found.len() > 0
            &&& found[0] == open_order(first, eco)[k]
            &&& is_readable(found[0])
            &&& is_tag_value(id)
            &&& tag_of(found[0].tags, "id"@) == Some(id)
        }),
{
    let order = with_tag(first, "eco"@, eco);
    let t = open_order(first, eco)[k];
    lemma_open_ids(first, order);
    lemma_with_tag_within(first, "eco"@, eco);
    let id = ids_of(open_order(first, eco))[k];
    let w = choose|w: int| 0 <= w < order.len() && order[w] == t;
    assert(first.contains(order[w]));
    let i = choose|i: int| 0 <= i < first.len() && first[i] == t;
    let own = with_tag(first, "id"@, id);
    law_kept_transactions_match_exactly(first, "id"@, id);
    lemma_with_tag_within(first, "id"@, id);
    assert(own.contains(first[i]));
    assert(own.len() > 0);
    assert(first.contains(own[0]));
    let j = choose|j: int| 0 <= j < first.len() && first[j] == own[0];
    assert(tag_of(own[0].tags, "id"@) == Some(id));
    assert(i == j) by {
        if i < j {
            assert(tag_of(first[i].tags, "id"@) != tag_of(first[j].tags, "id"@));
        } else if j < i {
            assert(tag_of(first[j].tags, "id"@) != tag_of(first[i].tags, "id"@));
        }
    }
    lemma_with_tag_concat(first, added, "id"@, id);
    assert(is_readable(first[i]));
}

/// Is the entry one that reverses the transaction?
spec fn is_void_entry(entry: Seq<char>, t: TransactionView, target_id: Seq<char>) -> bool {
    exists|id: Seq<char>, idem: Seq<char>|
        is_uuid_text(id) && is_uuid_text(idem) && entry == #[trigger] void_text(t, target_id, id, idem)
}

/// Is the ledger the first one with the reversals of the first `n` transactions behind it that
/// were still to be reversed?
pub open spec fn has_reversed(
    first: Seq<TransactionView>,
    eco: Seq<char>,
    n: int,
    ledger: Seq<TransactionView>,
) -> bool {
    let open = open_order(first, eco);
    &&& 0 <= n <= open.len()
    &&& ledger.len() == first.len() + n
    &&& ledger.take(first.len() as int) == first
    &&& forall|k: int| 0 <= k < n ==> undoes(ledger[first.len() + k], #[trigger] open[k])
}

/// Where voiding a change order stands, begun with `first` in the ledger.
spec fn order_stands(turn: OrderTurn, first: Seq<TransactionView>, eco: Seq<char>) -> bool {
    let order = with_tag(first, "eco"@, eco);
    let open = open_order(first, eco);
    match turn.state {
        EcoVoidState::Events { eco: e, events } => e@ == eco && turn.before == first && match events {
            EventsState::Lookup { eco: named } => named@ == eco && (turn.action matches Action::Print { query } && query@
                == exact_tag_query("eco"@, eco)),
            EventsState::Reversals { found, ids, at } => found.eco@ == eco && transaction_view(found.created)
                == first_event(order, "created"@) && texts(ids@) == ids_of(order) && at < ids@.len() && texts(
                found.unreversed@,
            ) == open_ids(first, ids_of(order).take(at as int)) && (turn.action matches Action::Print { query } && query@
                == exact_tag_query("reverses"@, ids_of(order)[at as int])),
        },
        EcoVoidState::Voiding { eco: e, targets, at, void } => e@ == eco && texts(targets@) == ids_of(open) && at
            < open.len() && first_event(order, "created"@) is Some && has_reversed(first, eco, at as int, turn.before)
            && match void {
            VoidState::Lookup { target_id } => target_id@ == ids_of(open)[at as int] && (
            turn.action matches Action::Print { query } && query@ == exact_tag_query("id"@, target_id@)),
            VoidState::Appending { .. } => is_voidable(open[at as int]) && (
            turn.action matches Action::Append { addition, .. } && is_void_entry(
                addition@,
                open[at as int],
                ids_of(open)[at as int],
            )),
        },
    }
}

/// What follows reading the events, once they are read: the decision on those that are there.
spec fn order_decided(first: Seq<TransactionView>, eco: Seq<char>, r: Step<EcoVoidState, VoidedOrder>) -> bool {
    let order = with_tag(first, "eco"@, eco);
    let open = open_order(first, eco);
    if first_event(order, "created"@) is None {
        ends_input(r, "unknown change order '"@ + eco + "' — record it first with eco_create"@)
    } else if open.len() == 0 {
        ends_input(r, "change order '"@ + eco + "' is already fully voided"@)
    } else {
        order_void_begins(eco, ids_of(open), 0, r)
    }
}

/// What a step from an event does, where the search was answered.
proof fn lemma_events_turn(turn: OrderTurn, first: Seq<TransactionView>, eco: Seq<char>)
    requires
        is_ledger(first),
        order_stands(turn, first, eco),
        turn.state is Events,
        eco_void_next(turn.state, turn.reply, turn.step),
        ledger_after(turn.before, turn.action, turn.reply, turn.after),
    ensures
        turn.after == first,
        turn.reply matches Reply::Transactions(Ok(_)) ==> order_decided(first, eco, turn.step) || (
        turn.step matches Step::Run(s, a) && s is Events && forall|next: OrderTurn|
            next.state == s && next.action == a && next.before == first ==> #[trigger] order_stands(next, first, eco)),
        !(turn.reply matches Reply::Transactions(Ok(_))) ==> (turn.step matches Step::Done(Err(_))),
{
    let order = with_tag(first, "eco"@, eco);
    let ids = ids_of(order);
    let events = turn.state->Events_events;
    let inner = choose|inner: Step<EventsState, EcoEvents>|
        #![trigger events_next(events, turn.reply, inner)]
        events_next(events, turn.reply, inner) && order_void_reads(inner, turn.state->Events_eco@, turn.step);
    assert(events_next(events, turn.reply, inner) && order_void_reads(inner, eco, turn.step));
    if let Reply::Transactions(Ok(txns)) = turn.reply {
        let n: int = match events {
            EventsState::Lookup { .. } => 0,
            EventsState::Reversals { at, .. } => at + 1,
        };
        match events {
            EventsState::Lookup { .. } => {
                assert(with_tag(transactions_view(txns@), "eco"@, eco) == order);
                assert(open_ids(first, ids.take(0)) =~= Seq::empty());
            },
            EventsState::Reversals { found, ids: listed, at } => {
                let id = ids[at as int];
                assert(listed@[at as int]@ == texts(listed@)[at as int]);
                assert(with_tag(transactions_view(txns@), "reverses"@, id) == with_tag(first, "reverses"@, id));
                assert(ids.take(n).drop_last() =~= ids.take(at as int));
                assert(ids.take(n).last() == id);
            },
        }
        if n < ids.len() {
            assert(inner is Run);
        } else {
            assert(ids.take(n) =~= ids);
            lemma_open_ids(first, order);
            let found = inner->Done_0->Ok_0;
            assert(texts(found.unreversed@) == ids_of(open_order(first, eco)));
            assert(texts(found.unreversed@).len() == found.unreversed@.len());
        }
    }
}

/// What a step of the voiding does.
proof fn lemma_voiding_turn(turn: OrderTurn, first: Seq<TransactionView>, eco: Seq<char>)
    requires
        is_ledger(first),
        order_stands(turn, first, eco),
        turn.state is Voiding,
        eco_void_next(turn.state, turn.reply, turn.step),
        ledger_after(turn.before, turn.action, turn.reply, turn.after),
    ensures
        ({
            let at = turn.state->Voiding_at as int;
            match turn.step {
                Step::Run(s, a) => s is Voiding && forall|next: OrderTurn|
                    next.state == s && next.action == a && next.before == turn.after ==> #[trigger] order_stands(
                        next,
                        first,
                        eco,
                    ),
                Step::Done(Ok(order)) => at + 1 == open_order(first, eco).len() && order.eco@ == eco && order.count
                    == at + 1 && has_reversed(first, eco, at + 1, turn.after),
                Step::Done(Err(_)) => has_reversed(first, eco, at, turn.after),
            }
        }),
        answered_void(turn.action, turn.reply) && is_voidable(
            open_order(first, eco)[turn.state->Voiding_at as int],
        ) ==> !(turn.step matches Step::Done(Err(_))),
{
    let open = open_order(first, eco);
    let ids = ids_of(open);
    let at = turn.state->Voiding_at as int;
    let void = turn.state->Voiding_void;
    let targets = turn.state->Voiding_targets;
    let inner = choose|inner: Step<VoidState, WriteOutcome>|
        #![trigger void_next(void, turn.reply, inner)]
        void_next(void, turn.reply, inner) && order_voids(
            inner,
            turn.state->Voiding_eco@,
            texts(targets@),
            at,
            turn.step,
        );
    assert(void_next(void, turn.reply, inner) && order_voids(inner, eco, ids, at, turn.step));
    lemma_open_ids(first, with_tag(first, "eco"@, eco));
    let added = turn.before.skip(first.len() as int);
    assert(first + added =~= turn.before);
    lemma_target(first, added, eco, at);
    let target = open[at];
    let id = ids[at];
    match void {
        VoidState::Lookup { target_id } => {
            if let Reply::Transactions(Ok(txns)) = turn.reply {
                assert(with_tag(transactions_view(txns@), "id"@, id) == with_tag(first + added, "id"@, id));
                assert(void_found(target, id, inner));
            }
        },
        VoidState::Appending { .. } => {
            if let Reply::Committed(Ok(_)) = turn.reply {
                let entry = turn.action->Append_addition@;
                let (own, idem) = choose|own: Seq<char>, idem: Seq<char>|
                    is_uuid_text(own) && is_uuid_text(idem) && entry == #[trigger] void_text(target, id, own, idem);
                law_reversal_is_found(target, id, own, idem);
                let r = turn.after.last();
                assert(is_read_from(r, void_text(target, id, own, idem)));
                lemma_reversal_tags(id, own, idem);
                assert(undoes(r, target));
                let after = turn.after;
                assert(after.take(first.len() as int) =~= first) by {
                    assert(after.take(first.len() as int) =~= turn.before.take(first.len() as int));
                }
                assert forall|k: int| 0 <= k < at + 1 implies undoes(after[first.len() + k], #[trigger] open[k]) by {
                    if k < at {
                        assert(after[first.len() + k] == turn.before[first.len() + k]);
                        assert(undoes(turn.before[first.len() + k], open[k]));
                    }
                }
                assert(has_reversed(first, eco, at + 1, after));
            }
        },
    }
}

/// Is it the reply to an action of voiding that was carried out?
pub open spec fn answered_void(action: Action, reply: Reply) -> bool {
    match action {
        Action::Print { .. } => reply matches Reply::Transactions(Ok(_)),
        Action::Append { .. } => reply matches Reply::Committed(Ok(_)),
        _ => false,
    }
}

proof fn lemma_reversal_tags(target_id: Seq<char>, id: Seq<char>, idem: Seq<char>)
    ensures
        tag_of(reversal_tags(target_id, id, idem), "reverses"@) == Some(target_id),
        tag_of(reversal_tags(target_id, id, idem), "eco"@) is None,
{
    let all = reversal_tags(target_id, id, idem);
    reveal_strlit("id");
    reveal_strlit("idem");
    reveal_strlit("reverses");
    reveal_strlit("eco");
    assert("id"@.len() == 2 && "idem"@.len() == 4 && "reverses"@.len() == 8 && "eco"@.len() == 3);
    let one = all.skip(1);
    let two = one.skip(1);
    assert(one[0] == ("idem"@, idem));
    assert(two[0] == ("reverses"@, target_id));
    assert(tag_of(two, "reverses"@) == Some(target_id));
    assert(tag_of(one, "reverses"@) == Some(target_id));
    assert(two.skip(1).len() == 0);
    assert(tag_of(two.skip(1), "eco"@) is None);
    assert(tag_of(two, "eco"@) is None);
    assert(tag_of(one, "eco"@) is None);
}

proof fn lemma_order_course(turns: Seq<OrderTurn>, eco: Seq<char>, i: int)
    requires
        order_course(turns, eco),
        0 <= i < turns.len(),
    ensures
        order_stands(turns[i], turns[0].before, eco),
        is_ledger(turns[0].before),
    decreases i,
{
    let first = turns[0].before;
    if i == 0 {
        let r = Step::<EcoVoidState, VoidedOrder>::Run(turns[0].state, turns[0].action);
        let inner = choose|inner: Step<EventsState, EcoEvents>|
            #![trigger events_begin(eco, inner)]
            events_begin(eco, inner) && order_void_reads(inner, eco, r);
        assert(events_begin(eco, inner));
    } else {
        lemma_order_course(turns, eco, i - 1);
        let turn = turns[i - 1];
        assert(eco_void_next(turn.state, turn.reply, turn.step));
        assert(ledger_after(turn.before, turn.action, turn.reply, turn.after));
        assert(turns[i].state == turn.step->Run_0);
        assert(turns[i].before == turn.after);
        if turn.state is Events {
            lemma_events_turn(turn, first, eco);
            if order_decided(first, eco, turn.step) {
                assert(first.take(first.len() as int) =~= first);
                assert(has_reversed(first, eco, 0, first));
                lemma_open_ids(first, with_tag(first, "eco"@, eco));
            }
        } else {
            lemma_voiding_turn(turn, first, eco);
        }
    }
}

proof fn lemma_none_tagged(txns: Seq<TransactionView>, name: Seq<char>, value: Seq<char>)
    requires
        forall|i: int| 0 <= i < txns.len() ==> tag_of((#[trigger] txns[i]).tags, name) != Some(value),
    ensures
        with_tag(txns, name, value).len() == 0,
    decreases txns.len(),
{
    if txns.len() > 0 {
        assert(tag_of(txns[txns.len() - 1].tags, name) != Some(value));
        lemma_none_tagged(txns.drop_last(), name, value);
    }
}

proof fn lemma_none_open(ledger: Seq<TransactionView>, txns: Seq<TransactionView>)
    requires
        forall|i: int| 0 <= i < txns.len() ==> !is_open(ledger, #[trigger] txns[i]),
    ensures
        open_txns(ledger, txns).len() == 0,
    decreases txns.len(),
{
    if txns.len() > 0 {
        assert(!is_open(ledger, txns[txns.len() - 1]));
        lemma_none_open(ledger, txns.drop_last());
    }
}

proof fn lemma_open_is_kept(ledger: Seq<TransactionView>, txns: Seq<TransactionView>, i: int)
    requires
        0 <= i < txns.len(),
        is_open(ledger, txns[i]),
    ensures
        open_txns(ledger, txns).contains(txns[i]),
    decreases txns.len(),
{
    let open = open_txns(ledger, txns);
    if i == txns.len() - 1 {
        assert(open[open.len() - 1] == txns[i]);
    } else {
        let init = txns.drop_last();
        lemma_open_is_kept(ledger, init, i);
        let before = open_txns(ledger, init);
        let k = choose|k: int| 0 <= k < before.len() && before[k] == txns[i];
        assert(open[k] == txns[i]);
    }
}

proof fn lemma_balance_concat(
    a: Seq<TransactionView>,
    b: Seq<TransactionView>,
    account: Seq<char>,
    commodity: Seq<char>,
    places: nat,
)
    ensures
        balance(a + b, account, commodity, places) == balance(a, account, commodity, places) + balance(
            b,
            account,
            commodity,
            places,
        ),
    decreases b.len(),
{
    if b.len() == 0 {
        assert(a + b =~= a);
    } else {
        lemma_balance_concat(a, b.drop_last(), account, commodity, places);
        assert((a + b).drop_last() =~= a + b.drop_last());
    }
}

/// Has every amount of the transactions at most so many decimal places?
pub open spec fn fits_places(txns: Seq<TransactionView>, places: nat) -> bool {
    forall|t: int, i: int, j: int|
        0 <= t < txns.len() && 0 <= i < txns[t].postings.len() && 0 <= j < txns[t].postings[i].amounts.len() ==> (
        #[trigger] txns[t].postings[i].amounts[j]).quantity.places <= places
}

proof fn lemma_undone(
    open: Seq<TransactionView>,
    added: Seq<TransactionView>,
    account: Seq<char>,
    commodity: Seq<char>,
    places: nat,
)
    requires
        open.len() == added.len(),
        forall|k: int| 0 <= k < open.len() ==> undoes(added[k], #[trigger] open[k]),
        fits_places(open, places),
    ensures
        balance(open, account, commodity, places) + balance(added, account, commodity, places) == 0,
    decreases open.len(),
{
    if open.len() > 0 {
        let n = open.len() - 1;
        assert(undoes(added[n], open[n]));
        let init = open.drop_last();
        assert forall|k: int| 0 <= k < init.len() implies undoes(added.drop_last()[k], #[trigger] init[k]) by {
            assert(undoes(added[k], open[k]));
        }
        assert forall|t: int, i: int, j: int|
            0 <= t < init.len() && 0 <= i < init[t].postings.len() && 0 <= j < init[t].postings[i].amounts.len() implies (
        #[trigger] init[t].postings[i].amounts[j]).quantity.places <= places by {
            assert(open[t].postings[i].amounts[j].quantity.places <= places);
        }
        lemma_undone(init, added.drop_last(), account, commodity, places);
        let postings = open[n].postings;
        assert forall|i: int, j: int| 0 <= i < postings.len() && 0 <= j < postings[i].amounts.len() implies (
        #[trigger] postings[i].amounts[j]).quantity.places <= places by {
            assert(open[n].postings[i].amounts[j].quantity.places <= places);
        }
        law_void_leaves_nothing(postings, account, commodity, places);
    }
}

proof fn lemma_some_tagged(txns: Seq<TransactionView>, name: Seq<char>, value: Seq<char>, i: int)
    requires
        0 <= i < txns.len(),
        tag_of(txns[i].tags, name) == Some(value),
    ensures
        with_tag(txns, name, value).len() > 0,
    decreases txns.len(),
{
    if i < txns.len() - 1 {
        lemma_some_tagged(txns.drop_last(), name, value, i);
    }
}

proof fn lemma_all_reversed(first: Seq<TransactionView>, eco: Seq<char>, after: Seq<TransactionView>)
    requires
        has_reversed(first, eco, open_order(first, eco).len() as int, after),
    ensures
        with_tag(after, "eco"@, eco) == with_tag(first, "eco"@, eco),
        open_order(after, eco).len() == 0,
{
    let order = with_tag(first, "eco"@, eco);
    let open = open_order(first, eco);
    let added = after.skip(first.len() as int);
    assert(first + added =~= after);
    assert forall|k: int| 0 <= k < added.len() implies undoes(#[trigger] added[k], open[k]) by {
        assert(added[k] == after[first.len() + k]);
        assert(undoes(after[first.len() + k], open[k]));
    }
    assert forall|k: int| 0 <= k < added.len() implies tag_of((#[trigger] added[k]).tags, "eco"@) != Some(eco) by {
        assert(undoes(added[k], open[k]));
    }
    lemma_none_tagged(added, "eco"@, eco);
    lemma_with_tag_concat(first, added, "eco"@, eco);
    assert(with_tag(after, "eco"@, eco) =~= order);
    assert forall|i: int| 0 <= i < order.len() implies !is_open(after, #[trigger] order[i]) by {
        let tagged = tag_of(order[i].tags, "id"@);
        if let Some(id) = tagged {
            lemma_with_tag_concat(first, added, "reverses"@, id);
            if is_open(first, order[i]) {
                lemma_open_is_kept(first, order, i);
                let k = choose|k: int| 0 <= k < open.len() && open[k] == order[i];
                assert(undoes(added[k], open[k]));
                lemma_some_tagged(added, "reverses"@, id, k);
            }
        }
    }
    lemma_none_open(after, order);
}

proof fn lemma_reversed_balance(
    first: Seq<TransactionView>,
    eco: Seq<char>,
    after: Seq<TransactionView>,
    account: Seq<char>,
    commodity: Seq<char>,
    places: nat,
)
    requires
        has_reversed(first, eco, open_order(first, eco).len() as int, after),
        fits_places(open_order(first, eco), places),
    ensures
        balance(after, account, commodity, places) == balance(first, account, commodity, places) - balance(
            open_order(first, eco),
            account,
            commodity,
            places,
        ),
{
    let open = open_order(first, eco);
    let added = after.skip(first.len() as int);
    assert(first + added =~= after);
    assert forall|k: int| 0 <= k < open.len() implies undoes(added[k], #[trigger] open[k]) by {
        assert(added[k] == after[first.len() + k]);
    }
    lemma_undone(open, added, account, commodity, places);
    lemma_balance_concat(first, added, account, commodity, places);
}

// ---------------------------------------------------------------------------
// The order and its reversals, and everything else
// ---------------------------------------------------------------------------

/// Does the transaction, without being one of the order, reverse one with one of these
/// identifiers?
pub open spec fn reverses_one_of(t: TransactionView, eco: Seq<char>, ids: Seq<Seq<char>>) -> bool {
    tag_of(t.tags, "eco"@) != Some(eco) && (tag_of(t.tags, "reverses"@) matches Some(id) && ids.contains(id))
}

/// Those of the transactions that reverse one with one of these identifiers.
pub open spec fn reversals_of(txns: Seq<TransactionView>, eco: Seq<char>, ids: Seq<Seq<char>>) -> Seq<TransactionView>
    decreases txns.len(),
{
    if txns.len() == 0 {
        Seq::empty()
    } else if reverses_one_of(txns.last(), eco, ids) {
        reversals_of(txns.drop_last(), eco, ids).push(txns.last())
    } else {
        reversals_of(txns.drop_last(), eco, ids)
    }
}

/// Those of the transactions that are not of the order and reverse none with one of these
/// identifiers.
pub open spec fn apart_from(txns: Seq<TransactionView>, eco: Seq<char>, ids: Seq<Seq<char>>) -> Seq<TransactionView>
    decreases txns.len(),
{
    if txns.len() == 0 {
        Seq::empty()
    } else if tag_of(txns.last().tags, "eco"@) == Some(eco) || reverses_one_of(txns.last(), eco, ids) {
        apart_from(txns.drop_last(), eco, ids)
    } else {
        apart_from(txns.drop_last(), eco, ids).push(txns.last())
    }
}

/// The ledger as it would be without the order: without its transactions and those that reverse
/// them.
pub open spec fn without_order(ledger: Seq<TransactionView>, eco: Seq<char>) -> Seq<TransactionView> {
    apart_from(ledger, eco, ids_of(with_tag(ledger, "eco"@, eco)))
}

/// Was the order only ever reversed by voiding, and nothing of it twice: has each of its
/// transactions an identifier, and at most one reversal, with its amounts?
pub open spec fn reversed_exactly(ledger: Seq<TransactionView>, eco: Seq<char>) -> bool {
    forall|k: int|
        0 <= k < with_tag(ledger, "eco"@, eco).len() ==> ({
            let t = #[trigger] with_tag(ledger, "eco"@, eco)[k];
            tag_of(t.tags, "id"@) matches Some(id) && ({
                let found = with_tag(ledger, "reverses"@, id);
                found.len() == 0 || (found.len() == 1 && undoes(found[0], t))
            })
        })
}

proof fn lemma_balance_push(
    txns: Seq<TransactionView>,
    t: TransactionView,
    account: Seq<char>,
    commodity: Seq<char>,
    places: nat,
)
    ensures
        balance(txns.push(t), account, commodity, places) == balance(txns, account, commodity, places) + net(
            posted_lines(t.postings),
            account,
            commodity,
            places,
        ),
{
    assert(txns.push(t).drop_last() =~= txns);
}

proof fn lemma_parts(
    txns: Seq<TransactionView>,
    eco: Seq<char>,
    ids: Seq<Seq<char>>,
    account: Seq<char>,
    commodity: Seq<char>,
    places: nat,
)
    ensures
        balance(txns, account, commodity, places) == balance(with_tag(txns, "eco"@, eco), account, commodity, places)
            + balance(reversals_of(txns, eco, ids), account, commodity, places) + balance(
            apart_from(txns, eco, ids),
            account,
            commodity,
            places,
        ),
    decreases txns.len(),
{
    if txns.len() > 0 {
        let init = txns.drop_last();
        let t = txns.last();
        lemma_parts(init, eco, ids, account, commodity, places);
        lemma_balance_push(with_tag(init, "eco"@, eco), t, account, commodity, places);
        lemma_balance_push(reversals_of(init, eco, ids), t, account, commodity, places);
        lemma_balance_push(apart_from(init, eco, ids), t, account, commodity, places);
    }
}

proof fn lemma_one_more(
    txns: Seq<TransactionView>,
    eco: Seq<char>,
    ids: Seq<Seq<char>>,
    id: Seq<char>,
    account: Seq<char>,
    commodity: Seq<char>,
    places: nat,
)
    requires
        !ids.contains(id),
    ensures
        balance(reversals_of(txns, eco, ids.push(id)), account, commodity, places) == balance(
            reversals_of(txns, eco, ids),
            account,
            commodity,
            places,
        ) + balance(reversals_of(txns, eco, seq![id]), account, commodity, places),
    decreases txns.len(),
{
    if txns.len() > 0 {
        let init = txns.drop_last();
        let t = txns.last();
        lemma_one_more(init, eco, ids, id, account, commodity, places);
        lemma_balance_push(reversals_of(init, eco, ids.push(id)), t, account, commodity, places);
        lemma_balance_push(reversals_of(init, eco, ids), t, account, commodity, places);
        lemma_balance_push(reversals_of(init, eco, seq![id]), t, account, commodity, places);
        if let Some(of) = tag_of(t.tags, "reverses"@) {
            lemma_push_contains(ids, id, of);
        }
    }
}

proof fn lemma_push_contains(ids: Seq<Seq<char>>, id: Seq<char>, of: Seq<char>)
    ensures
        ids.push(id).contains(of) == (ids.contains(of) || of == id),
        seq![id].contains(of) == (of == id),
{
    if ids.contains(of) {
        let k = choose|k: int| 0 <= k < ids.len() && ids[k] == of;
        assert(ids.push(id)[k] == of);
    }
    if of == id {
        assert(ids.push(id)[ids.len() as int] == of);
        assert(seq![id][0] == of);
    }
    if ids.push(id).contains(of) && of != id {
        let k = choose|k: int| 0 <= k < ids.push(id).len() && ids.push(id)[k] == of;
        assert(ids[k] == of);
    }
}

proof fn lemma_reversals_of_one(txns: Seq<TransactionView>, eco: Seq<char>, id: Seq<char>)
    requires
        forall|i: int|
            0 <= i < with_tag(txns, "reverses"@, id).len() ==> tag_of(
                (#[trigger] with_tag(txns, "reverses"@, id)[i]).tags,
                "eco"@,
            ) is None,
    ensures
        reversals_of(txns, eco, seq![id]) == with_tag(txns, "reverses"@, id),
    decreases txns.len(),
{
    if txns.len() > 0 {
        let init = txns.drop_last();
        let t = txns.last();
        let all = with_tag(txns, "reverses"@, id);
        let before = with_tag(init, "reverses"@, id);
        assert forall|i: int| 0 <= i < before.len() implies tag_of((#[trigger] before[i]).tags, "eco"@) is None by {
            assert(all[i] == before[i]);
        }
        lemma_reversals_of_one(init, eco, id);
        if let Some(of) = tag_of(t.tags, "reverses"@) {
            lemma_push_contains(Seq::empty(), id, of);
            if of == id {
                assert(all[all.len() - 1] == t);
            }
        }
    }
}

/// Has no identifier two transactions?
spec fn distinct_ids(txns: Seq<TransactionView>) -> bool {
    forall|i: int, j: int|
        0 <= i < j < txns.len() && tag_of(txns[i].tags, "id"@) is Some ==> tag_of((#[trigger] txns[i]).tags, "id"@)
            != tag_of((#[trigger] txns[j]).tags, "id"@)
}

proof fn lemma_distinct_push(txns: Seq<TransactionView>, t: TransactionView)
    requires
        distinct_ids(txns),
        forall|i: int|
            0 <= i < txns.len() && tag_of((#[trigger] txns[i]).tags, "id"@) is Some ==> tag_of(txns[i].tags, "id"@)
                != tag_of(t.tags, "id"@),
    ensures
        distinct_ids(txns.push(t)),
{
    let all = txns.push(t);
    assert forall|i: int, j: int| 0 <= i < j < all.len() && tag_of(all[i].tags, "id"@) is Some implies tag_of(
        (#[trigger] all[i]).tags,
        "id"@,
    ) != tag_of((#[trigger] all[j]).tags, "id"@) by {
        assert(all[i] == txns[i]);
        if j < txns.len() {
            assert(all[j] == txns[j]);
        }
    }
}

proof fn lemma_distinct_init(txns: Seq<TransactionView>)
    requires
        distinct_ids(txns),
        txns.len() > 0,
    ensures
        distinct_ids(txns.drop_last()),
        forall|t: TransactionView| #[trigger]
            txns.drop_last().contains(t) && tag_of(t.tags, "id"@) is Some ==> tag_of(t.tags, "id"@) != tag_of(
                txns.last().tags,
                "id"@,
            ),
{
    let init = txns.drop_last();
    assert forall|i: int, j: int| 0 <= i < j < init.len() && tag_of(init[i].tags, "id"@) is Some implies tag_of(
        (#[trigger] init[i]).tags,
        "id"@,
    ) != tag_of((#[trigger] init[j]).tags, "id"@) by {
        assert(init[i] == txns[i] && init[j] == txns[j]);
    }
    assert forall|t: TransactionView| #[trigger] init.contains(t) && tag_of(t.tags, "id"@) is Some implies tag_of(
        t.tags,
        "id"@,
    ) != tag_of(txns.last().tags, "id"@) by {
        let i = choose|i: int| 0 <= i < init.len() && init[i] == t;
        assert(txns[i] == t);
        assert(txns[txns.len() - 1] == txns.last());
    }
}

proof fn lemma_distinct_tagged(txns: Seq<TransactionView>, name: Seq<char>, value: Seq<char>)
    requires
        distinct_ids(txns),
    ensures
        distinct_ids(with_tag(txns, name, value)),
    decreases txns.len(),
{
    if txns.len() > 0 {
        let init = txns.drop_last();
        lemma_distinct_init(txns);
        lemma_distinct_tagged(init, name, value);
        lemma_with_tag_within(init, name, value);
        if tag_of(txns.last().tags, name) == Some(value) {
            let kept = with_tag(init, name, value);
            assert forall|i: int| 0 <= i < kept.len() && tag_of((#[trigger] kept[i]).tags, "id"@) is Some implies tag_of(
                kept[i].tags,
                "id"@,
            ) != tag_of(txns.last().tags, "id"@) by {
                assert(init.contains(kept[i]));
            }
            lemma_distinct_push(kept, txns.last());
        }
    }
}

proof fn lemma_distinct_open(ledger: Seq<TransactionView>, txns: Seq<TransactionView>)
    requires
        distinct_ids(txns),
    ensures
        distinct_ids(open_txns(ledger, txns)),
    decreases txns.len(),
{
    if txns.len() > 0 {
        let init = txns.drop_last();
        lemma_distinct_init(txns);
        lemma_distinct_open(ledger, init);
        lemma_open_ids(ledger, init);
        if is_open(ledger, txns.last()) {
            let kept = open_txns(ledger, init);
            assert forall|i: int| 0 <= i < kept.len() && tag_of((#[trigger] kept[i]).tags, "id"@) is Some implies tag_of(
                kept[i].tags,
                "id"@,
            ) != tag_of(txns.last().tags, "id"@) by {
                assert(init.contains(kept[i]));
            }
            lemma_distinct_push(kept, txns.last());
        }
    }
}

/// Where exactly one transaction has the tag with this value, it is the one that is found.
proof fn lemma_single_tagged(txns: Seq<TransactionView>, name: Seq<char>, value: Seq<char>, j: int)
    requires
        0 <= j < txns.len(),
        forall|i: int| 0 <= i < txns.len() ==> (tag_of((#[trigger] txns[i]).tags, name) == Some(value)) == (i == j),
    ensures
        with_tag(txns, name, value) == seq![txns[j]],
    decreases txns.len(),
{
    let init = txns.drop_last();
    assert(tag_of(txns[j].tags, name) == Some(value));
    if j == txns.len() - 1 {
        assert forall|i: int| 0 <= i < init.len() implies tag_of((#[trigger] init[i]).tags, name) != Some(value) by {
            assert(init[i] == txns[i]);
        }
        lemma_none_tagged(init, name, value);
        assert(with_tag(txns, name, value) =~= seq![txns[j]]);
    } else {
        assert(tag_of(txns[txns.len() - 1].tags, name) != Some(value));
        assert forall|i: int| 0 <= i < init.len() implies (tag_of((#[trigger] init[i]).tags, name) == Some(value)) == (i
            == j) by {
            assert(init[i] == txns[i]);
        }
        lemma_single_tagged(init, name, value, j);
    }
}

/// Once everything that was open is reversed, each transaction of the order has exactly one
/// reversal, and it undoes it.
proof fn lemma_one_reversal(first: Seq<TransactionView>, eco: Seq<char>, after: Seq<TransactionView>, k: int)
    requires
        is_ledger(first),
        reversed_exactly(first, eco),
        has_reversed(first, eco, open_order(first, eco).len() as int, after),
        0 <= k < with_tag(first, "eco"@, eco).len(),
    ensures
        ({
            let t = with_tag(first, "eco"@, eco)[k];
            tag_of(t.tags, "id"@) matches Some(id) && with_tag(after, "reverses"@, id).len() == 1 && undoes(
                with_tag(after, "reverses"@, id)[0],
                t,
            )
        }),
{
    let order = with_tag(first, "eco"@, eco);
    let open = open_order(first, eco);
    let t = order[k];
    let id = tag_of(t.tags, "id"@)->0;
    let added = after.skip(first.len() as int);
    assert(first + added =~= after);
    assert forall|j: int| 0 <= j < added.len() implies undoes(#[trigger] added[j], open[j]) by {
        assert(added[j] == after[first.len() + j]);
        assert(undoes(after[first.len() + j], open[j]));
    }
    lemma_with_tag_concat(first, added, "reverses"@, id);
    lemma_open_ids(first, order);
    assert(distinct_ids(first));
    lemma_distinct_tagged(first, "eco"@, eco);
    lemma_distinct_open(first, order);
    if is_open(first, t) {
        lemma_open_is_kept(first, order, k);
        let j = choose|j: int| 0 <= j < open.len() && open[j] == t;
        assert(undoes(added[j], open[j]));
        assert forall|i: int| 0 <= i < added.len() implies (tag_of((#[trigger] added[i]).tags, "reverses"@) == Some(id))
            == (i == j) by {
            assert(undoes(added[i], open[i]));
            if i < j {
                assert(tag_of(open[i].tags, "id"@) != tag_of(open[j].tags, "id"@));
            } else if j < i {
                assert(tag_of(open[j].tags, "id"@) != tag_of(open[i].tags, "id"@));
            }
        }
        lemma_single_tagged(added, "reverses"@, id, j);
        assert(with_tag(after, "reverses"@, id) =~= seq![added[j]]);
    } else {
        assert forall|i: int| 0 <= i < added.len() implies tag_of((#[trigger] added[i]).tags, "reverses"@) != Some(id) by {
            assert(undoes(added[i], open[i]));
            lemma_open_is_open(first, order, i);
        }
        lemma_none_tagged(added, "reverses"@, id);
        assert(with_tag(after, "reverses"@, id) =~= with_tag(first, "reverses"@, id));
    }
}

proof fn lemma_open_is_open(ledger: Seq<TransactionView>, txns: Seq<TransactionView>, i: int)
    requires
        0 <= i < open_txns(ledger, txns).len(),
    ensures
        is_open(ledger, open_txns(ledger, txns)[i]),
    decreases txns.len(),
{
    let init = txns.drop_last();
    if i < open_txns(ledger, init).len() {
        lemma_open_is_open(ledger, init, i);
    }
}

proof fn lemma_ids_of_all(txns: Seq<TransactionView>)
    requires
        forall|k: int| 0 <= k < txns.len() ==> tag_of((#[trigger] txns[k]).tags, "id"@) is Some,
    ensures
        ids_of(txns).len() == txns.len(),
        forall|k: int| 0 <= k < txns.len() ==> tag_of((#[trigger] txns[k]).tags, "id"@) == Some(ids_of(txns)[k]),
    decreases txns.len(),
{
    if txns.len() > 0 {
        let init = txns.drop_last();
        assert forall|k: int| 0 <= k < init.len() implies tag_of((#[trigger] init[k]).tags, "id"@) is Some by {
            assert(init[k] == txns[k]);
        }
        assert(tag_of(txns[txns.len() - 1].tags, "id"@) is Some);
        lemma_ids_of_all(init);
        assert forall|k: int| 0 <= k < txns.len() implies tag_of((#[trigger] txns[k]).tags, "id"@) == Some(
            ids_of(txns)[k],
        ) by {
            if k < init.len() {
                assert(init[k] == txns[k]);
            }
        }
    }
}

/// The first `n` transactions of an order and their reversals take each other back.
proof fn lemma_order_cancels(
    order: Seq<TransactionView>,
    n: int,
    after: Seq<TransactionView>,
    eco: Seq<char>,
    account: Seq<char>,
    commodity: Seq<char>,
    places: nat,
)
    requires
        0 <= n <= order.len(),
        distinct_ids(order),
        fits_places(order, places),
        forall|k: int|
            0 <= k < order.len() ==> (tag_of((#[trigger] order[k]).tags, "id"@) matches Some(id) && with_tag(
                after,
                "reverses"@,
                id,
            ).len() == 1 && undoes(with_tag(after, "reverses"@, id)[0], order[k])),
    ensures
        balance(order.take(n), account, commodity, places) + balance(
            reversals_of(after, eco, ids_of(order.take(n))),
            account,
            commodity,
            places,
        ) == 0,
    decreases n,
{
    if n == 0 {
        assert(ids_of(order.take(0)) =~= Seq::empty());
        lemma_no_reversals(after, eco);
    } else {
        lemma_order_cancels(order, n - 1, after, eco, account, commodity, places);
        let init = order.take(n - 1);
        let t = order[n - 1];
        let id = tag_of(t.tags, "id"@)->0;
        assert(undoes(with_tag(after, "reverses"@, id)[0], t));
        assert(order.take(n).drop_last() =~= init);
        assert(order.take(n).last() == t);
        assert forall|k: int| 0 <= k < init.len() implies tag_of((#[trigger] init[k]).tags, "id"@) is Some by {
            assert(init[k] == order[k]);
        }
        lemma_ids_of_all(init);
        assert(!ids_of(init).contains(id)) by {
            if ids_of(init).contains(id) {
                let k = choose|k: int| 0 <= k < ids_of(init).len() && ids_of(init)[k] == id;
                assert(tag_of(init[k].tags, "id"@) == Some(id));
                assert(init[k] == order[k]);
                assert(tag_of(order[k].tags, "id"@) != tag_of(order[n - 1].tags, "id"@));
            }
        }
        assert(ids_of(order.take(n)) == ids_of(init).push(id));
        lemma_one_more(after, eco, ids_of(init), id, account, commodity, places);
        let r = with_tag(after, "reverses"@, id);
        lemma_reversals_of_one(after, eco, id);
        assert(r =~= seq![r[0]]);
        assert(r.drop_last() =~= Seq::empty());
        assert(balance(r.drop_last(), account, commodity, places) == 0);
        let postings = t.postings;
        assert forall|i: int, j: int| 0 <= i < postings.len() && 0 <= j < postings[i].amounts.len() implies (
        #[trigger] postings[i].amounts[j]).quantity.places <= places by {
            assert(order[n - 1].postings[i].amounts[j].quantity.places <= places);
        }
        law_void_leaves_nothing(postings, account, commodity, places);
    }
}

proof fn lemma_no_reversals(txns: Seq<TransactionView>, eco: Seq<char>)
    ensures
        reversals_of(txns, eco, Seq::empty()).len() == 0,
    decreases txns.len(),
{
    if txns.len() > 0 {
        lemma_no_reversals(txns.drop_last(), eco);
    }
}

proof fn lemma_apart_concat(a: Seq<TransactionView>, b: Seq<TransactionView>, eco: Seq<char>, ids: Seq<Seq<char>>)
    requires
        forall|i: int| 0 <= i < b.len() ==> reverses_one_of(#[trigger] b[i], eco, ids),
    ensures
        apart_from(a + b, eco, ids) == apart_from(a, eco, ids),
    decreases b.len(),
{
    if b.len() == 0 {
        assert(a + b =~= a);
    } else {
        let init = b.drop_last();
        assert forall|i: int| 0 <= i < init.len() implies reverses_one_of(#[trigger] init[i], eco, ids) by {
            assert(init[i] == b[i]);
        }
        assert(reverses_one_of(b[b.len() - 1], eco, ids));
        lemma_apart_concat(a, init, eco, ids);
        assert((a + b).drop_last() =~= a + init);
    }
}

proof fn lemma_added_are_reversals(first: Seq<TransactionView>, eco: Seq<char>, after: Seq<TransactionView>)
    requires
        has_reversed(first, eco, open_order(first, eco).len() as int, after),
        reversed_exactly(first, eco),
    ensures
        with_tag(after, "eco"@, eco) == with_tag(first, "eco"@, eco),
        without_order(after, eco) == without_order(first, eco),
{
    let order = with_tag(first, "eco"@, eco);
    let open = open_order(first, eco);
    let ids = ids_of(order);
    let added = after.skip(first.len() as int);
    assert(first + added =~= after);
    lemma_all_reversed(first, eco, after);
    lemma_open_ids(first, order);
    assert forall|k: int| 0 <= k < order.len() implies tag_of((#[trigger] order[k]).tags, "id"@) is Some by {}
    lemma_ids_of_all(order);
    assert forall|i: int| 0 <= i < added.len() implies reverses_one_of(#[trigger] added[i], eco, ids) by {
        assert(added[i] == after[first.len() + i]);
        assert(undoes(added[i], open[i]));
        assert(order.contains(open[i]));
        let k = choose|k: int| 0 <= k < order.len() && order[k] == open[i];
        assert(tag_of(order[k].tags, "id"@) == Some(ids[k]));
        assert(ids.contains(ids[k]));
    }
    lemma_apart_concat(first, added, eco, ids);
}

proof fn lemma_as_without(
    first: Seq<TransactionView>,
    eco: Seq<char>,
    after: Seq<TransactionView>,
    account: Seq<char>,
    commodity: Seq<char>,
    places: nat,
)
    requires
        is_ledger(first),
        reversed_exactly(first, eco),
        has_reversed(first, eco, open_order(first, eco).len() as int, after),
        fits_places(with_tag(first, "eco"@, eco), places),
    ensures
        balance(after, account, commodity, places) == balance(without_order(first, eco), account, commodity, places),
{
    let order = with_tag(first, "eco"@, eco);
    let n = order.len() as int;
    lemma_added_are_reversals(first, eco, after);
    assert(distinct_ids(first));
    lemma_distinct_tagged(first, "eco"@, eco);
    assert forall|k: int| 0 <= k < order.len() implies (tag_of((#[trigger] order[k]).tags, "id"@) matches Some(id)
        && with_tag(after, "reverses"@, id).len() == 1 && undoes(with_tag(after, "reverses"@, id)[0], order[k])) by {
        lemma_one_reversal(first, eco, after, k);
    }
    lemma_order_cancels(order, n, after, eco, account, commodity, places);
    assert(order.take(n) =~= order);
    lemma_parts(after, eco, ids_of(order), account, commodity, places);
}

// ---------------------------------------------------------------------------
// Laws
// ---------------------------------------------------------------------------

/// Voiding a change order reverses all that is left of it. A course that ends well has added
/// exactly one reversal for each of the order's transactions that was still to be reversed, in
/// their order, and nothing else, and says how many they were. The order has the transactions
/// that it had, and none of them is left to be reversed.
pub proof fn law_voided_order_is_reversed(turns: Seq<OrderTurn>, eco: Seq<char>)
    requires
        order_course(turns, eco),
        turns.len() > 0,
        turns.last().step matches Step::Done(Ok(_)),
    ensures
        ({
            let first = turns[0].before;
            let after = turns.last().after;
            let open = open_order(first, eco);
            let out = turns.last().step->Done_0->Ok_0;
            &&& open.len() > 0
            &&& out.eco@ == eco
            &&& out.count == open.len()
            &&& has_reversed(first, eco, open.len() as int, after)
            &&& with_tag(after, "eco"@, eco) == with_tag(first, "eco"@, eco)
            &&& open_order(after, eco).len() == 0
        }),
{
    let n = turns.len() - 1;
    let last = turns[n];
    let first = turns[0].before;
    let after = last.after;
    lemma_order_course(turns, eco, n);
    assert(eco_void_next(last.state, last.reply, last.step));
    assert(ledger_after(last.before, last.action, last.reply, last.after));
    if last.state is Events {
        lemma_events_turn(last, first, eco);
    } else {
        lemma_voiding_turn(last, first, eco);
    }
    lemma_all_reversed(first, eco, after);
}

/// Voiding a change order takes back what is left of it: on every account, in every commodity,
/// the ledger has afterwards what it had, less what the order's transactions that were still to
/// be reversed had put there.
pub proof fn law_voided_order_leaves_nothing(
    turns: Seq<OrderTurn>,
    eco: Seq<char>,
    account: Seq<char>,
    commodity: Seq<char>,
    places: nat,
)
    requires
        order_course(turns, eco),
        turns.len() > 0,
        turns.last().step matches Step::Done(Ok(_)),
        fits_places(open_order(turns[0].before, eco), places),
    ensures
        balance(turns.last().after, account, commodity, places) == balance(
            turns[0].before,
            account,
            commodity,
            places,
        ) - balance(open_order(turns[0].before, eco), account, commodity, places),
{
    law_voided_order_is_reversed(turns, eco);
    lemma_reversed_balance(turns[0].before, eco, turns.last().after, account, commodity, places);
}

/// A voided change order is as if it had never been: on every account, in every commodity, the
/// ledger has what it has without the order's transactions and all that reverse them, also where
/// a part of the order was voided before. Everything else in the ledger is untouched, and the
/// order is reversed exactly: each of its transactions once, with its amounts. Reversals that
/// were there before have to be exact too, and none of them may be there twice.
pub proof fn law_voided_order_is_as_if_never_recorded(
    turns: Seq<OrderTurn>,
    eco: Seq<char>,
    account: Seq<char>,
    commodity: Seq<char>,
    places: nat,
)
    requires
        order_course(turns, eco),
        turns.len() > 0,
        turns.last().step matches Step::Done(Ok(_)),
        reversed_exactly(turns[0].before, eco),
        fits_places(with_tag(turns[0].before, "eco"@, eco), places),
    ensures
        balance(turns.last().after, account, commodity, places) == balance(
            without_order(turns[0].before, eco),
            account,
            commodity,
            places,
        ),
        without_order(turns.last().after, eco) == without_order(turns[0].before, eco),
        reversed_exactly(turns.last().after, eco),
{
    let first = turns[0].before;
    let after = turns.last().after;
    lemma_order_course(turns, eco, 0);
    law_voided_order_is_reversed(turns, eco);
    lemma_as_without(first, eco, after, account, commodity, places);
    lemma_added_are_reversals(first, eco, after);
    let order = with_tag(first, "eco"@, eco);
    assert forall|k: int| 0 <= k < order.len() implies ({
        let t = #[trigger] order[k];
        tag_of(t.tags, "id"@) matches Some(id) && ({
            let found = with_tag(after, "reverses"@, id);
            found.len() == 0 || (found.len() == 1 && undoes(found[0], t))
        })
    }) by {
        lemma_one_reversal(first, eco, after, k);
    }
}

/// When voiding a change order ends how, where every action is carried out: for an order that
/// was never recorded, and for one that is fully voided already, in an error of the input with
/// the ledger as it was; else, where everything that is left of the order can be voided, well.
pub proof fn law_void_order_decides(turns: Seq<OrderTurn>, eco: Seq<char>)
    requires
        order_course(turns, eco),
        turns.len() > 0,
        turns.last().step is Done,
        forall|i: int| 0 <= i < turns.len() ==> answered_void((#[trigger] turns[i]).action, turns[i].reply),
    ensures
        ({
            let first = turns[0].before;
            let open = open_order(first, eco);
            let last = turns.last();
            if first_event(with_tag(first, "eco"@, eco), "created"@) is None {
                ends_input(last.step, "unknown change order '"@ + eco + "' — record it first with eco_create"@)
                    && last.after == first
            } else if open.len() == 0 {
                ends_input(last.step, "change order '"@ + eco + "' is already fully voided"@) && last.after == first
            } else {
                (forall|k: int| 0 <= k < open.len() ==> is_voidable(#[trigger] open[k])) ==> (
                last.step matches Step::Done(Ok(_)))
            }
        }),
{
    let n = turns.len() - 1;
    let last = turns[n];
    let first = turns[0].before;
    lemma_order_course(turns, eco, n);
    assert(eco_void_next(last.state, last.reply, last.step));
    assert(ledger_after(last.before, last.action, last.reply, last.after));
    assert(answered_void(last.action, last.reply));
    if last.state is Events {
        lemma_events_turn(last, first, eco);
    } else {
        lemma_voiding_turn(last, first, eco);
    }
}

/// However voiding a change order ends, nothing but reversals of what was left of it was added:
/// those of its first transactions that were still to be reversed.
pub proof fn law_void_order_only_reverses(turns: Seq<OrderTurn>, eco: Seq<char>)
    requires
        order_course(turns, eco),
        turns.len() > 0,
        turns.last().step is Done,
    ensures
        exists|n: int| #[trigger] has_reversed(turns[0].before, eco, n, turns.last().after),
{
    let n = turns.len() - 1;
    let last = turns[n];
    let first = turns[0].before;
    lemma_order_course(turns, eco, n);
    assert(eco_void_next(last.state, last.reply, last.step));
    assert(ledger_after(last.before, last.action, last.reply, last.after));
    if last.state is Events {
        lemma_events_turn(last, first, eco);
        assert(first.take(first.len() as int) =~= first);
        assert(has_reversed(first, eco, 0, last.after));
    } else {
        lemma_voiding_turn(last, first, eco);
    }
}

} // verus!
