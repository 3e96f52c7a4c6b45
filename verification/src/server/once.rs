//! Recording and approving a change order, seen as a whole: each happens once.

use vstd::prelude::*;

use crate::domain::{eco_approved, pending_order};
use crate::hledger::TransactionView;
use crate::server::args::{EcoCreateArgs, EcoRefArgs};
use crate::server::orders::{
    ApproveState, ApprovedOrder, CreateState, EcoEvents, EventsState, RecordedOrder,
    approve_begins, approve_decides, approve_next, approve_posts, approve_reads, create_begins,
    create_begins_post, create_next, create_posts, events_begin, events_next, first_event,
    is_named, marks_event, order_recorded,
};
use crate::text::{texts, trim};
use crate::write::{
    WriteOutcome, exact_tag_query, law_kept_transactions_match_exactly, tag_of, with_tag,
};
use crate::write::input::{TransactionInput, TransactionInputView};
use crate::write::plan::{
    Action, PostState, Reply, Step, Turn, accepted, answers, chained, ends_input, entries,
    is_key_for, lemma_entries_step, listed_txns, post_begins, post_next, post_text, stamped,
};
use crate::write::readback::{
    is_read_from, law_posted_entry_is_found, lemma_trim_clean, lemma_trim_word, trimmed_tags,
};
use crate::write::retry::{is_entry_of, lemma_post_begins_at, lemma_post_steps_on, post_stands_at};
use crate::write::validate::{ValidatedView, law_validation_accepts_exactly, validation};

verus! {

/// Is the transaction one of the change order, and does it mark this event?
pub open spec fn is_event_of(t: TransactionView, eco: Seq<char>, event: Seq<char>) -> bool {
    tag_of(t.tags, "eco"@) == Some(eco) && marks_event(t, event)
}

/// An entry that asks for these tags first is read back as an event of the order.
proof fn lemma_event_is_read(
    entry: Seq<char>,
    t: TransactionView,
    input: TransactionInputView,
    id: Seq<char>,
    eco: Seq<char>,
    event: Seq<char>,
)
    requires
        is_entry_of(entry, input, id),
        is_read_from(t, entry),
        input.tags.len() >= 2,
        input.tags[0] == ("eco"@, eco),
        input.tags[1] == ("eco_event"@, event),
        trim(event) == event,
    ensures
        is_event_of(t, trim(eco), event),
{
    let (v, key) = choose|v: ValidatedView, key: Seq<char>|
        accepted(input, v) && is_key_for(input, key) && entry == #[trigger] post_text(v, id, key);
    let (accounts, commodities) = choose|accounts: Seq<Seq<char>>, commodities: Seq<Seq<char>>| #[trigger]
        validation(input, accounts, commodities) == Ok::<ValidatedView, Seq<char>>(v);
    law_posted_entry_is_found(input, accounts, commodities, id, key);
    law_validation_accepts_exactly(input, accounts, commodities);
    let all = t.tags;
    assert(all == stamped(id, key, trimmed_tags(input.tags)));
    reveal_strlit("id");
    reveal_strlit("idem");
    reveal_strlit("eco");
    assert("id"@.len() == 2 && "idem"@.len() == 4 && "eco"@.len() == 3);
    assert(all[2] == ("eco"@, trim(eco)));
    assert(all[3] == ("eco_event"@, event));
    let one = all.skip(1);
    let two = one.skip(1);
    assert(one[0] == ("idem"@, key));
    assert(two[0] == all[2]);
    assert(tag_of(two, "eco"@) == Some(trim(eco)));
    assert(tag_of(one, "eco"@) == Some(trim(eco)));
}

proof fn lemma_first_event(txns: Seq<TransactionView>, event: Seq<char>, i: int)
    requires
        0 <= i < txns.len(),
        marks_event(txns[i], event),
    ensures
        first_event(txns, event) is Some,
    decreases txns.len(),
{
    if i > 0 {
        assert(txns.skip(1)[i - 1] == txns[i]);
        lemma_first_event(txns.skip(1), event, i - 1);
    }
}

/// In a ledger that holds an event of the order, the event is found.
proof fn lemma_event_is_found(ledger: Seq<TransactionView>, t: TransactionView, eco: Seq<char>, event: Seq<char>)
    requires
        ledger.contains(t),
        is_event_of(t, eco, event),
    ensures
        with_tag(ledger, "eco"@, eco).len() > 0,
        first_event(with_tag(ledger, "eco"@, eco), event) is Some,
{
    let i = choose|i: int| 0 <= i < ledger.len() && ledger[i] == t;
    law_kept_transactions_match_exactly(ledger, "eco"@, eco);
    let order = with_tag(ledger, "eco"@, eco);
    assert(order.contains(ledger[i]));
    let k = choose|k: int| 0 <= k < order.len() && order[k] == t;
    lemma_first_event(order, event, k);
}

// ---------------------------------------------------------------------------
// Recording
// ---------------------------------------------------------------------------

/// One step of recording a change order.
pub type CreateTurn = Turn<CreateState, RecordedOrder>;

/// Does each step of the recording follow from the one before it?
pub open spec fn create_goes_on(turns: Seq<CreateTurn>) -> bool {
    &&& forall|i: int| 0 <= i < turns.len() ==> create_next((#[trigger] turns[i]).state, turns[i].reply, turns[i].step)
    &&& chained(turns)
}

/// Is it the course of recording this change order?
pub open spec fn create_course(turns: Seq<CreateTurn>, args: EcoCreateArgs) -> bool {
    &&& turns.len() > 0 ==> create_begins(args, Step::Run(turns[0].state, turns[0].action))
    &&& create_goes_on(turns)
}

/// Is it the course of recording a change order, with its name in the arguments?
spec fn named_create_course(turns: Seq<CreateTurn>, args: EcoCreateArgs) -> bool {
    &&& turns.len() > 0 ==> turns[0].state == CreateState::Lookup { args } && (
    turns[0].action matches Action::Print { query } && query@ == exact_tag_query("eco"@, args.eco@))
    &&& create_goes_on(turns)
    &&& trim(args.eco@) == args.eco@
}

/// Where recording stands, with this action under way.
spec fn create_stands(turn: CreateTurn, args: EcoCreateArgs) -> bool {
    match turn.state {
        CreateState::Lookup { args: a } => a == args && turn.action is Print,
        CreateState::Declared { args: a } => a == args && turn.action is DeclaredAccounts,
        CreateState::Declaring { args: a } => a == args && turn.action is Append,
        CreateState::Posting { eco, post } => eco@ == args.eco@ && post_stands_at(
            post,
            turn.action,
            order_recorded(args),
        ),
    }
}

proof fn lemma_create_begins(args: EcoCreateArgs, r: Step<CreateState, RecordedOrder>)
    requires
        create_begins_post(args, r),
    ensures
        r matches Step::Run(s, a) && forall|next: CreateTurn|
            next.state == s && next.action == a ==> #[trigger] create_stands(next, args),
{
    let (input, inner) = choose|input: TransactionInput, inner: Step<PostState, WriteOutcome>|
        input@ == order_recorded(args) && #[trigger] post_begins(input, inner) && create_posts(inner, args.eco@, r);
    assert(post_begins(input, inner) && create_posts(inner, args.eco@, r));
    lemma_post_begins_at(input, inner);
}

proof fn lemma_create_course(turns: Seq<CreateTurn>, args: EcoCreateArgs, i: int)
    requires
        named_create_course(turns, args),
        0 <= i < turns.len(),
    ensures
        create_stands(turns[i], args),
    decreases i,
{
    if i > 0 {
        lemma_create_course(turns, args, i - 1);
        let turn = turns[i - 1];
        assert(create_next(turn.state, turn.reply, turn.step));
        assert(turns[i].state == turn.step->Run_0);
        match turn.state {
            CreateState::Lookup { .. } => {},
            CreateState::Declared { .. } => {
                if create_begins_post(args, turn.step) {
                    lemma_create_begins(args, turn.step);
                }
            },
            CreateState::Declaring { .. } => {
                lemma_create_begins(args, turn.step);
            },
            CreateState::Posting { eco, post } => {
                let inner = choose|inner: Step<PostState, WriteOutcome>|
                    #![trigger post_next(post, turn.reply, inner)]
                    post_next(post, turn.reply, inner) && create_posts(inner, eco@, turn.step);
                assert(post_next(post, turn.reply, inner) && create_posts(inner, eco@, turn.step));
                lemma_post_steps_on(post, turn.action, order_recorded(args), turn.reply, inner);
            },
        }
    }
}

proof fn lemma_record_is_written(first: Seq<CreateTurn>, args: EcoCreateArgs)
    requires
        named_create_course(first, args),
        first.len() > 0,
        first.last().step matches Step::Done(Ok(order)) && !order.outcome.deduped,
    ensures
        entries(first).len() > 0,
        is_entry_of(
            entries(first).last(),
            order_recorded(args),
            (first.last().step->Done_0->Ok_0).outcome.base.id@,
        ),
{
    let eco = args.eco@;
    let n = first.len() - 1;
    let last = first[n];
    lemma_create_course(first, args, n);
    lemma_entries_step(first, n);
    assert(first.take(n + 1) =~= first);
    assert(create_next(last.state, last.reply, last.step));
    assert(last.state is Posting) by {
        if last.state is Declaring || last.state is Declared {
            if create_begins_post(args, last.step) {
                lemma_create_begins(args, last.step);
            }
        }
    }
    let post = last.state->Posting_post;
    let inner = choose|inner: Step<PostState, WriteOutcome>|
        #![trigger post_next(post, last.reply, inner)]
        post_next(post, last.reply, inner) && create_posts(inner, last.state->Posting_eco@, last.step);
    assert(post_next(post, last.reply, inner) && create_posts(inner, eco, last.step));
    let input = order_recorded(args);
    lemma_post_steps_on(post, last.action, input, last.reply, inner);
    let id = (inner->Done_0->Ok_0).base.id@;
    let entry = last.action->Append_addition@;
    assert(entries(first).last() == entry);
}

proof fn lemma_recorded(first: Seq<CreateTurn>, args: EcoCreateArgs, t: TransactionView)
    requires
        named_create_course(first, args),
        first.len() > 0,
        first.last().step matches Step::Done(Ok(order)) && !order.outcome.deduped,
        is_read_from(t, entries(first).last()),
    ensures
        entries(first).len() > 0,
        is_event_of(t, trim(args.eco@), "created"@),
{
    lemma_record_is_written(first, args);
    lemma_record_is_read(
        entries(first).last(),
        args,
        (first.last().step->Done_0->Ok_0).outcome.base.id@,
        t,
    );
}

proof fn lemma_record_is_read(entry: Seq<char>, args: EcoCreateArgs, id: Seq<char>, t: TransactionView)
    requires
        is_entry_of(entry, order_recorded(args), id),
        is_read_from(t, entry),
    ensures
        is_event_of(t, trim(args.eco@), "created"@),
{
    reveal_strlit("created");
    lemma_trim_word("created"@);
    lemma_event_is_read(entry, t, order_recorded(args), id, args.eco@, "created"@);
}

proof fn lemma_recorded_again(
    second: Seq<CreateTurn>,
    again: EcoCreateArgs,
    ledger: Seq<TransactionView>,
    t: TransactionView,
)
    requires
        ledger.contains(t),
        is_event_of(t, again.eco@, "created"@),
        named_create_course(second, again),
        second.len() > 0,
        second[0].action matches Action::Print { query } && second[0].reply matches Reply::Transactions(Ok(_))
            && answers(query@, listed_txns(second[0].reply), ledger),
    ensures
        second.len() == 1,
        ends_input(second[0].step, "change order '"@ + again.eco@ + "' already exists"@),
        entries(second).len() == 0,
{
    let eco = again.eco@;
    lemma_event_is_found(ledger, t, eco, "created"@);
    assert(create_next(second[0].state, second[0].reply, second[0].step));
    assert(with_tag(listed_txns(second[0].reply), "eco"@, eco) == with_tag(ledger, "eco"@, eco));
    assert(second[0].step is Done);
    if second.len() > 1 {
        assert(second[1].state == second[0].step->Run_0);
    }
    lemma_entries_step(second, 0);
    assert(second.take(0) =~= Seq::empty());
    assert(second.take(1) =~= second);
}

/// A change order is recorded once. A first request recorded it, and the ledger holds what it
/// wrote. Whatever a second request for the same order asks for, it is refused, with nothing
/// written.
pub proof fn law_order_is_recorded_once(
    first: Seq<CreateTurn>,
    args: EcoCreateArgs,
    t: TransactionView,
    ledger: Seq<TransactionView>,
    second: Seq<CreateTurn>,
    again: EcoCreateArgs,
)
    requires
        create_course(first, args),
        first.len() > 0,
        first.last().step matches Step::Done(Ok(order)) && !order.outcome.deduped,
        is_read_from(t, entries(first).last()),
        ledger.contains(t),
        create_course(second, again),
        trim(again.eco@) == trim(args.eco@),
        second.len() > 0,
        second[0].action matches Action::Print { query } && second[0].reply matches Reply::Transactions(Ok(_))
            && answers(query@, listed_txns(second[0].reply), ledger),
    ensures
        entries(first).len() > 0,
        is_event_of(t, trim(args.eco@), "created"@),
        second.len() == 1,
        ends_input(second[0].step, "change order '"@ + trim(args.eco@) + "' already exists"@),
        entries(second).len() == 0,
{
    let named = first[0].state->Lookup_args;
    let renamed = second[0].state->Lookup_args;
    lemma_trim_clean(args.eco@);
    lemma_recorded(first, named, t);
    lemma_recorded_again(second, renamed, ledger, t);
}

// ---------------------------------------------------------------------------
// Approving
// ---------------------------------------------------------------------------

/// One step of approving a change order.
pub type ApproveTurn = Turn<ApproveState, ApprovedOrder>;

/// Does each step of the approval follow from the one before it?
pub open spec fn approve_goes_on(turns: Seq<ApproveTurn>) -> bool {
    &&& forall|i: int| 0 <= i < turns.len() ==> approve_next((#[trigger] turns[i]).state, turns[i].reply, turns[i].step)
    &&& chained(turns)
}

/// Is it the course of approving this change order?
pub open spec fn approve_course(turns: Seq<ApproveTurn>, args: EcoRefArgs) -> bool {
    &&& turns.len() > 0 ==> approve_begins(args, Step::Run(turns[0].state, turns[0].action))
    &&& approve_goes_on(turns)
}

/// Is it the course of approving a change order, with its name in the arguments?
spec fn named_approve_course(turns: Seq<ApproveTurn>, args: EcoRefArgs) -> bool {
    &&& turns.len() > 0 ==> exists|inner: Step<EventsState, EcoEvents>|
        #![trigger events_begin(args.eco@, inner)]
        events_begin(args.eco@, inner) && approve_reads(inner, args, Step::Run(turns[0].state, turns[0].action))
    &&& approve_goes_on(turns)
    &&& trim(args.eco@) == args.eco@
}

/// The arguments of an approval with the order's name in it.
proof fn lemma_approve_named(turns: Seq<ApproveTurn>, args: EcoRefArgs) -> (named: EcoRefArgs)
    requires
        approve_course(turns, args),
        turns.len() > 0,
    ensures
        named.eco@ == trim(args.eco@),
        named_approve_course(turns, named),
{
    let r = Step::<ApproveState, ApprovedOrder>::Run(turns[0].state, turns[0].action);
    let (named, inner) = choose|named: EcoRefArgs, inner: Step<EventsState, EcoEvents>|
        is_named(named, args) && #[trigger] events_begin(named.eco@, inner) && approve_reads(inner, named, r);
    assert(events_begin(named.eco@, inner) && approve_reads(inner, named, r));
    lemma_trim_clean(args.eco@);
    named
}

/// Is it an approval of the order, with some trade and amount?
pub open spec fn is_approval(input: TransactionInputView, args: EcoRefArgs) -> bool {
    exists|trade: Seq<char>, amount: Seq<char>, commodity: Seq<char>|
        input == #[trigger] eco_approved(args.date@, args.eco@, trade, amount, commodity)
}

/// Has an approval of the order been written, and is this its outcome?
spec fn is_written_approval(entry: Seq<char>, args: EcoRefArgs, out: WriteOutcome) -> bool {
    exists|input: TransactionInputView| is_approval(input, args) && #[trigger] is_entry_of(entry, input, out.base.id@)
}

/// Where approving stands, with these entries written.
spec fn approve_stands(turn: ApproveTurn, args: EcoRefArgs, done: Seq<Seq<char>>) -> bool {
    match turn.state {
        ApproveState::Events { args: a, events } => a == args && done.len() == 0 && turn.action is Print,
        ApproveState::Posting { post, .. } => done.len() == 0 && exists|input: TransactionInputView|
            is_approval(input, args) && #[trigger] post_stands_at(post, turn.action, input),
        ApproveState::Standing { outcome, .. } => turn.action is Budget && if outcome.deduped {
            done.len() == 0
        } else {
            done.len() == 1 && is_written_approval(done[0], args, outcome)
        },
    }
}

proof fn lemma_approve_decides(found: EcoEvents, args: EcoRefArgs, r: Step<ApproveState, ApprovedOrder>)
    requires
        approve_decides(found, args, r),
    ensures
        r matches Step::Run(s, a) ==> !found.approved && found.created is Some && forall|next: ApproveTurn|
            next.state == s && next.action == a ==> #[trigger] approve_stands(next, args, Seq::empty()),
        !(r matches Step::Done(Ok(_))),
{
    if found.created is Some && !found.approved && pending_order((found.created->0)@.postings) is Some {
        let (trade, amount) = pending_order((found.created->0)@.postings)->0;
        let text = crate::hledger::amount::quantity_text(amount.quantity);
        let (input, inner) = choose|input: TransactionInput, inner: Step<PostState, WriteOutcome>|
            input@ == eco_approved(args.date@, args.eco@, trade, text, amount.commodity) && #[trigger] post_begins(
                input,
                inner,
            ) && approve_posts(inner, args.eco@, trade, r);
        assert(post_begins(input, inner) && approve_posts(inner, args.eco@, trade, r));
        assert(input@ == eco_approved(args.date@, args.eco@, trade, text, amount.commodity));
        lemma_post_begins_at(input, inner);
        let (s, a) = (inner->Run_0, inner->Run_1);
        assert(is_approval(input@, args) && post_stands_at(s, a, input@));
    }
}

proof fn lemma_approve_course(turns: Seq<ApproveTurn>, args: EcoRefArgs, i: int)
    requires
        named_approve_course(turns, args),
        0 <= i < turns.len(),
    ensures
        approve_stands(turns[i], args, entries(turns.take(i))),
    decreases i,
{
    if i == 0 {
        let r = Step::<ApproveState, ApprovedOrder>::Run(turns[0].state, turns[0].action);
        let inner = choose|inner: Step<EventsState, EcoEvents>|
            #![trigger events_begin(args.eco@, inner)]
            events_begin(args.eco@, inner) && approve_reads(inner, args, r);
        assert(events_begin(args.eco@, inner));
        assert(entries(turns.take(0)).len() == 0);
    } else {
        lemma_approve_course(turns, args, i - 1);
        lemma_entries_step(turns, i - 1);
        let turn = turns[i - 1];
        let done = entries(turns.take(i - 1));
        assert(approve_next(turn.state, turn.reply, turn.step));
        assert(turns[i].state == turn.step->Run_0);
        match turn.state {
            ApproveState::Events { events, .. } => {
                let inner = choose|inner: Step<EventsState, EcoEvents>|
                    #![trigger events_next(events, turn.reply, inner)]
                    events_next(events, turn.reply, inner) && approve_reads(inner, args, turn.step);
                assert(events_next(events, turn.reply, inner) && approve_reads(inner, args, turn.step));
                assert(done =~= Seq::empty());
                if let Step::Done(Ok(found)) = inner {
                    lemma_approve_decides(found, args, turn.step);
                }
            },
            ApproveState::Posting { eco, trade, post } => {
                let inner = choose|inner: Step<PostState, WriteOutcome>|
                    #![trigger post_next(post, turn.reply, inner)]
                    post_next(post, turn.reply, inner) && approve_posts(inner, eco@, trade@, turn.step);
                assert(post_next(post, turn.reply, inner) && approve_posts(inner, eco@, trade@, turn.step));
                let input = choose|input: TransactionInputView|
                    is_approval(input, args) && #[trigger] post_stands_at(post, turn.action, input);
                lemma_post_steps_on(post, turn.action, input, turn.reply, inner);
                match inner {
                    Step::Run(s, a) => {
                        assert(post_stands_at(s, a, input));
                    },
                    Step::Done(Ok(out)) => {
                        if !out.deduped {
                            assert(is_entry_of(turn.action->Append_addition@, input, out.base.id@));
                        }
                    },
                    _ => {},
                }
            },
            ApproveState::Standing { .. } => {},
        }
    }
}

/// Were the searches for what happened to the order answered with what the ledger holds?
pub open spec fn events_looked_up(turns: Seq<ApproveTurn>, ledger: Seq<TransactionView>) -> bool {
    forall|i: int|
        0 <= i < turns.len() && (#[trigger] turns[i]).state is Events ==> (turns[i].action matches Action::Print {
            query,
        } && turns[i].reply matches Reply::Transactions(Ok(_)) && answers(
            query@,
            listed_txns(turns[i].reply),
            ledger,
        ))
}

/// What is known, while its events are read, of an order that the ledger holds an approval of.
spec fn approved_stands(turn: ApproveTurn, args: EcoRefArgs, ledger: Seq<TransactionView>) -> bool {
    turn.state matches ApproveState::Events { args: a, events } && a == args && turn.action is Print && match events {
        EventsState::Lookup { eco } => eco@ == args.eco@ && (turn.action matches Action::Print { query } && query@
            == exact_tag_query("eco"@, args.eco@)),
        EventsState::Reversals { found, ids, at } => found.approved && found.eco@ == args.eco@ && at < ids@.len() && (
        found.created is Some) == (first_event(with_tag(ledger, "eco"@, args.eco@), "created"@) is Some),
    }
}

proof fn lemma_approved_turn(turn: ApproveTurn, args: EcoRefArgs, ledger: Seq<TransactionView>)
    requires
        approved_stands(turn, args, ledger),
        approve_next(turn.state, turn.reply, turn.step),
        turn.action matches Action::Print { query } && turn.reply matches Reply::Transactions(Ok(_)) && answers(
            query@,
            listed_txns(turn.reply),
            ledger,
        ),
        first_event(with_tag(ledger, "eco"@, args.eco@), "approved"@) is Some,
    ensures
        turn.step matches Step::Run(s, a) ==> forall|next: ApproveTurn|
            next.state == s && next.action == a ==> #[trigger] approved_stands(next, args, ledger),
        turn.step is Done ==> if first_event(with_tag(ledger, "eco"@, args.eco@), "created"@) is Some {
            ends_input(turn.step, "change order '"@ + args.eco@ + "' is already approved"@)
        } else {
            ends_input(turn.step, "unknown change order '"@ + args.eco@ + "' — record it first with eco_create"@)
        },
{
    let events = turn.state->Events_events;
    let inner = choose|inner: Step<EventsState, EcoEvents>|
        #![trigger events_next(events, turn.reply, inner)]
        events_next(events, turn.reply, inner) && approve_reads(inner, args, turn.step);
    assert(events_next(events, turn.reply, inner) && approve_reads(inner, args, turn.step));
    if events is Lookup {
        assert(with_tag(listed_txns(turn.reply), "eco"@, args.eco@) == with_tag(ledger, "eco"@, args.eco@));
    } else {
        assert(texts(events->Reversals_ids@).len() == events->Reversals_ids@.len());
    }
    match inner {
        Step::Run(s, a) => {
            assert(s is Reversals);
            assert(texts(s->Reversals_ids@).len() == s->Reversals_ids@.len());
        },
        Step::Done(Ok(found)) => {
            lemma_approve_decides(found, args, turn.step);
        },
        _ => {},
    }
}

proof fn lemma_approved_course(turns: Seq<ApproveTurn>, args: EcoRefArgs, ledger: Seq<TransactionView>, i: int)
    requires
        named_approve_course(turns, args),
        events_looked_up(turns, ledger),
        first_event(with_tag(ledger, "eco"@, args.eco@), "approved"@) is Some,
        0 <= i < turns.len(),
    ensures
        approved_stands(turns[i], args, ledger),
        entries(turns.take(i + 1)).len() == 0,
    decreases i,
{
    if i == 0 {
        let r = Step::<ApproveState, ApprovedOrder>::Run(turns[0].state, turns[0].action);
        let inner = choose|inner: Step<EventsState, EcoEvents>|
            #![trigger events_begin(args.eco@, inner)]
            events_begin(args.eco@, inner) && approve_reads(inner, args, r);
        assert(events_begin(args.eco@, inner));
        assert(entries(turns.take(0)).len() == 0);
    } else {
        lemma_approved_course(turns, args, ledger, i - 1);
        let turn = turns[i - 1];
        assert(approve_next(turn.state, turn.reply, turn.step));
        assert(turn.state is Events);
        lemma_approved_turn(turn, args, ledger);
        assert(turns[i].state == turn.step->Run_0);
    }
    lemma_entries_step(turns, i);
}

proof fn lemma_approval_is_written(first: Seq<ApproveTurn>, args: EcoRefArgs)
    requires
        named_approve_course(first, args),
        first.len() > 0,
        first.last().step matches Step::Done(Ok(order)) && !order.outcome.deduped,
    ensures
        entries(first).len() == 1,
        is_written_approval(entries(first)[0], args, (first.last().step->Done_0->Ok_0).outcome),
{
    let n = first.len() - 1;
    let last = first[n];
    lemma_approve_course(first, args, n);
    lemma_entries_step(first, n);
    assert(first.take(n + 1) =~= first);
    assert(approve_next(last.state, last.reply, last.step));
    assert(last.state is Standing) by {
        match last.state {
            ApproveState::Events { events, .. } => {
                let inner = choose|inner: Step<EventsState, EcoEvents>|
                    #![trigger events_next(events, last.reply, inner)]
                    events_next(events, last.reply, inner) && approve_reads(inner, args, last.step);
                assert(approve_reads(inner, args, last.step));
                if let Step::Done(Ok(found)) = inner {
                    lemma_approve_decides(found, args, last.step);
                }
            },
            _ => {},
        }
    }
}

proof fn lemma_approved(first: Seq<ApproveTurn>, args: EcoRefArgs, t: TransactionView)
    requires
        named_approve_course(first, args),
        first.len() > 0,
        first.last().step matches Step::Done(Ok(order)) && !order.outcome.deduped,
        is_read_from(t, entries(first).last()),
    ensures
        entries(first).len() == 1,
        is_event_of(t, trim(args.eco@), "approved"@),
{
    lemma_approval_is_written(first, args);
    lemma_approval_is_read(entries(first)[0], args, (first.last().step->Done_0->Ok_0).outcome, t);
}

proof fn lemma_approval_is_read(entry: Seq<char>, args: EcoRefArgs, out: WriteOutcome, t: TransactionView)
    requires
        is_written_approval(entry, args, out),
        is_read_from(t, entry),
    ensures
        is_event_of(t, trim(args.eco@), "approved"@),
{
    let input = choose|input: TransactionInputView|
        is_approval(input, args) && #[trigger] is_entry_of(entry, input, out.base.id@);
    reveal_strlit("approved");
    lemma_trim_word("approved"@);
    lemma_event_is_read(entry, t, input, out.base.id@, args.eco@, "approved"@);
}

proof fn lemma_approved_again(
    second: Seq<ApproveTurn>,
    again: EcoRefArgs,
    ledger: Seq<TransactionView>,
    t: TransactionView,
)
    requires
        ledger.contains(t),
        is_event_of(t, again.eco@, "approved"@),
        named_approve_course(second, again),
        events_looked_up(second, ledger),
        second.len() > 0,
        second.last().step is Done,
    ensures
        if first_event(with_tag(ledger, "eco"@, again.eco@), "created"@) is Some {
            ends_input(second.last().step, "change order '"@ + again.eco@ + "' is already approved"@)
        } else {
            ends_input(
                second.last().step,
                "unknown change order '"@ + again.eco@ + "' — record it first with eco_create"@,
            )
        },
        entries(second).len() == 0,
{
    let eco = again.eco@;
    lemma_event_is_found(ledger, t, eco, "approved"@);
    let m = second.len() - 1;
    lemma_approved_course(second, again, ledger, m);
    assert(second.take(m + 1) =~= second);
    assert(second[m].state is Events);
    assert(approve_next(second[m].state, second[m].reply, second[m].step));
    lemma_approved_turn(second[m], again, ledger);
}

/// A change order is approved once. A first request approved it, and the ledger holds what it
/// wrote. A second request for the same order is refused, with nothing written.
pub proof fn law_order_is_approved_once(
    first: Seq<ApproveTurn>,
    args: EcoRefArgs,
    t: TransactionView,
    ledger: Seq<TransactionView>,
    second: Seq<ApproveTurn>,
    again: EcoRefArgs,
)
    requires
        approve_course(first, args),
        first.len() > 0,
        first.last().step matches Step::Done(Ok(order)) && !order.outcome.deduped,
        is_read_from(t, entries(first).last()),
        ledger.contains(t),
        approve_course(second, again),
        events_looked_up(second, ledger),
        trim(again.eco@) == trim(args.eco@),
        second.len() > 0,
        second.last().step is Done,
    ensures
        entries(first).len() == 1,
        is_event_of(t, trim(args.eco@), "approved"@),
        if first_event(with_tag(ledger, "eco"@, trim(args.eco@)), "created"@) is Some {
            ends_input(second.last().step, "change order '"@ + trim(args.eco@) + "' is already approved"@)
        } else {
            ends_input(
                second.last().step,
                "unknown change order '"@ + trim(args.eco@) + "' — record it first with eco_create"@,
            )
        },
        entries(second).len() == 0,
{
    let named = lemma_approve_named(first, args);
    let renamed = lemma_approve_named(second, again);
    lemma_approved(first, named, t);
    lemma_approved_again(second, renamed, ledger, t);
}

} // verus!
