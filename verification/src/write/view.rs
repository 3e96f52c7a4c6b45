//! What one connection has seen of the ledger, and what that lets it do.

use vstd::prelude::*;

use crate::epoch::{Epoch, ToolClass, check, passes, seen_view};
use crate::write::WriteError;

verus! {

/// One connection's view of the ledger: the epoch that it last read.
///
/// Reads and writes go through it. A read counts from the head before it began. A write
/// moves the view along only where the view was current: a writer learns nothing about what
/// others committed from its own write succeeding.
#[derive(Debug)]
pub struct ConnectionView {
    last_seen: Option<Epoch>,
}

impl View for ConnectionView {
    type V = Option<Option<Seq<char>>>;

    closed spec fn view(&self) -> Option<Option<Seq<char>>> {
        seen_view(self.last_seen)
    }
}

/// A write that passed the check, made while the write locks were held: only
/// [`ConnectionView::begin_write`] gives one.
#[derive(Debug)]
pub struct WriteContext {
    class: ToolClass,
    journal: String,
    head: Epoch,
}

impl WriteContext {
    /// What kind of call it is.
    pub closed spec fn class_view(&self) -> ToolClass {
        self.class
    }

    /// The journal that is written to.
    pub closed spec fn journal_view(&self) -> Seq<char> {
        self.journal@
    }

    /// The head before the write.
    pub closed spec fn head_view(&self) -> Option<Seq<char>> {
        self.head@
    }

    /// The journal that is written to.
    pub fn journal(&self) -> (r: &str)
        ensures
            r@ == self.journal_view(),
    {
        self.journal.as_str()
    }

    /// The decision that it is, where it is one.
    pub fn as_decision(&self) -> (r: Option<DecisionContext<'_>>)
        ensures
            match r {
                Some(decision) => self.class_view() == ToolClass::Decide && decision.context_view() == *self,
                None => self.class_view() != ToolClass::Decide,
            },
    {
        match self.class {
            ToolClass::Decide => Some(DecisionContext { context: self }),
            ToolClass::Record => None,
        }
    }
}

/// A decision that passed the check: a call of that class, by a connection that has seen the
/// head.
#[derive(Debug)]
pub struct DecisionContext<'a> {
    context: &'a WriteContext,
}

impl<'a> DecisionContext<'a> {
    /// The write that the decision leads to.
    pub closed spec fn context_view(&self) -> WriteContext {
        *self.context
    }

    /// The write that the decision leads to.
    pub fn context(&self) -> (r: &'a WriteContext)
        ensures
            *r == self.context_view(),
    {
        self.context
    }
}

/// A read under way, with the head from before it began, where that is known: only
/// [`ConnectionView::begin_read`] gives one.
#[derive(Debug)]
pub struct ReadContext {
    sample: Option<Epoch>,
}

impl ReadContext {
    /// The head from before the read, where it is known.
    pub closed spec fn sample_view(&self) -> Option<Option<Seq<char>>> {
        seen_view(self.sample)
    }
}

/// What a connection has seen after a write on top of `before`: the new head where it had
/// seen all there was, nothing where the new head could not be read; else what it had seen.
pub open spec fn seen_after_write(
    seen: Option<Option<Seq<char>>>,
    before: Option<Seq<char>>,
    now: Option<Option<Seq<char>>>,
) -> Option<Option<Seq<char>>> {
    if seen == Some(before) {
        now
    } else {
        seen
    }
}

/// What a connection has seen after a read: the head from before the read where the read
/// succeeded and that head is known, else what it had seen.
pub open spec fn seen_after_read(
    seen: Option<Option<Seq<char>>>,
    sample: Option<Option<Seq<char>>>,
    succeeded: bool,
) -> Option<Option<Seq<char>>> {
    if succeeded && sample is Some {
        sample
    } else {
        seen
    }
}

impl Default for ConnectionView {
    fn default() -> (r: Self)
        ensures
            r@ is None,
    {
        ConnectionView::new()
    }
}

impl ConnectionView {
    /// The view of a connection that has not read yet.
    pub fn new() -> (r: Self)
        ensures
            r@ is None,
    {
        ConnectionView { last_seen: None }
    }

    /// The epoch that the connection last read.
    pub fn last_seen(&self) -> (r: Option<&Epoch>)
        ensures
            match r {
                Some(e) => self@ == Some(e@),
                None => self@ is None,
            },
    {
        match &self.last_seen {
            Some(e) => Some(e),
            None => None,
        }
    }

    /// Begins a write, with the write locks held and `head` read under them.
    pub fn begin_write(&self, class: ToolClass, journal: &str, head: Epoch) -> (r: Result<WriteContext, WriteError>)
        ensures
            match r {
                Ok(ctx) => passes(class, self@, head@) && ctx.class_view() == class && ctx.journal_view() == journal@
                    && ctx.head_view() == head@,
                Err(e) => !passes(class, self@, head@) && (e matches WriteError::StaleEpoch(stale) && seen_view(
                    stale.seen,
                ) == self@ && stale.head@ == head@),
            },
    {
        let seen: Option<&Epoch> = self.last_seen();
        match check(class, seen, &head) {
            Ok(()) => Ok(WriteContext { class, journal: journal.to_owned(), head }),
            Err(stale) => Err(WriteError::StaleEpoch(stale)),
        }
    }

    /// Ends a write that was committed, with the write locks still held: `now` is the new
    /// head, where it could be read.
    pub fn finish_write(&mut self, ctx: WriteContext, now: Option<Epoch>)
        ensures
            final(self)@ == seen_after_write(old(self)@, ctx.head_view(), seen_view(now)),
    {
        let current: bool = match &self.last_seen {
            Some(seen) => seen.is(&ctx.head),
            None => false,
        };
        if current {
            self.last_seen = now;
        }
    }

    /// Begins a read: `sample` is the head now, where it could be read.
    pub fn begin_read(&self, sample: Option<Epoch>) -> (r: ReadContext)
        ensures
            r.sample_view() == seen_view(sample),
    {
        ReadContext { sample }
    }

    /// Ends a read: where it succeeded, the head from before it began is what was seen.
    pub fn finish_read(&mut self, read: ReadContext, succeeded: bool)
        ensures
            final(self)@ == seen_after_read(old(self)@, read.sample_view(), succeeded),
    {
        if succeeded {
            if let Some(epoch) = read.sample {
                self.last_seen = Some(epoch);
            }
        }
    }
}

// ---------------------------------------------------------------------------
// Laws
// ---------------------------------------------------------------------------

/// Reading and deciding with nothing committed in between always passes: a stale connection
/// can recover by reading again.
pub proof fn law_read_then_decide_passes(seen: Option<Option<Seq<char>>>, head: Option<Seq<char>>)
    ensures
        passes(ToolClass::Decide, seen_after_read(seen, Some(head), true), head),
{
}

/// A failed read changes nothing.
pub proof fn law_failed_read_grounds_nothing(seen: Option<Option<Seq<char>>>, sample: Option<Option<Seq<char>>>)
    ensures
        seen_after_read(seen, sample, false) == seen,
{
}

/// After its own write a connection has seen the new head exactly where it had seen the one before
/// it, and nothing where the new one could not be read; else it has seen what it had. After a read
/// it has seen the head from before the read where the read succeeded and that head is known.
pub proof fn law_a_view_moves_only_from_where_it_was(
    seen: Option<Option<Seq<char>>>,
    before: Option<Seq<char>>,
    now: Option<Option<Seq<char>>>,
)
    ensures
        seen == Some(before) ==> seen_after_write(seen, before, now) == now,
        seen != Some(before) ==> seen_after_write(seen, before, now) == seen,
        now is Some ==> seen_after_read(seen, now, true) == now,
        now is None ==> seen_after_read(seen, now, true) == seen,
        seen_after_read(seen, now, false) == seen,
{
}

/// What can happen to a ledger, as one connection is concerned.
pub enum Happening {
    /// The connection begins a read.
    ReadBegins,
    /// The read that began last ends, with or without success.
    ReadEnds { succeeded: bool },
    /// The connection writes, and this commit results; the new head may be unreadable.
    OwnWrite { oid: Seq<char>, resampled: bool },
    /// Another connection writes, and this commit results.
    OtherWrite { oid: Seq<char> },
}

/// A ledger with one connection: the commits with whether the connection made them, what the
/// view holds, how many commits there were when the read began that is under way, and how
/// many there were when the last successful read began.
#[verifier::ext_equal]
pub struct World {
    pub log: Seq<(Seq<char>, bool)>,
    pub seen: Option<Option<Seq<char>>>,
    pub reading: Option<nat>,
    pub read: Option<nat>,
}

/// The head after the first `n` commits.
pub open spec fn head_after(log: Seq<(Seq<char>, bool)>, n: nat) -> Option<Seq<char>> {
    if n == 0 {
        None
    } else {
        Some(log[n - 1].0)
    }
}

/// The head.
pub open spec fn head_of(w: World) -> Option<Seq<char>> {
    head_after(w.log, w.log.len())
}

/// What the ledger and the view become.
pub open spec fn after(w: World, h: Happening) -> World {
    match h {
        Happening::ReadBegins => World { reading: Some(w.log.len()), ..w },
        Happening::ReadEnds { succeeded } => match w.reading {
            None => w,
            Some(n) => World {
                seen: seen_after_read(w.seen, Some(head_after(w.log, n)), succeeded),
                reading: None,
                read: if succeeded {
                    Some(n)
                } else {
                    w.read
                },
                ..w
            },
        },
        Happening::OwnWrite { oid, resampled } => World {
            log: w.log.push((oid, true)),
            seen: seen_after_write(
                w.seen,
                head_of(w),
                if resampled {
                    Some(Some(oid))
                } else {
                    None
                },
            ),
            ..w
        },
        Happening::OtherWrite { oid } => World { log: w.log.push((oid, false)), ..w },
    }
}

/// The ledger after all that happened, from one without commits.
pub open spec fn history(events: Seq<Happening>) -> World
    decreases events.len(),
{
    if events.len() == 0 {
        World { log: Seq::empty(), seen: None, reading: None, read: None }
    } else {
        after(history(events.drop_last()), events.last())
    }
}

/// Is every commit a different one?
pub open spec fn commits_distinct(log: Seq<(Seq<char>, bool)>) -> bool {
    forall|i: int, j: int| 0 <= i < j < log.len() ==> (#[trigger] log[i]).0 != (#[trigger] log[j]).0
}

/// The view stands for a point of the log up to which the connection has read or written
/// every commit itself.
spec fn view_is_grounded(w: World, p: nat) -> bool {
    p <= w.log.len() && w.seen == Some(head_after(w.log, p)) && (w.read matches Some(r) && r <= p && forall|i: int|
        r <= i < p ==> (#[trigger] w.log[i]).1)
}

proof fn lemma_history(events: Seq<Happening>)
    requires
        commits_distinct(history(events).log),
    ensures
        history(events).reading matches Some(n) ==> n <= history(events).log.len(),
        history(events).seen is Some ==> exists|p: nat| view_is_grounded(history(events), p),
    decreases events.len(),
{
    if events.len() > 0 {
        let before = history(events.drop_last());
        let now = history(events);
        let h = events.last();
        assert(commits_distinct(before.log)) by {
            assert forall|i: int, j: int| 0 <= i < j < before.log.len() implies (#[trigger] before.log[i]).0 != (
            #[trigger] before.log[j]).0 by {
                assert(now.log[i] == before.log[i] && now.log[j] == before.log[j]);
            }
        }
        lemma_history(events.drop_last());
        if now.seen is Some {
            match h {
                Happening::ReadBegins => {
                    let p = choose|p: nat| view_is_grounded(before, p);
                    assert(view_is_grounded(now, p));
                },
                Happening::ReadEnds { succeeded } => {
                    if succeeded && before.reading is Some {
                        assert(view_is_grounded(now, before.reading->0));
                    } else {
                        let p = choose|p: nat| view_is_grounded(before, p);
                        assert(view_is_grounded(now, p));
                    }
                },
                Happening::OwnWrite { oid, resampled } => {
                    let p = choose|p: nat| view_is_grounded(before, p);
                    if before.seen == Some(head_of(before)) {
                        lemma_same_head(before.log, p, before.log.len());
                        assert(p == before.log.len());
                        assert forall|i: int| before.read->0 <= i < p + 1 implies (#[trigger] now.log[i]).1 by {
                            if i < p {
                                assert(before.log[i].1);
                            }
                        }
                        assert(view_is_grounded(now, (p + 1) as nat));
                    } else {
                        assert(now.log.drop_last() =~= before.log);
                        lemma_grounded_survives(before, now, p);
                    }
                },
                Happening::OtherWrite { oid } => {
                    let p = choose|p: nat| view_is_grounded(before, p);
                    assert(now.log.drop_last() =~= before.log);
                    lemma_grounded_survives(before, now, p);
                },
            }
        }
    }
}

proof fn lemma_grounded_survives(before: World, now: World, p: nat)
    requires
        view_is_grounded(before, p),
        now.seen == before.seen,
        now.read == before.read,
        now.log.len() == before.log.len() + 1,
        now.log.drop_last() == before.log,
    ensures
        view_is_grounded(now, p),
{
    assert forall|i: int| 0 <= i < before.log.len() implies now.log[i] == before.log[i] by {
        assert(now.log.drop_last()[i] == now.log[i]);
    }
    assert forall|i: int| before.read->0 <= i < p implies (#[trigger] now.log[i]).1 by {
        assert(before.log[i].1);
    }
}

proof fn lemma_same_head(log: Seq<(Seq<char>, bool)>, a: nat, b: nat)
    requires
        commits_distinct(log),
        a <= log.len(),
        b <= log.len(),
        head_after(log, a) == head_after(log, b),
    ensures
        a == b,
{
    if a > 0 && b > 0 {
        if a < b {
            assert(log[a - 1].0 != log[b - 1].0);
        } else if b < a {
            assert(log[b - 1].0 != log[a - 1].0);
        }
    }
}

/// Decisions are fully informed. Whatever happened before, a deciding call passes only where
/// the connection has read the ledger and every commit since that read began is its own: no
/// write of another connection is ever masked, not by the connection's own writes, nor by a
/// read that was already under way.
pub proof fn law_decisions_are_fully_informed(events: Seq<Happening>)
    requires
        commits_distinct(history(events).log),
        passes(ToolClass::Decide, history(events).seen, head_of(history(events))),
    ensures
        history(events).read matches Some(r) && r <= history(events).log.len() && forall|i: int|
            r <= i < history(events).log.len() ==> (#[trigger] history(events).log[i]).1,
{
    let w = history(events);
    lemma_history(events);
    let p = choose|p: nat| view_is_grounded(w, p);
    lemma_same_head(w.log, p, w.log.len());
}

} // verus!
