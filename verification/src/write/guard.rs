//! The way to a write, step by step.
//!
//! Every write goes the same way: a journal has to be configured and hledger has to be the
//! version that writes are made for; then both write locks are taken, the head is read under
//! them, and a decision is checked against it; then the operation is performed, and the
//! connection's view moves along where it was current, still under the locks. The check
//! cannot be overtaken by another write, since nothing is written without the locks.

use vstd::prelude::*;

use crate::epoch::{Epoch, ToolClass, passes, seen_view};
use crate::hledger::{HledgerError, Version, hledger_error_text};
use crate::write::{
    WriteError, gate, is_internal_error, is_refusal, journal_dir, repo_dir, version_refusal,
};
use crate::write::view::{ConnectionView, WriteContext, seen_after_write};

verus! {

/// What is to be done next.
#[derive(Debug)]
pub enum GuardAction {
    /// Ask hledger for its version.
    Version,
    /// Make the journal where there is none.
    EnsureJournal { journal: String },
    /// Take the lock that the tasks of this process respect.
    LockProcess,
    /// Take the lock in this directory that other processes respect too.
    LockFile { dir: String },
    /// Read the head.
    Sample { journal: String },
    /// Perform the operation, with [`GuardState::context`].
    Perform,
    /// Read the head again.
    Resample { journal: String },
}

/// What came of it.
#[derive(Debug)]
pub enum GuardReply {
    /// The version was asked for.
    Version(Result<Version, HledgerError>),
    /// The journal is there.
    Ensured(Result<(), WriteError>),
    /// A lock was taken.
    Locked(Result<(), WriteError>),
    /// The head was read.
    Head(Result<Epoch, WriteError>),
    /// The operation was performed.
    Performed(Result<(), WriteError>),
}

/// Where the way to a write stands.
#[derive(Debug)]
pub enum GuardState {
    /// The version is being asked for.
    Versioning { class: ToolClass, journal: String },
    /// The journal is being made.
    Ensuring { class: ToolClass, journal: String },
    /// The lock of the process is being taken.
    LockingProcess { class: ToolClass, journal: String },
    /// The lock of the directory is being taken.
    LockingFile { class: ToolClass, journal: String },
    /// The head is being read.
    Sampling { class: ToolClass, journal: String },
    /// The operation is being performed.
    Performing { ctx: WriteContext },
    /// The head is being read again.
    Resampling { ctx: WriteContext },
}

/// What follows: another action, or the end.
#[derive(Debug)]
pub enum GuardStep {
    Run(GuardState, GuardAction),
    Done(Result<(), WriteError>),
}

/// Does the way end with this error?
pub open spec fn guard_fails(r: GuardStep, e: WriteError) -> bool {
    r == GuardStep::Done(Err(e))
}

/// What follows a reply, for a connection that has seen `seen`.
pub open spec fn guard_next(
    s: GuardState,
    seen: Option<Option<Seq<char>>>,
    reply: GuardReply,
    r: GuardStep,
    seen_after: Option<Option<Seq<char>>>,
) -> bool {
    match (s, reply) {
        (GuardState::Versioning { class, journal }, GuardReply::Version(detected)) => seen_after == seen
            && match detected {
            Ok(v) => if v.major == 1 && v.minor == 52 {
                r matches GuardStep::Run(
                    GuardState::Ensuring { class: c, journal: j },
                    GuardAction::EnsureJournal { journal: path },
                ) && c == class && j@ == journal@ && path@ == journal@
            } else {
                r matches GuardStep::Done(Err(e)) && is_refusal(e, version_refusal(v.major, v.minor))
            },
            Err(err) => r matches GuardStep::Done(Err(e)) && is_refusal(
                e,
                "hledger unavailable: "@ + hledger_error_text(err),
            ),
        },
        (GuardState::Ensuring { class, journal }, GuardReply::Ensured(made)) => seen_after == seen && match made {
            Ok(()) => r matches GuardStep::Run(
                GuardState::LockingProcess { class: c, journal: j },
                GuardAction::LockProcess,
            ) && c == class && j == journal,
            Err(e) => guard_fails(r, e),
        },
        (GuardState::LockingProcess { class, journal }, GuardReply::Locked(locked)) => seen_after == seen
            && match locked {
            Ok(()) => r matches GuardStep::Run(
                GuardState::LockingFile { class: c, journal: j },
                GuardAction::LockFile { dir },
            ) && c == class && j == journal && dir@ == journal_dir(journal@),
            Err(e) => guard_fails(r, e),
        },
        (GuardState::LockingFile { class, journal }, GuardReply::Locked(locked)) => seen_after == seen
            && match locked {
            Ok(()) => r matches GuardStep::Run(
                GuardState::Sampling { class: c, journal: j },
                GuardAction::Sample { journal: path },
            ) && c == class && j@ == journal@ && path@ == journal@,
            Err(e) => guard_fails(r, e),
        },
        (GuardState::Sampling { class, journal }, GuardReply::Head(sampled)) => seen_after == seen && match sampled {
            Ok(head) => if passes(class, seen, head@) {
                r matches GuardStep::Run(GuardState::Performing { ctx }, GuardAction::Perform) && ctx.class_view() == class
                    && ctx.journal_view() == journal@ && ctx.head_view() == head@
            } else {
                r matches GuardStep::Done(Err(WriteError::StaleEpoch(stale))) && seen_view(stale.seen) == seen
                    && stale.head@ == head@
            },
            Err(e) => guard_fails(r, e),
        },
        (GuardState::Performing { ctx }, GuardReply::Performed(outcome)) => seen_after == seen && match outcome {
            Ok(()) => r matches GuardStep::Run(
                GuardState::Resampling { ctx: c },
                GuardAction::Resample { journal },
            ) && c == ctx && journal@ == ctx.journal_view(),
            Err(e) => guard_fails(r, e),
        },
        (GuardState::Resampling { ctx }, GuardReply::Head(sampled)) => r == GuardStep::Done(Ok(())) && seen_after
            == seen_after_write(
            seen,
            ctx.head_view(),
            match sampled {
                Ok(now) => Some(now@),
                Err(_) => None,
            },
        ),
        _ => seen_after == seen && (r matches GuardStep::Done(Err(e)) && is_internal_error(e, "unexpected reply"@)),
    }
}

/// Begins the way to a write.
pub fn guarded(class: ToolClass, journal: Option<&str>) -> (r: GuardStep)
    ensures
        match journal {
            Some(journal) => r matches GuardStep::Run(
                GuardState::Versioning { class: c, journal: j },
                GuardAction::Version,
            ) && c == class && j@ == journal@,
            None => r matches GuardStep::Done(Err(e)) && is_refusal(e, "no journal configured"@),
        },
{
    match journal {
        Some(journal) => GuardStep::Run(
            GuardState::Versioning { class, journal: journal.to_owned() },
            GuardAction::Version,
        ),
        None => GuardStep::Done(Err(WriteError::Refused("no journal configured".to_owned()))),
    }
}

impl GuardState {
    /// The write that is to be performed, where it has come to that.
    pub fn context(&self) -> (r: Option<&WriteContext>)
        ensures
            match r {
                Some(ctx) => self matches GuardState::Performing { ctx: c } && *ctx == c,
                None => !(self is Performing),
            },
    {
        match self {
            GuardState::Performing { ctx } => Some(ctx),
            _ => None,
        }
    }

    /// What follows the reply to the last action. The view is that of the connection that
    /// writes.
    pub fn step(self, view: &mut ConnectionView, reply: GuardReply) -> (r: GuardStep)
        ensures
            guard_next(self, old(view)@, reply, r, final(view)@),
    {
        match (self, reply) {
            (GuardState::Versioning { class, journal }, GuardReply::Version(detected)) => match gate(
                Some(journal.as_str()),
                &detected,
            ) {
                Ok(path) => GuardStep::Run(
                    GuardState::Ensuring { class, journal },
                    GuardAction::EnsureJournal { journal: path },
                ),
                Err(e) => GuardStep::Done(Err(e)),
            },
            (GuardState::Ensuring { class, journal }, GuardReply::Ensured(made)) => match made {
                Ok(()) => GuardStep::Run(GuardState::LockingProcess { class, journal }, GuardAction::LockProcess),
                Err(e) => GuardStep::Done(Err(e)),
            },
            (GuardState::LockingProcess { class, journal }, GuardReply::Locked(locked)) => match locked {
                Ok(()) => {
                    let dir: String = repo_dir(&journal);
                    GuardStep::Run(GuardState::LockingFile { class, journal }, GuardAction::LockFile { dir })
                },
                Err(e) => GuardStep::Done(Err(e)),
            },
            (GuardState::LockingFile { class, journal }, GuardReply::Locked(locked)) => match locked {
                Ok(()) => GuardStep::Run(
                    GuardState::Sampling { class, journal: journal.clone() },
                    GuardAction::Sample { journal },
                ),
                Err(e) => GuardStep::Done(Err(e)),
            },
            (GuardState::Sampling { class, journal }, GuardReply::Head(sampled)) => match sampled {
                Ok(head) => match view.begin_write(class, &journal, head) {
                    Ok(ctx) => GuardStep::Run(GuardState::Performing { ctx }, GuardAction::Perform),
                    Err(e) => GuardStep::Done(Err(e)),
                },
                Err(e) => GuardStep::Done(Err(e)),
            },
            (GuardState::Performing { ctx }, GuardReply::Performed(outcome)) => match outcome {
                Ok(()) => {
                    let journal: String = ctx.journal().to_owned();
                    GuardStep::Run(GuardState::Resampling { ctx }, GuardAction::Resample { journal })
                },
                Err(e) => GuardStep::Done(Err(e)),
            },
            (GuardState::Resampling { ctx }, GuardReply::Head(sampled)) => {
                let now: Option<Epoch> = match sampled {
                    Ok(now) => Some(now),
                    Err(_) => None,
                };
                view.finish_write(ctx, now);
                GuardStep::Done(Ok(()))
            },
            _ => GuardStep::Done(Err(WriteError::Internal("unexpected reply".to_owned()))),
        }
    }
}

// ---------------------------------------------------------------------------
// Laws
// ---------------------------------------------------------------------------

/// One step of the way to a write: the state, what the connection had seen, the reply that
/// came in, what followed, and what the connection has seen after it.
pub struct GuardTurn {
    pub state: GuardState,
    pub seen: Option<Option<Seq<char>>>,
    pub reply: GuardReply,
    pub step: GuardStep,
    pub seen_after: Option<Option<Seq<char>>>,
}

/// Is it the course of a call of this class? What the connection has seen may change between
/// two steps, by its reads.
pub open spec fn guard_course(turns: Seq<GuardTurn>, class: ToolClass) -> bool {
    &&& turns.len() > 0 ==> (turns[0].state matches GuardState::Versioning { class: c, .. } && c == class)
    &&& forall|i: int|
        0 <= i < turns.len() ==> guard_next(
            (#[trigger] turns[i]).state,
            turns[i].seen,
            turns[i].reply,
            turns[i].step,
            turns[i].seen_after,
        )
    &&& forall|i: int|
        0 < i < turns.len() ==> (turns[i - 1].step matches GuardStep::Run(s, _) && (#[trigger] turns[i]).state == s)
}

/// Was a lock taken in this turn?
pub open spec fn took_lock(turn: GuardTurn) -> bool {
    turn.reply matches GuardReply::Locked(Ok(_))
}

/// The class of the call, as the states before the operation keep it.
spec fn class_kept(s: GuardState, class: ToolClass) -> bool {
    match s {
        GuardState::Versioning { class: c, .. } => c == class,
        GuardState::Ensuring { class: c, .. } => c == class,
        GuardState::LockingProcess { class: c, .. } => c == class,
        GuardState::LockingFile { class: c, .. } => c == class,
        GuardState::Sampling { class: c, .. } => c == class,
        _ => true,
    }
}

/// What led to a state.
proof fn lemma_guard_origin(turn: GuardTurn, class: ToolClass)
    requires
        guard_next(turn.state, turn.seen, turn.reply, turn.step, turn.seen_after),
        turn.step is Run,
        class_kept(turn.state, class),
    ensures
        class_kept(turn.step->Run_0, class),
        turn.step->Run_0 is LockingFile ==> turn.state is LockingProcess && took_lock(turn),
        turn.step->Run_0 is Sampling ==> turn.state is LockingFile && took_lock(turn),
        turn.step->Run_1 is Perform ==> turn.state is Sampling,
{
}

proof fn lemma_guard_course(turns: Seq<GuardTurn>, class: ToolClass, i: int)
    requires
        guard_course(turns, class),
        0 <= i < turns.len(),
    ensures
        class_kept(turns[i].state, class),
        turns[i].state is LockingFile ==> i > 0 && turns[i - 1].state is LockingProcess && took_lock(turns[i - 1]),
        turns[i].state is Sampling ==> i > 1 && turns[i - 1].state is LockingFile && took_lock(turns[i - 1])
            && turns[i - 2].state is LockingProcess && took_lock(turns[i - 2]),
    decreases i,
{
    if i > 0 {
        lemma_guard_course(turns, class, i - 1);
        let prev = turns[i - 1];
        assert(guard_next(prev.state, prev.seen, prev.reply, prev.step, prev.seen_after));
        assert(turns[i].state == prev.step->Run_0);
        lemma_guard_origin(prev, class);
    }
}

/// Nothing is written without the locks and the check. In every course of a call, the
/// operation is performed only after both locks were taken, one step after the other, and the
/// head was read right after that; and a deciding call is performed only where that head is
/// what the connection had seen.
pub proof fn law_writes_are_locked_and_checked(turns: Seq<GuardTurn>, class: ToolClass, i: int)
    requires
        guard_course(turns, class),
        0 <= i < turns.len(),
        turns[i].step matches GuardStep::Run(_, GuardAction::Perform),
    ensures
        i >= 2,
        turns[i - 2].state is LockingProcess && took_lock(turns[i - 2]),
        turns[i - 1].state is LockingFile && took_lock(turns[i - 1]),
        turns[i].reply matches GuardReply::Head(Ok(head)) && passes(class, turns[i].seen, head@) && (
        turns[i].step matches GuardStep::Run(GuardState::Performing { ctx }, _) && ctx.class_view() == class
            && ctx.head_view() == head@),
{
    lemma_guard_course(turns, class, i);
    assert(guard_next(turns[i].state, turns[i].seen, turns[i].reply, turns[i].step, turns[i].seen_after));
    lemma_guard_origin(turns[i], class);
}

/// A write on top of what was seen keeps the connection current: where a deciding call was
/// performed and the new head could be read, that head is what the connection has seen, unless
/// it read something else meanwhile.
pub proof fn law_decisions_stay_current(
    ctx: WriteContext,
    seen: Option<Option<Seq<char>>>,
    now: Epoch,
    r: GuardStep,
    seen_after: Option<Option<Seq<char>>>,
)
    requires
        guard_next(GuardState::Resampling { ctx }, seen, GuardReply::Head(Ok(now)), r, seen_after),
        seen == Some(ctx.head_view()),
    ensures
        seen_after == Some(now@),
        passes(ToolClass::Decide, seen_after, now@),
{
}

/// What a connection has seen changes only where an operation was performed: a call that is
/// refused, or whose operation fails, leaves the view as it is.
pub proof fn law_failed_writes_leave_the_view(
    s: GuardState,
    seen: Option<Option<Seq<char>>>,
    reply: GuardReply,
    r: GuardStep,
    seen_after: Option<Option<Seq<char>>>,
)
    requires
        guard_next(s, seen, reply, r, seen_after),
        !(s is Resampling),
    ensures
        seen_after == seen,
{
}

/// Is it the reply of a step that went well?
pub open spec fn went_well(reply: GuardReply) -> bool {
    match reply {
        GuardReply::Version(v) => v is Ok,
        GuardReply::Ensured(r) => r is Ok,
        GuardReply::Locked(r) => r is Ok,
        GuardReply::Head(r) => r is Ok,
        GuardReply::Performed(r) => r is Ok,
    }
}

/// Does the reply fit the state?
pub open spec fn fits(s: GuardState, reply: GuardReply) -> bool {
    match s {
        GuardState::Versioning { .. } => reply is Version,
        GuardState::Ensuring { .. } => reply is Ensured,
        GuardState::LockingProcess { .. } => reply is Locked,
        GuardState::LockingFile { .. } => reply is Locked,
        GuardState::Sampling { .. } => reply is Head,
        GuardState::Performing { .. } => reply is Performed,
        GuardState::Resampling { .. } => reply is Head,
    }
}

/// A call is refused only for a reason. Where every step goes well, it ends in an error only
/// where hledger is another version than the one that writes are made for, or where a deciding
/// call has not seen the head; a recording call never ends for the latter. And a call that ends
/// well has performed its operation.
pub proof fn law_calls_are_refused_only_for_a_reason(turns: Seq<GuardTurn>, class: ToolClass)
    requires
        guard_course(turns, class),
        turns.len() > 0,
        turns.last().step is Done,
        forall|i: int|
            0 <= i < turns.len() ==> went_well((#[trigger] turns[i]).reply) && fits(turns[i].state, turns[i].reply),
    ensures
        turns.last().step matches GuardStep::Done(Err(e)) ==> ({
            ||| turns.last().reply matches GuardReply::Version(Ok(v)) && !(v.major == 1 && v.minor == 52)
            ||| class == ToolClass::Decide && (turns.last().reply matches GuardReply::Head(Ok(head)) && turns.last().seen
                != Some(head@)) && e is StaleEpoch
        }),
        turns.last().step matches GuardStep::Done(Ok(_)) ==> turns.len() >= 2 && (
        turns[turns.len() - 2].reply matches GuardReply::Performed(Ok(_))),
        turns[0].reply matches GuardReply::Version(Ok(v)) ==> (turns[0].step is Run <==> v.major == 1 && v.minor == 52),
{
    let n = turns.len() - 1;
    let last = turns[n];
    lemma_guard_course(turns, class, n);
    assert(went_well(last.reply) && fits(last.state, last.reply));
    assert(guard_next(last.state, last.seen, last.reply, last.step, last.seen_after));
    assert(went_well(turns[0].reply) && fits(turns[0].state, turns[0].reply));
    assert(guard_next(turns[0].state, turns[0].seen, turns[0].reply, turns[0].step, turns[0].seen_after));
    if n > 0 {
        let prev = turns[n - 1];
        assert(went_well(prev.reply) && fits(prev.state, prev.reply));
        assert(guard_next(prev.state, prev.seen, prev.reply, prev.step, prev.seen_after));
        assert(last.state == prev.step->Run_0);
    }
}

/// The journal that a state is about.
spec fn journal_of(s: GuardState) -> Seq<char> {
    match s {
        GuardState::Versioning { journal, .. } => journal@,
        GuardState::Ensuring { journal, .. } => journal@,
        GuardState::LockingProcess { journal, .. } => journal@,
        GuardState::LockingFile { journal, .. } => journal@,
        GuardState::Sampling { journal, .. } => journal@,
        GuardState::Performing { ctx } => ctx.journal_view(),
        GuardState::Resampling { ctx } => ctx.journal_view(),
    }
}

/// Is it the journal that the course of a call began with?
pub closed spec fn is_about(s: GuardState, journal: Seq<char>) -> bool {
    journal_of(s) == journal
}

/// A call is about one journal, from the first step to the last: it is the one whose directory is
/// locked, whose head is read, and that the operation is performed on.
pub proof fn law_a_call_is_about_one_journal(
    s: GuardState,
    seen: Option<Option<Seq<char>>>,
    reply: GuardReply,
    r: GuardStep,
    seen_after: Option<Option<Seq<char>>>,
    journal: Seq<char>,
)
    requires
        guard_next(s, seen, reply, r, seen_after),
        is_about(s, journal),
    ensures
        r matches GuardStep::Run(next, a) ==> is_about(next, journal) && match a {
            GuardAction::EnsureJournal { journal: path } => path@ == journal,
            GuardAction::LockFile { dir } => dir@ == journal_dir(journal),
            GuardAction::Sample { journal: path } => path@ == journal,
            GuardAction::Resample { journal: path } => path@ == journal,
            GuardAction::Perform => next matches GuardState::Performing { ctx } && ctx.journal_view() == journal,
            _ => true,
        },
{
}

} // verus!
