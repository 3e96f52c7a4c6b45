//! What is done with a journal that a crash left uncommitted.
//!
//! A journal that was replaced but not committed is committed where it passes hledger's
//! strict check, and restored to the head where it does not, so that the head always holds a
//! valid journal.

use vstd::prelude::*;

use crate::epoch::CommitOid;
use crate::hledger::HledgerError;
use crate::text::cat3;
use crate::write::{WriteError, is_internal_error, is_refusal, write_error_text};

verus! {

/// What is to be done next.
#[derive(Debug)]
pub enum ReconcileAction {
    /// Take the lock that other processes respect too.
    Lock,
    /// Remove what [`is_candidate_temp`] accepts from the directory of the journal.
    Sweep,
    /// Open the repository, or make one, and tell whether the journal is uncommitted.
    IsDirty,
    /// Run hledger's strict check on the journal.
    Check,
    /// Commit the journal with this message.
    Commit { message: String },
    /// Restore the journal to the head.
    Restore,
}

/// What came of it.
#[derive(Debug)]
pub enum ReconcileReply {
    /// The lock was taken.
    Locked(Result<(), WriteError>),
    /// The directory was swept, as far as that was possible.
    Swept,
    /// Is the journal uncommitted?
    Dirty(Result<bool, WriteError>),
    /// The check was run.
    Checked(Result<(), HledgerError>),
    /// The commit was made.
    Committed(Result<CommitOid, WriteError>),
    /// The journal was restored.
    Restored(Result<(), WriteError>),
}

/// Where a reconciliation stands: by what is under way.
#[derive(Debug, Clone, Copy, PartialEq, Eq, Structural)]
pub enum ReconcileState {
    Locking,
    Sweeping,
    Looking,
    Checking,
    Committing,
    Restoring,
}

/// What follows: another action, or the end, with the commit where one was made.
#[derive(Debug)]
pub enum ReconcileStep {
    Run(ReconcileState, ReconcileAction),
    Done(Result<Option<CommitOid>, WriteError>),
}

/// What follows a reply.
pub open spec fn reconcile_next(s: ReconcileState, reply: ReconcileReply, r: ReconcileStep) -> bool {
    match (s, reply) {
        (ReconcileState::Locking, ReconcileReply::Locked(Ok(()))) => r == ReconcileStep::Run(
            ReconcileState::Sweeping,
            ReconcileAction::Sweep,
        ),
        (ReconcileState::Locking, ReconcileReply::Locked(Err(e))) => r == ReconcileStep::Done(Err(e)),
        (ReconcileState::Sweeping, ReconcileReply::Swept) => r == ReconcileStep::Run(
            ReconcileState::Looking,
            ReconcileAction::IsDirty,
        ),
        (ReconcileState::Looking, ReconcileReply::Dirty(Ok(true))) => r == ReconcileStep::Run(
            ReconcileState::Checking,
            ReconcileAction::Check,
        ),
        (ReconcileState::Looking, ReconcileReply::Dirty(Ok(false))) => r == ReconcileStep::Done(Ok(None)),
        (ReconcileState::Looking, ReconcileReply::Dirty(Err(e))) => r == ReconcileStep::Done(Err(e)),
        (ReconcileState::Checking, ReconcileReply::Checked(Ok(()))) => r matches ReconcileStep::Run(
            ReconcileState::Committing,
            ReconcileAction::Commit { message },
        ) && message@ == "reconcile uncommitted journal"@,
        (ReconcileState::Checking, ReconcileReply::Checked(Err(_))) => r == ReconcileStep::Run(
            ReconcileState::Restoring,
            ReconcileAction::Restore,
        ),
        (ReconcileState::Committing, ReconcileReply::Committed(Ok(oid))) => r == ReconcileStep::Done(Ok(Some(oid))),
        (ReconcileState::Committing, ReconcileReply::Committed(Err(e))) => r == ReconcileStep::Done(Err(e)),
        (ReconcileState::Restoring, ReconcileReply::Restored(Ok(()))) => r == ReconcileStep::Done(Ok(None)),
        (ReconcileState::Restoring, ReconcileReply::Restored(Err(e))) => r == ReconcileStep::Done(Err(e)),
        _ => r matches ReconcileStep::Done(Err(e)) && is_internal_error(e, "unexpected reply"@),
    }
}

/// Begins a reconciliation: there is nothing to do where no journal is configured or there
/// is no such file.
pub fn reconcile(configured: bool, exists_already: bool) -> (r: ReconcileStep)
    ensures
        if configured && exists_already {
            r == ReconcileStep::Run(ReconcileState::Locking, ReconcileAction::Lock)
        } else {
            r == ReconcileStep::Done(Ok(None))
        },
{
    if configured && exists_already {
        ReconcileStep::Run(ReconcileState::Locking, ReconcileAction::Lock)
    } else {
        ReconcileStep::Done(Ok(None))
    }
}

impl ReconcileState {
    /// What follows the reply to the last action.
    pub fn step(self, reply: ReconcileReply) -> (r: ReconcileStep)
        ensures
            reconcile_next(self, reply, r),
    {
        match (self, reply) {
            (ReconcileState::Locking, ReconcileReply::Locked(locked)) => match locked {
                Ok(()) => ReconcileStep::Run(ReconcileState::Sweeping, ReconcileAction::Sweep),
                Err(e) => ReconcileStep::Done(Err(e)),
            },
            (ReconcileState::Sweeping, ReconcileReply::Swept) => ReconcileStep::Run(
                ReconcileState::Looking,
                ReconcileAction::IsDirty,
            ),
            (ReconcileState::Looking, ReconcileReply::Dirty(dirty)) => match dirty {
                Ok(true) => ReconcileStep::Run(ReconcileState::Checking, ReconcileAction::Check),
                Ok(false) => ReconcileStep::Done(Ok(None)),
                Err(e) => ReconcileStep::Done(Err(e)),
            },
            (ReconcileState::Checking, ReconcileReply::Checked(verdict)) => match verdict {
                Ok(()) => ReconcileStep::Run(
                    ReconcileState::Committing,
                    ReconcileAction::Commit { message: "reconcile uncommitted journal".to_owned() },
                ),
                Err(_) => ReconcileStep::Run(ReconcileState::Restoring, ReconcileAction::Restore),
            },
            (ReconcileState::Committing, ReconcileReply::Committed(committed)) => match committed {
                Ok(oid) => ReconcileStep::Done(Ok(Some(oid))),
                Err(e) => ReconcileStep::Done(Err(e)),
            },
            (ReconcileState::Restoring, ReconcileReply::Restored(restored)) => match restored {
                Ok(()) => ReconcileStep::Done(Ok(None)),
                Err(e) => ReconcileStep::Done(Err(e)),
            },
            _ => ReconcileStep::Done(Err(WriteError::Internal("unexpected reply".to_owned()))),
        }
    }
}

/// The head stays valid: a journal is committed only where the check has just passed, and
/// it is restored exactly where the check has failed.
pub proof fn law_only_a_checked_journal_is_committed(s: ReconcileState, reply: ReconcileReply, r: ReconcileStep)
    requires
        reconcile_next(s, reply, r),
    ensures
        r matches ReconcileStep::Run(_, ReconcileAction::Commit { .. }) ==> (
        reply matches ReconcileReply::Checked(Ok(_))),
        (r matches ReconcileStep::Run(_, ReconcileAction::Restore)) <==> (s is Checking && (
        reply matches ReconcileReply::Checked(Err(_)))),
        (r matches ReconcileStep::Done(Ok(Some(_)))) ==> s is Committing,
{
}

/// What a reconciliation works on: the journal, and the journal as the head holds it.
pub struct Tree {
    pub journal: Seq<char>,
    pub head: Seq<char>,
}

/// Is this what an action does, by its reply? The journal is uncommitted where the head holds
/// another one.
pub open spec fn tree_after(t: Tree, action: ReconcileAction, reply: ReconcileReply, after: Tree) -> bool {
    match (action, reply) {
        (ReconcileAction::IsDirty, ReconcileReply::Dirty(dirty)) => after == t && (dirty matches Ok(d) ==> d == (
        t.journal != t.head)),
        (ReconcileAction::Commit { .. }, ReconcileReply::Committed(done)) => after == if done is Ok {
            Tree { head: t.journal, ..t }
        } else {
            t
        },
        (ReconcileAction::Restore, ReconcileReply::Restored(done)) => after == if done is Ok {
            Tree { journal: t.head, ..t }
        } else {
            t
        },
        (ReconcileAction::Lock, ReconcileReply::Locked(_)) => after == t,
        (ReconcileAction::Sweep, ReconcileReply::Swept) => after == t,
        (ReconcileAction::Check, ReconcileReply::Checked(_)) => after == t,
        _ => false,
    }
}

/// One step of a reconciliation, with what the action left of the journal and the head.
pub struct ReconcileTurn {
    pub state: ReconcileState,
    pub action: ReconcileAction,
    pub reply: ReconcileReply,
    pub step: ReconcileStep,
    pub before: Tree,
    pub after: Tree,
}

/// Is it the course of a reconciliation?
pub open spec fn reconcile_course(turns: Seq<ReconcileTurn>) -> bool {
    &&& turns.len() > 0 ==> turns[0].state is Locking && turns[0].action is Lock
    &&& forall|i: int|
        0 <= i < turns.len() ==> reconcile_next((#[trigger] turns[i]).state, turns[i].reply, turns[i].step)
            && tree_after(turns[i].before, turns[i].action, turns[i].reply, turns[i].after)
    &&& forall|i: int|
        0 < i < turns.len() ==> (turns[i - 1].step matches ReconcileStep::Run(s, a) && (#[trigger] turns[i]).state == s
            && turns[i].action == a) && turns[i].before == turns[i - 1].after
}

/// Where a reconciliation stands at turn `i`.
spec fn reconcile_stands(turns: Seq<ReconcileTurn>, i: int) -> bool {
    let turn = turns[i];
    let first = turns[0].before;
    &&& turn.before == first
    &&& match turn.state {
        ReconcileState::Locking => i == 0 && turn.action is Lock,
        ReconcileState::Sweeping => i == 1 && turn.action is Sweep,
        ReconcileState::Looking => i == 2 && turn.action is IsDirty,
        ReconcileState::Checking => i == 3 && turn.action is Check && first.journal != first.head,
        ReconcileState::Committing => i == 4 && turn.action is Commit && first.journal != first.head && (
        turns[3].reply matches ReconcileReply::Checked(Ok(_))),
        ReconcileState::Restoring => i == 4 && turn.action is Restore && first.journal != first.head && (
        turns[3].reply matches ReconcileReply::Checked(Err(_))),
    }
}

proof fn lemma_reconcile_course(turns: Seq<ReconcileTurn>, i: int)
    requires
        reconcile_course(turns),
        0 <= i < turns.len(),
    ensures
        reconcile_stands(turns, i),
    decreases i,
{
    if i > 0 {
        lemma_reconcile_course(turns, i - 1);
        let turn = turns[i - 1];
        assert(reconcile_next(turn.state, turn.reply, turn.step));
        assert(tree_after(turn.before, turn.action, turn.reply, turn.after));
        assert(turns[i].state == turn.step->Run_0);
    }
}

/// A reconciliation that ends well leaves nothing uncommitted: the journal is what the head
/// holds. A journal that was committed is left alone. One that was not is kept, and committed,
/// exactly where it passed the check, and the commit is told; else it is taken back to the head,
/// which is left alone. A reconciliation that fails changes nothing.
pub proof fn law_reconciling_leaves_a_committed_journal(turns: Seq<ReconcileTurn>)
    requires
        reconcile_course(turns),
        turns.len() > 0,
        turns.last().step is Done,
    ensures
        ({
            let first = turns[0].before;
            let after = turns.last().after;
            match turns.last().step {
                ReconcileStep::Done(Ok(made)) => {
                    &&& after.journal == after.head
                    &&& first.journal == first.head ==> made is None && after == first
                    &&& first.journal != first.head ==> turns.len() == 5 && match turns[3].reply {
                        ReconcileReply::Checked(Ok(_)) => after.journal == first.journal && (
                        turns[4].reply matches ReconcileReply::Committed(Ok(oid)) && made == Some(oid)),
                        ReconcileReply::Checked(Err(_)) => after.head == first.head && made is None,
                        _ => false,
                    }
                },
                _ => after == first,
            }
        }),
{
    let n = turns.len() - 1;
    lemma_reconcile_course(turns, n);
    assert(reconcile_next(turns[n].state, turns[n].reply, turns[n].step));
    assert(tree_after(turns[n].before, turns[n].action, turns[n].reply, turns[n].after));
}

/// A reconciliation goes on as long as nothing fails: with the lock taken, a clean journal ends
/// it, and an uncommitted one is checked, and then committed or restored.
pub proof fn law_reconciling_goes_through(turns: Seq<ReconcileTurn>)
    requires
        reconcile_course(turns),
        turns.len() > 0,
        turns.last().step is Done,
        turns.last().step matches ReconcileStep::Done(Err(_)),
    ensures
        match turns.last().reply {
            ReconcileReply::Locked(Err(_)) => true,
            ReconcileReply::Dirty(Err(_)) => true,
            ReconcileReply::Committed(Err(_)) => true,
            ReconcileReply::Restored(Err(_)) => true,
            _ => false,
        },
{
    let n = turns.len() - 1;
    lemma_reconcile_course(turns, n);
    assert(reconcile_next(turns[n].state, turns[n].reply, turns[n].step));
    assert(tree_after(turns[n].before, turns[n].action, turns[n].reply, turns[n].after));
}

// ---------------------------------------------------------------------------
// Blocked writes
// ---------------------------------------------------------------------------

/// Whether a write may go ahead where writes are blocked for `reason`: a new reconciliation
/// that succeeded lifts the block, one that failed keeps it.
pub fn unblock(reason: &str, retry: &Result<(), WriteError>) -> (r: Result<(), WriteError>)
    ensures
        match *retry {
            Ok(()) => r is Ok,
            Err(err) => r matches Err(e) && is_refusal(
                e,
                "writes blocked: "@ + reason@ + " (reconcile retry failed: "@ + write_error_text(err) + ")"@,
            ),
        },
{
    match retry {
        Ok(()) => Ok(()),
        Err(err) => {
            let mut m: String = cat3("writes blocked: ", reason, " (reconcile retry failed: ");
            m.append(&err.to_string());
            m.append(")");
            Err(WriteError::Refused(m))
        },
    }
}

} // verus!
