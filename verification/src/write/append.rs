//! One write to the journal, step by step.
//!
//! The journal is read, the addition is put behind it, the result is written to a candidate
//! file in the same directory and checked by hledger. Only a candidate that passes takes the
//! place of the journal, and is committed; where the commit fails, the journal gets back what
//! it held. Whoever runs the steps performs an [`AppendAction`] and hands back what came of
//! it.

use vstd::prelude::*;

use crate::epoch::CommitOid;
use crate::hledger::{HledgerError, hledger_error_text};
use crate::text::cat;
use crate::write::{
    WriteError, build_candidate, candidate, candidate_name, is_candidate_name, is_internal_error,
};

verus! {

/// What is to be done next.
#[derive(Debug)]
pub enum AppendAction {
    /// Read the journal.
    ReadJournal,
    /// Write the text to a file of this name in the directory of the journal.
    WriteCandidate { name: String, text: String },
    /// Run hledger's strict check on that file.
    CheckCandidate { name: String },
    /// Remove that file.
    DiscardCandidate { name: String },
    /// Rename that file to the journal, in one step.
    ReplaceJournal { name: String },
    /// Put this text back in the place of the journal, in one step.
    RestoreJournal { text: String },
    /// Commit the journal with this message.
    Commit { message: String },
}

/// What came of it.
#[derive(Debug)]
pub enum AppendReply {
    /// The journal was read.
    Journal(Result<String, WriteError>),
    /// A file was written, removed or renamed.
    File(Result<(), WriteError>),
    /// The check was run.
    Checked(Result<(), HledgerError>),
    /// The commit was made.
    Committed(Result<CommitOid, WriteError>),
}

/// Where a write stands. From the reading on it keeps the journal as it was read.
#[derive(Debug)]
pub enum AppendState {
    /// The journal is being read.
    Reading { addition: String, message: String },
    /// The candidate is being written.
    Writing { name: String, message: String, live: String },
    /// The candidate is being checked.
    Checking { name: String, message: String, live: String },
    /// The candidate cannot be used and is being removed.
    Discarding { error: WriteError },
    /// The candidate is taking the place of the journal.
    Replacing { name: String, message: String, live: String },
    /// The journal is being committed.
    Committing { live: String },
    /// The journal could not be committed and is being put back.
    Restoring { error: WriteError },
}

/// What follows: another action, or the end.
#[derive(Debug)]
pub enum AppendStep {
    Run(AppendState, AppendAction),
    Done(Result<CommitOid, WriteError>),
}

/// What hledger says against a candidate: its own words where it ran.
pub open spec fn check_detail(e: HledgerError) -> Seq<char> {
    match e {
        HledgerError::NonZero { stderr, .. } => stderr@,
        _ => hledger_error_text(e),
    }
}

/// What hledger says against a candidate.
pub fn check_failure(e: HledgerError) -> (r: String)
    ensures
        r@ == check_detail(e),
{
    match e {
        HledgerError::NonZero { stderr, .. } => stderr,
        other => other.to_string(),
    }
}

/// The message for a candidate that failed the check.
pub open spec fn rejected_journal(e: HledgerError) -> Seq<char> {
    "hledger check --strict rejected our generated journal (formatter bug):\n"@ + check_detail(e)
}

/// Does a write end by removing the candidate `name` and reporting `error`?
pub open spec fn discards(r: AppendStep, name: Seq<char>, error: WriteError) -> bool {
    r matches AppendStep::Run(AppendState::Discarding { error: e }, AppendAction::DiscardCandidate { name: n }) && n@
        == name && e == error
}

/// What follows a reply.
pub open spec fn append_next(s: AppendState, reply: AppendReply, r: AppendStep) -> bool {
    match (s, reply) {
        (AppendState::Reading { addition, message }, AppendReply::Journal(Ok(live))) => r matches AppendStep::Run(
            AppendState::Writing { name, message: m, live: l },
            AppendAction::WriteCandidate { name: n, text },
        ) && is_candidate_name(name@) && n@ == name@ && m@ == message@ && l@ == live@ && text@ == candidate(
            live@,
            addition@,
        ),
        (AppendState::Reading { .. }, AppendReply::Journal(Err(e))) => r == AppendStep::Done(Err(e)),
        (AppendState::Writing { name, message, live }, AppendReply::File(Ok(()))) => r matches AppendStep::Run(
            AppendState::Checking { name: n, message: m, live: l },
            AppendAction::CheckCandidate { name: k },
        ) && n@ == name@ && k@ == name@ && m@ == message@ && l@ == live@,
        (AppendState::Writing { name, .. }, AppendReply::File(Err(e))) => discards(r, name@, e),
        (AppendState::Checking { name, message, live }, AppendReply::Checked(Ok(()))) => r matches AppendStep::Run(
            AppendState::Replacing { name: k, message: m, live: l },
            AppendAction::ReplaceJournal { name: n },
        ) && n@ == name@ && k@ == name@ && m@ == message@ && l@ == live@,
        (AppendState::Checking { name, .. }, AppendReply::Checked(Err(e))) => r matches AppendStep::Run(
            AppendState::Discarding { error },
            AppendAction::DiscardCandidate { name: n },
        ) && n@ == name@ && is_internal_error(error, rejected_journal(e)),
        (AppendState::Discarding { error }, AppendReply::File(_)) => r == AppendStep::Done(Err(error)),
        (AppendState::Replacing { message, live, .. }, AppendReply::File(Ok(()))) => r matches AppendStep::Run(
            AppendState::Committing { live: l },
            AppendAction::Commit { message: m },
        ) && m@ == message@ && l@ == live@,
        (AppendState::Replacing { name, .. }, AppendReply::File(Err(e))) => discards(r, name@, e),
        (AppendState::Committing { .. }, AppendReply::Committed(Ok(oid))) => r == AppendStep::Done(Ok(oid)),
        (AppendState::Committing { live }, AppendReply::Committed(Err(e))) => r matches AppendStep::Run(
            AppendState::Restoring { error },
            AppendAction::RestoreJournal { text },
        ) && error == e && text@ == live@,
        (AppendState::Restoring { error }, AppendReply::File(_)) => r == AppendStep::Done(Err(error)),
        _ => r matches AppendStep::Done(Err(e)) && is_internal_error(e, "unexpected reply"@),
    }
}

impl AppendState {
    /// Begins a write: `addition` goes behind the journal, committed with `message`.
    pub fn start(addition: &str, message: &str) -> (r: (AppendState, AppendAction))
        ensures
            r.0 matches AppendState::Reading { addition: a, message: m } && a@ == addition@ && m@ == message@,
            r.1 is ReadJournal,
    {
        (
            AppendState::Reading { addition: addition.to_owned(), message: message.to_owned() },
            AppendAction::ReadJournal,
        )
    }

    /// What follows the reply to the last action.
    pub fn step(self, reply: AppendReply) -> (r: AppendStep)
        ensures
            append_next(self, reply, r),
    {
        match (self, reply) {
            (AppendState::Reading { addition, message }, AppendReply::Journal(read)) => match read {
                Ok(live) => {
                    let name: String = candidate_name();
                    let text: String = build_candidate(&live, &addition);
                    AppendStep::Run(
                        AppendState::Writing { name: name.clone(), message, live },
                        AppendAction::WriteCandidate { name, text },
                    )
                },
                Err(e) => AppendStep::Done(Err(e)),
            },
            (AppendState::Writing { name, message, live }, AppendReply::File(written)) => match written {
                Ok(()) => AppendStep::Run(
                    AppendState::Checking { name: name.clone(), message, live },
                    AppendAction::CheckCandidate { name },
                ),
                Err(error) => AppendStep::Run(
                    AppendState::Discarding { error },
                    AppendAction::DiscardCandidate { name },
                ),
            },
            (AppendState::Checking { name, message, live }, AppendReply::Checked(verdict)) => match verdict {
                Ok(()) => AppendStep::Run(
                    AppendState::Replacing { name: name.clone(), message, live },
                    AppendAction::ReplaceJournal { name },
                ),
                Err(e) => {
                    let detail: String = check_failure(e);
                    let error: WriteError = WriteError::Internal(
                        cat(
                            "hledger check --strict rejected our generated journal (formatter bug):\n",
                            &detail,
                        ),
                    );
                    AppendStep::Run(AppendState::Discarding { error }, AppendAction::DiscardCandidate { name })
                },
            },
            (AppendState::Discarding { error }, AppendReply::File(_)) => AppendStep::Done(Err(error)),
            (AppendState::Replacing { name, message, live }, AppendReply::File(renamed)) => match renamed {
                Ok(()) => AppendStep::Run(AppendState::Committing { live }, AppendAction::Commit { message }),
                Err(error) => AppendStep::Run(
                    AppendState::Discarding { error },
                    AppendAction::DiscardCandidate { name },
                ),
            },
            (AppendState::Committing { live }, AppendReply::Committed(committed)) => match committed {
                Ok(oid) => AppendStep::Done(Ok(oid)),
                Err(error) => AppendStep::Run(
                    AppendState::Restoring { error },
                    AppendAction::RestoreJournal { text: live },
                ),
            },
            (AppendState::Restoring { error }, AppendReply::File(_)) => AppendStep::Done(Err(error)),
            _ => AppendStep::Done(Err(WriteError::Internal("unexpected reply".to_owned()))),
        }
    }
}

// ---------------------------------------------------------------------------
// What the actions do
// ---------------------------------------------------------------------------

/// A commit: its identifier, its message, and the journal that it holds.
pub struct Recorded {
    pub oid: Seq<char>,
    pub message: Seq<char>,
    pub journal: Seq<char>,
}

/// What a write can touch: the journal, the files beside it by their names, and the commits,
/// the newest last.
pub struct Disk {
    pub journal: Seq<char>,
    pub files: Map<Seq<char>, Seq<char>>,
    pub commits: Seq<Recorded>,
}

/// Is everything but the file `name` as it was?
pub open spec fn same_but(d: Disk, name: Seq<char>, e: Disk) -> bool {
    d.journal == e.journal && d.commits == e.commits && d.files.remove(name) == e.files.remove(name)
}

/// Is this what an action does, by its reply? A read gives what the journal holds. An action
/// that failed changed nothing, but for a file that was only written in part.
pub open spec fn performed(d: Disk, action: AppendAction, reply: AppendReply, after: Disk) -> bool {
    match (action, reply) {
        (AppendAction::ReadJournal, AppendReply::Journal(read)) => after == d && (read matches Ok(live) ==> live@
            == d.journal),
        (AppendAction::WriteCandidate { name, text }, AppendReply::File(done)) => same_but(d, name@, after) && (
        done is Ok ==> after.files.contains_key(name@) && after.files[name@] == text@),
        (AppendAction::CheckCandidate { .. }, AppendReply::Checked(_)) => after == d,
        (AppendAction::DiscardCandidate { name }, AppendReply::File(done)) => if done is Ok {
            after == (Disk { files: d.files.remove(name@), ..d })
        } else {
            after == d
        },
        (AppendAction::ReplaceJournal { name }, AppendReply::File(done)) => if done is Ok {
            after == (Disk { journal: d.files[name@], files: d.files.remove(name@), ..d })
        } else {
            after == d
        },
        (AppendAction::RestoreJournal { text }, AppendReply::File(done)) => if done is Ok {
            after == (Disk { journal: text@, ..d })
        } else {
            after == d
        },
        (AppendAction::Commit { message }, AppendReply::Committed(done)) => match done {
            Ok(oid) => after == (Disk {
                commits: d.commits.push(Recorded { oid: oid@, message: message@, journal: d.journal }),
                ..d
            }),
            Err(_) => after == d,
        },
        _ => false,
    }
}

// ---------------------------------------------------------------------------
// Laws
// ---------------------------------------------------------------------------

/// One step of a write: the state, the action that was performed, the reply that came in,
/// what followed, and what the action left on disk.
pub struct AppendTurn {
    pub state: AppendState,
    pub action: AppendAction,
    pub reply: AppendReply,
    pub step: AppendStep,
    pub before: Disk,
    pub after: Disk,
}

/// Is it the course of a write that began with this addition and this message?
pub open spec fn append_course(turns: Seq<AppendTurn>, addition: Seq<char>, message: Seq<char>) -> bool {
    &&& turns.len() > 0 ==> (turns[0].state matches AppendState::Reading { addition: a, message: m } && a@ == addition
        && m@ == message && turns[0].action is ReadJournal)
    &&& forall|i: int|
        0 <= i < turns.len() ==> append_next((#[trigger] turns[i]).state, turns[i].reply, turns[i].step) && performed(
            turns[i].before,
            turns[i].action,
            turns[i].reply,
            turns[i].after,
        )
    &&& forall|i: int|
        0 < i < turns.len() ==> (turns[i - 1].step matches AppendStep::Run(s, a) && (#[trigger] turns[i]).state == s
            && turns[i].action == a) && turns[i].before == turns[i - 1].after
}

/// The name of the candidate of a write that got so far.
pub open spec fn candidate_of(turns: Seq<AppendTurn>) -> Seq<char> {
    match turns[1].action {
        AppendAction::WriteCandidate { name, .. } => name@,
        _ => Seq::empty(),
    }
}

/// Did the check pass?
pub open spec fn check_passed(reply: AppendReply) -> bool {
    reply matches AppendReply::Checked(Ok(_))
}

/// What is on disk where a write stands, begun with `first` on disk, with a candidate of the
/// name `own` once there is one.
spec fn append_stands(
    turn: AppendTurn,
    first: Disk,
    addition: Seq<char>,
    message: Seq<char>,
    own: Seq<char>,
) -> bool {
    let d = turn.before;
    let now = candidate(first.journal, addition);
    &&& d.commits == first.commits
    &&& d.files.remove(own) == first.files.remove(own)
    &&& match turn.state {
        AppendState::Reading { addition: a, message: m } => d == first && a@ == addition && m@ == message
            && turn.action is ReadJournal,
        AppendState::Writing { name, message: m, live } => d.journal == first.journal && live@ == first.journal && m@
            == message && name@ == own && (turn.action matches AppendAction::WriteCandidate { name: n, text } && n@
            == own && text@ == now),
        AppendState::Checking { name, message: m, live } => d.journal == first.journal && live@ == first.journal && m@
            == message && name@ == own && d.files.contains_key(own) && d.files[own] == now && (
        turn.action matches AppendAction::CheckCandidate { name: n } && n@ == own),
        AppendState::Discarding { .. } => d.journal == first.journal && (
        turn.action matches AppendAction::DiscardCandidate { name: n } && n@ == own),
        AppendState::Replacing { name, message: m, live } => d.journal == first.journal && live@ == first.journal && m@
            == message && name@ == own && d.files.contains_key(own) && d.files[own] == now && (
        turn.action matches AppendAction::ReplaceJournal { name: n } && n@ == own),
        AppendState::Committing { live } => d.journal == now && live@ == first.journal && d.files == first.files.remove(
            own,
        ) && (turn.action matches AppendAction::Commit { message: m } && m@ == message),
        AppendState::Restoring { .. } => d.files == first.files.remove(own) && (
        turn.action matches AppendAction::RestoreJournal { text } && text@ == first.journal),
    }
}

/// One step keeps it.
proof fn lemma_append_step(
    turn: AppendTurn,
    next: AppendTurn,
    first: Disk,
    addition: Seq<char>,
    message: Seq<char>,
    own: Seq<char>,
)
    requires
        append_stands(turn, first, addition, message, own),
        append_next(turn.state, turn.reply, turn.step),
        performed(turn.before, turn.action, turn.reply, turn.after),
        turn.step matches AppendStep::Run(s, a) && next.state == s && next.action == a,
        next.before == turn.after,
        next.action matches AppendAction::WriteCandidate { name, .. } ==> name@ == own,
    ensures
        append_stands(next, first, addition, message, own),
        next.state is Replacing ==> check_passed(turn.reply),
{
    let d = turn.before;
    assert(d.files.remove(own).remove(own) =~= d.files.remove(own));
    match turn.state {
        AppendState::Reading { .. } => {},
        AppendState::Writing { .. } => {},
        AppendState::Checking { .. } => {},
        AppendState::Discarding { .. } => {},
        AppendState::Replacing { .. } => {
            assert(first.files.remove(own).remove(own) =~= first.files.remove(own));
        },
        AppendState::Committing { .. } => {},
        AppendState::Restoring { .. } => {},
    }
}

proof fn lemma_append_course(turns: Seq<AppendTurn>, addition: Seq<char>, message: Seq<char>, i: int)
    requires
        append_course(turns, addition, message),
        0 <= i < turns.len(),
    ensures
        append_stands(turns[i], turns[0].before, addition, message, candidate_of(turns)),
        turns[i].state is Replacing ==> i > 0 && check_passed(turns[i - 1].reply),
        (turns[i].state is Reading) == (i == 0),
        (turns[i].state is Writing) == (i == 1),
    decreases i,
{
    assert(append_next(turns[0].state, turns[0].reply, turns[0].step));
    if i > 0 {
        lemma_append_course(turns, addition, message, i - 1);
        assert(append_next(turns[i - 1].state, turns[i - 1].reply, turns[i - 1].step));
        assert(turns[i].before == turns[i - 1].after);
        assert(turns[i].state == turns[i - 1].step->Run_0);
        lemma_append_step(turns[i - 1], turns[i], turns[0].before, addition, message, candidate_of(turns));
    }
}

/// A write fails closed. In every course of a write, the journal is replaced only by a
/// candidate that hledger's strict check has just passed and that holds the journal as it was
/// with the addition behind it. A course that ends well has replaced the journal by that and
/// made one commit, which holds this journal and has the message and the identifier that is
/// reported; no candidate is left. A course that ends in an error has committed nothing, the
/// journal holds what it held, unless putting it back failed too, and no candidate is left,
/// unless it could not be removed.
pub proof fn law_write_fails_closed(turns: Seq<AppendTurn>, addition: Seq<char>, message: Seq<char>, i: int)
    requires
        append_course(turns, addition, message),
        0 <= i < turns.len(),
    ensures
        turns[i].action matches AppendAction::ReplaceJournal { name } ==> i > 0 && check_passed(turns[i - 1].reply)
            && turns[i].before.files[name@] == candidate(turns[0].before.journal, addition),
        turns[i].step matches AppendStep::Done(Ok(oid)) ==> ({
            let first = turns[0].before;
            let now = candidate(first.journal, addition);
            &&& turns[i].after.journal == now
            &&& turns[i].after.commits == first.commits.push(Recorded { oid: oid@, message, journal: now })
            &&& turns[i].after.files == first.files.remove(candidate_of(turns))
        }),
        turns[i].step matches AppendStep::Done(Err(_)) ==> ({
            let first = turns[0].before;
            &&& turns[i].after.commits == first.commits
            &&& turns[i].after.journal == first.journal || (turns[i].action is RestoreJournal && (
            turns[i].reply matches AppendReply::File(Err(_))))
            &&& if i == 0 {
                turns[i].after == first
            } else {
                turns[i].after.files == first.files.remove(candidate_of(turns)) || (
                turns[i].action is DiscardCandidate && (turns[i].reply matches AppendReply::File(Err(_)))
                    && turns[i].after.files.remove(candidate_of(turns)) == first.files.remove(candidate_of(turns)))
            }
        }),
{
    lemma_append_course(turns, addition, message, i);
    assert(append_next(turns[i].state, turns[i].reply, turns[i].step));
    match turns[i].state {
        AppendState::Reading { .. } => {},
        AppendState::Writing { .. } => {},
        AppendState::Checking { .. } => {},
        AppendState::Discarding { .. } => {},
        AppendState::Replacing { .. } => {},
        AppendState::Committing { .. } => {},
        AppendState::Restoring { .. } => {},
    }
}

/// A candidate that fails the check is removed, and the write ends in an internal error with
/// hledger's words.
pub proof fn law_rejected_candidate_is_removed(
    turns: Seq<AppendTurn>,
    addition: Seq<char>,
    message: Seq<char>,
    e: HledgerError,
    i: int,
)
    requires
        append_course(turns, addition, message),
        0 <= i < turns.len() - 1,
        turns[i].reply == AppendReply::Checked(Err(e)),
    ensures
        turns[i].action matches AppendAction::CheckCandidate { name } && (
        turns[i + 1].action matches AppendAction::DiscardCandidate { name: n } && n@ == name@ && (
        turns[i + 1].reply == AppendReply::File(Ok(())) ==> !turns[i + 1].after.files.contains_key(name@))),
        turns[i + 1].step matches AppendStep::Done(Err(error)) && is_internal_error(error, rejected_journal(e)),
{
    lemma_append_course(turns, addition, message, i);
    assert(append_next(turns[i].state, turns[i].reply, turns[i].step));
    assert(turns[i + 1].state == turns[i].step->Run_0);
    assert(append_next(turns[i + 1].state, turns[i + 1].reply, turns[i + 1].step));
}

/// A write goes on as long as nothing fails: from the reading to the candidate, from there to the
/// check, to the replacement, to the commit, and to the end; it leaves this way only for a reply
/// that reports a failure.
pub proof fn law_writes_fail_only_for_a_reason(s: AppendState, reply: AppendReply, r: AppendStep)
    requires
        append_next(s, reply, r),
    ensures
        s is Reading && (reply matches AppendReply::Journal(Ok(_))) ==> (r matches AppendStep::Run(
            _,
            AppendAction::WriteCandidate { .. },
        )),
        s is Writing && (reply matches AppendReply::File(Ok(_))) ==> (r matches AppendStep::Run(
            _,
            AppendAction::CheckCandidate { .. },
        )),
        s is Checking && (reply matches AppendReply::Checked(Ok(_))) ==> (r matches AppendStep::Run(
            _,
            AppendAction::ReplaceJournal { .. },
        )),
        s is Replacing && (reply matches AppendReply::File(Ok(_))) ==> (r matches AppendStep::Run(
            _,
            AppendAction::Commit { .. },
        )),
        s is Committing && (reply matches AppendReply::Committed(Ok(_))) ==> (r matches AppendStep::Done(Ok(oid))
            && reply == AppendReply::Committed(Ok(oid))),
{
}

/// What hledger says against a candidate is told in its own words, and as a fault of this server.
pub proof fn law_rejections_are_told_in_full(e: HledgerError)
    ensures
        rejected_journal(e) == "hledger check --strict rejected our generated journal (formatter bug):\n"@ + match e {
            HledgerError::NonZero { stderr, .. } => stderr@,
            _ => hledger_error_text(e),
        },
{
}

} // verus!
