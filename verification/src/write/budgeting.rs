//! Setting a budget goal, step by step.
//!
//! The new budget file is checked together with the journal before either is touched. Then the
//! budget file is put in place, and the journal where it has to name the budget file, and both
//! are committed. Where one of these steps fails, what was put in place before is undone, and
//! both files hold what they held.

use vstd::prelude::*;

use crate::hledger::{
    hledger_error_text, law_names_are_single_lines, lemma_trim_end_within, lemma_trim_start,
    trimmed_nonempty,
};
use crate::hledger::amount::{Quantity, quantity_text};
use crate::text::{
    cat, cat3, find, is_line, is_white, lemma_find, lemma_find_unique, lines, listed, same,
    split_lines, starts_with, strip_return, texts, trim, trim_start, trimmed,
};
use crate::write::{
    CommitOutcome, WriteError, build_candidate, candidate, is_commodity_symbol, is_internal_error,
    law_candidate_is_append_only,
};
use crate::write::append::{check_detail, check_failure};
use crate::write::budget::{
    BudgetPeriod, BudgetRule, BudgetRuleView, budget_file, is_storable, law_budget_file_round_trip,
    lemma_rule_index, malformed_message, period_word, read_budget_rules, render_budget_file,
    rule_index, rules_in, rules_view, upsert_rule, upserted,
};
use crate::write::input::option_view;
use crate::write::plan::{Action, Reply, Step, ends_input, ends_internal, internal, misplaced};
use crate::write::view::{WriteContext, after};

verus! {

/// What is to be put in place, and what it takes the place of.
#[derive(Debug)]
pub struct Staged {
    /// The goal that is set.
    pub rule: BudgetRule,
    /// The new budget file.
    pub budget: String,
    /// The new journal, where the line that names the budget file has to be added.
    pub journal: Option<String>,
    /// The journal as it was read.
    pub live: String,
    /// The budget file as it was read, where there was one.
    pub file: Option<String>,
}

/// Where setting a budget goal stands.
#[derive(Debug)]
pub enum BudgetState {
    /// The declared accounts are being read.
    Accounts { rule: BudgetRule },
    /// The declared commodities are being read.
    Commodities { rule: BudgetRule, accounts: Vec<String> },
    /// The journal and the budget file are being read.
    Reading { rule: BudgetRule },
    /// The new budget file is being checked with the journal.
    Checking { staged: Staged },
    /// The budget file is being put in place.
    PuttingBudget { staged: Staged },
    /// The journal is being put in place.
    PuttingJournal { staged: Staged },
    /// The files are being committed.
    Committing { staged: Staged },
    /// Something failed, and the journal is being put back.
    RestoringJournal { error: WriteError, file: Option<String> },
    /// Something failed, and the budget file is being put back.
    RestoringBudget { error: WriteError },
}

/// Does the journal name the budget file already?
pub open spec fn names_budget(journal: Seq<char>) -> bool {
    exists|i: int| 0 <= i < lines(journal).len() && trim(#[trigger] lines(journal)[i]) == "include budget.journal"@
}

/// The rules in the budget file, none where there is no such file.
pub open spec fn rules_of(file: Option<Seq<char>>) -> Result<Seq<BudgetRuleView>, Seq<char>> {
    match file {
        Some(text) => rules_in(lines(text)),
        None => Ok(Seq::empty()),
    }
}

/// The journal with the line that names the budget file, where it lacks it.
pub open spec fn journal_with_budget(journal: Seq<char>) -> Option<Seq<char>> {
    if names_budget(journal) {
        None
    } else {
        Some(candidate(journal, "include budget.journal\n"@))
    }
}

/// The commit message for a goal.
pub open spec fn budget_message(rule: BudgetRuleView) -> Seq<char> {
    "budget: set "@ + rule.account + " "@ + period_word(rule.period) + " = "@ + quantity_text(rule.quantity) + " "@
        + rule.commodity
}

/// Is this what setting the goal makes of the journal and the budget file?
pub open spec fn is_staged(s: Staged, rule: BudgetRuleView, live: Seq<char>, file: Option<Seq<char>>) -> bool {
    &&& s.rule@ == rule
    &&& s.live@ == live
    &&& option_view(s.file) == file
    &&& option_view(s.journal) == journal_with_budget(live)
    &&& (rules_of(file) matches Ok(rules) && s.budget@ == budget_file(upserted(rules, rule)))
}

/// The journal beside which the new budget file stands: the new one, or the one that was read.
pub open spec fn staged_journal(s: Staged) -> Seq<char> {
    match s.journal {
        Some(main) => main@,
        None => s.live@,
    }
}

/// Are the files being committed?
pub open spec fn commits_budget(s: Staged, r: Step<BudgetState, CommitOutcome>) -> bool {
    r matches Step::Run(BudgetState::Committing { staged }, Action::CommitBudget { message }) && staged == s && message@
        == budget_message(s.rule@)
}

/// Is the budget file being put back, to end in this error?
pub open spec fn restores_budget(
    error: WriteError,
    file: Option<String>,
    r: Step<BudgetState, CommitOutcome>,
) -> bool {
    r matches Step::Run(BudgetState::RestoringBudget { error: e }, Action::PutBudget { text }) && e == error && text
        == file
}

/// What follows a reply.
pub open spec fn budget_next(s: BudgetState, reply: Reply, r: Step<BudgetState, CommitOutcome>) -> bool {
    match (s, reply) {
        (BudgetState::Accounts { rule }, Reply::Names(Ok(names))) => r matches Step::Run(
            BudgetState::Commodities { rule: next, accounts },
            Action::DeclaredCommodities,
        ) && next == rule && accounts == names,
        (BudgetState::Accounts { .. }, Reply::Names(Err(e))) => ends_internal(
            r,
            "read declared accounts: "@ + hledger_error_text(e),
        ),
        (BudgetState::Commodities { rule, accounts }, Reply::Names(Ok(names))) => if !texts(accounts@).contains(
            rule.account@,
        ) {
            ends_input(r, "account not declared: '"@ + rule.account@ + "' — declare it first with declare_account"@)
        } else if !texts(names@).contains(rule.commodity@) {
            ends_input(
                r,
                "commodity not declared: '"@ + rule.commodity@ + "' — declare it first with declare_commodity"@,
            )
        } else {
            r matches Step::Run(BudgetState::Reading { rule: next }, Action::ReadBudget) && next == rule
        },
        (BudgetState::Commodities { .. }, Reply::Names(Err(e))) => ends_internal(
            r,
            "read declared commodities: "@ + hledger_error_text(e),
        ),
        (BudgetState::Reading { rule }, Reply::Budgets(Ok((live, file)))) => match rules_of(option_view(file)) {
            Err(line) => ends_internal(r, malformed_message(line)),
            Ok(_) => r matches Step::Run(
                BudgetState::Checking { staged },
                Action::CheckBudget { journal, budget },
            ) && is_staged(staged, rule@, live@, option_view(file)) && budget@ == staged.budget@ && journal@
                == staged_journal(staged),
        },
        (BudgetState::Reading { .. }, Reply::Budgets(Err(e))) => r == Step::<BudgetState, CommitOutcome>::Done(Err(e)),
        (BudgetState::Checking { staged }, Reply::Checked(Ok(()))) => r matches Step::Run(
            BudgetState::PuttingBudget { staged: next },
            Action::PutBudget { text: Some(text) },
        ) && next == staged && text@ == staged.budget@,
        (BudgetState::Checking { .. }, Reply::Checked(Err(e))) => ends_internal(
            r,
            "hledger check --strict rejected our generated budget file (formatter bug):\n"@ + check_detail(e),
        ),
        (BudgetState::Checking { .. }, Reply::NotStaged(e)) => r == Step::<BudgetState, CommitOutcome>::Done(Err(e)),
        (BudgetState::PuttingBudget { staged }, Reply::Put(Ok(()))) => match staged.journal {
            Some(main) => r matches Step::Run(
                BudgetState::PuttingJournal { staged: next },
                Action::PutJournal { text },
            ) && next == staged && text@ == main@,
            None => commits_budget(staged, r),
        },
        (BudgetState::PuttingBudget { .. }, Reply::Put(Err(e))) => r == Step::<BudgetState, CommitOutcome>::Done(
            Err(e),
        ),
        (BudgetState::PuttingJournal { staged }, Reply::Put(Ok(()))) => commits_budget(staged, r),
        (BudgetState::PuttingJournal { staged }, Reply::Put(Err(e))) => restores_budget(e, staged.file, r),
        (BudgetState::Committing { staged }, Reply::Committed(Ok(commit))) => r matches Step::Done(Ok(out)) && out.id@
            == staged.rule.account@ && out.commit == commit,
        (BudgetState::Committing { staged }, Reply::Committed(Err(e))) => if staged.journal is Some {
            r matches Step::Run(BudgetState::RestoringJournal { error, file }, Action::PutJournal { text }) && error == e
                && file == staged.file && text@ == staged.live@
        } else {
            restores_budget(e, staged.file, r)
        },
        (BudgetState::RestoringJournal { error, file }, Reply::Put(_)) => restores_budget(error, file, r),
        (BudgetState::RestoringBudget { error }, Reply::Put(_)) => r == Step::<BudgetState, CommitOutcome>::Done(
            Err(error),
        ),
        _ => ends_internal(r, "unexpected reply"@),
    }
}

/// Begins to set a budget goal.
pub fn set_budget(
    _ctx: &WriteContext,
    account: &str,
    period: BudgetPeriod,
    quantity: Quantity,
    commodity: &str,
) -> (r: Step<BudgetState, CommitOutcome>)
    ensures
        r matches Step::Run(BudgetState::Accounts { rule }, Action::DeclaredAccounts) && rule@ == (BudgetRuleView {
            account: account@,
            period,
            quantity,
            commodity: commodity@,
        }),
{
    Step::Run(
        BudgetState::Accounts {
            rule: BudgetRule { account: account.to_owned(), period, quantity, commodity: commodity.to_owned() },
        },
        Action::DeclaredAccounts,
    )
}

/// Does the journal name the budget file already?
fn has_budget_line(journal: &str) -> (r: bool)
    ensures
        r == names_budget(journal@),
{
    let all: Vec<String> = split_lines(journal);
    let ghost ls = texts(all@);
    let mut i: usize = 0;
    while i < all.len()
        invariant
            i <= all.len(),
            ls == texts(all@),
            ls == lines(journal@),
            forall|j: int| 0 <= j < i ==> trim(#[trigger] ls[j]) != "include budget.journal"@,
        decreases all.len() - i,
    {
        assert(ls[i as int] == all@[i as int]@);
        if same(&trimmed(&all[i]), "include budget.journal") {
            return true;
        }
        i += 1;
    }
    false
}

/// The candidate budget file, and the candidate journal where the journal has to change.
fn stage(rule: BudgetRule, live: String, file: Option<String>) -> (r: Result<Staged, WriteError>)
    ensures
        match rules_of(option_view(file)) {
            Ok(_) => r matches Ok(staged) && is_staged(staged, rule@, live@, option_view(file)),
            Err(line) => r matches Err(e) && is_internal_error(e, malformed_message(line)),
        },
{
    let text: Option<&str> = match &file {
        Some(text) => Some(text.as_str()),
        None => None,
    };
    let mut rules: Vec<BudgetRule> = match read_budget_rules(text) {
        Ok(rules) => rules,
        Err(e) => {
            return Err(e);
        },
    };
    assert(file is None ==> rules_view(rules@) =~= Seq::empty());
    let _ = upsert_rule(&mut rules, rule.clone());
    let budget: String = render_budget_file(&rules);
    let journal: Option<String> = if has_budget_line(&live) {
        None
    } else {
        Some(build_candidate(&live, "include budget.journal\n"))
    };
    Ok(Staged { rule, budget, journal, live, file })
}

fn commit_step(staged: Staged) -> (r: Step<BudgetState, CommitOutcome>)
    ensures
        commits_budget(staged, r),
{
    let mut message: String = cat3("budget: set ", &staged.rule.account, " ");
    message.append(staged.rule.period.keyword());
    message.append(" = ");
    message.append(&staged.rule.quantity.render());
    message.append(" ");
    message.append(&staged.rule.commodity);
    Step::Run(BudgetState::Committing { staged }, Action::CommitBudget { message })
}

impl BudgetState {
    /// What follows the reply to the last action.
    pub fn step(self, reply: Reply) -> (r: Step<BudgetState, CommitOutcome>)
        ensures
            budget_next(self, reply, r),
    {
        match (self, reply) {
            (BudgetState::Accounts { rule }, Reply::Names(names)) => match names {
                Ok(accounts) => Step::Run(
                    BudgetState::Commodities { rule, accounts },
                    Action::DeclaredCommodities,
                ),
                Err(e) => internal("read declared accounts: ", &e),
            },
            (BudgetState::Commodities { rule, accounts }, Reply::Names(names)) => match names {
                Ok(names) => if !listed(&accounts, &rule.account) {
                    Step::Done(
                        Err(
                            WriteError::Input(
                                cat3(
                                    "account not declared: '",
                                    &rule.account,
                                    "' — declare it first with declare_account",
                                ),
                            ),
                        ),
                    )
                } else if !listed(&names, &rule.commodity) {
                    Step::Done(
                        Err(
                            WriteError::Input(
                                cat3(
                                    "commodity not declared: '",
                                    &rule.commodity,
                                    "' — declare it first with declare_commodity",
                                ),
                            ),
                        ),
                    )
                } else {
                    Step::Run(BudgetState::Reading { rule }, Action::ReadBudget)
                },
                Err(e) => internal("read declared commodities: ", &e),
            },
            (BudgetState::Reading { rule }, Reply::Budgets(read)) => match read {
                Ok((live, file)) => match stage(rule, live, file) {
                    Ok(staged) => {
                        let journal: String = match &staged.journal {
                            Some(main) => main.clone(),
                            None => staged.live.clone(),
                        };
                        let budget: String = staged.budget.clone();
                        Step::Run(BudgetState::Checking { staged }, Action::CheckBudget { journal, budget })
                    },
                    Err(e) => Step::Done(Err(e)),
                },
                Err(e) => Step::Done(Err(e)),
            },
            (BudgetState::Checking { staged }, Reply::Checked(verdict)) => match verdict {
                Ok(()) => {
                    let text: String = staged.budget.clone();
                    Step::Run(BudgetState::PuttingBudget { staged }, Action::PutBudget { text: Some(text) })
                },
                Err(e) => {
                    let detail: String = check_failure(e);
                    Step::Done(
                        Err(
                            WriteError::Internal(
                                cat(
                                    "hledger check --strict rejected our generated budget file (formatter bug):\n",
                                    &detail,
                                ),
                            ),
                        ),
                    )
                },
            },
            (BudgetState::Checking { .. }, Reply::NotStaged(e)) => Step::Done(Err(e)),
            (BudgetState::PuttingBudget { staged }, Reply::Put(put)) => match put {
                Ok(()) => match &staged.journal {
                    Some(main) => {
                        let text: String = main.clone();
                        Step::Run(BudgetState::PuttingJournal { staged }, Action::PutJournal { text })
                    },
                    None => commit_step(staged),
                },
                Err(e) => Step::Done(Err(e)),
            },
            (BudgetState::PuttingJournal { staged }, Reply::Put(put)) => match put {
                Ok(()) => commit_step(staged),
                Err(error) => Step::Run(
                    BudgetState::RestoringBudget { error },
                    Action::PutBudget { text: staged.file },
                ),
            },
            (BudgetState::Committing { staged }, Reply::Committed(committed)) => match committed {
                Ok(commit) => Step::Done(Ok(CommitOutcome { id: staged.rule.account, commit })),
                Err(error) => if staged.journal.is_some() {
                    Step::Run(
                        BudgetState::RestoringJournal { error, file: staged.file },
                        Action::PutJournal { text: staged.live },
                    )
                } else {
                    Step::Run(BudgetState::RestoringBudget { error }, Action::PutBudget { text: staged.file })
                },
            },
            (BudgetState::RestoringJournal { error, file }, Reply::Put(_)) => Step::Run(
                BudgetState::RestoringBudget { error },
                Action::PutBudget { text: file },
            ),
            (BudgetState::RestoringBudget { error }, Reply::Put(_)) => Step::Done(Err(error)),
            _ => misplaced(),
        }
    }
}

// ---------------------------------------------------------------------------
// What the actions do
// ---------------------------------------------------------------------------

/// A commit: its identifier, its message, and the journal and the budget file that it holds.
pub struct BudgetRecorded {
    pub oid: Seq<char>,
    pub message: Seq<char>,
    pub journal: Seq<char>,
    pub budget: Option<Seq<char>>,
}

/// What setting a goal can touch: the journal, the budget file, where there is one, and the
/// commits, the newest last.
pub struct BudgetDisk {
    pub journal: Seq<char>,
    pub budget: Option<Seq<char>>,
    pub commits: Seq<BudgetRecorded>,
}

/// Is this what an action does, by its reply? A read gives what the files hold, and an action
/// that failed changed nothing.
pub open spec fn budget_performed(d: BudgetDisk, action: Action, reply: Reply, after: BudgetDisk) -> bool {
    match (action, reply) {
        (Action::ReadBudget, Reply::Budgets(read)) => after == d && (read matches Ok((live, file)) ==> live@
            == d.journal && option_view(file) == d.budget),
        (Action::PutBudget { text }, Reply::Put(done)) => after == if done is Ok {
            BudgetDisk { budget: option_view(text), ..d }
        } else {
            d
        },
        (Action::PutJournal { text }, Reply::Put(done)) => after == if done is Ok {
            BudgetDisk { journal: text@, ..d }
        } else {
            d
        },
        (Action::CommitBudget { message }, Reply::Committed(done)) => after == match done {
            Ok(oid) => BudgetDisk {
                commits: d.commits.push(
                    BudgetRecorded { oid: oid@, message: message@, journal: d.journal, budget: d.budget },
                ),
                ..d
            },
            Err(_) => d,
        },
        (Action::DeclaredAccounts, Reply::Names(_)) => after == d,
        (Action::DeclaredCommodities, Reply::Names(_)) => after == d,
        (Action::CheckBudget { .. }, Reply::Checked(_)) => after == d,
        (Action::CheckBudget { .. }, Reply::NotStaged(_)) => after == d,
        _ => false,
    }
}

// ---------------------------------------------------------------------------
// Laws
// ---------------------------------------------------------------------------

/// One step of setting a goal, with what the action left on disk.
pub struct BudgetTurn {
    pub state: BudgetState,
    pub action: Action,
    pub reply: Reply,
    pub step: Step<BudgetState, CommitOutcome>,
    pub before: BudgetDisk,
    pub after: BudgetDisk,
}

/// Is it the course of setting this goal?
pub open spec fn budget_course(turns: Seq<BudgetTurn>, rule: BudgetRuleView) -> bool {
    &&& turns.len() > 0 ==> (turns[0].state matches BudgetState::Accounts { rule: r } && r@ == rule
        && turns[0].action is DeclaredAccounts)
    &&& forall|i: int|
        0 <= i < turns.len() ==> budget_next((#[trigger] turns[i]).state, turns[i].reply, turns[i].step)
            && budget_performed(turns[i].before, turns[i].action, turns[i].reply, turns[i].after)
    &&& forall|i: int|
        0 < i < turns.len() ==> (turns[i - 1].step matches Step::Run(s, a) && (#[trigger] turns[i]).state == s
            && turns[i].action == a) && turns[i].before == turns[i - 1].after
}

/// Did putting a file in place fail?
pub open spec fn put_failed(reply: Reply) -> bool {
    reply matches Reply::Put(Err(_))
}

/// Is it a turn in which a file could not be put back?
pub open spec fn restore_failed(turn: BudgetTurn) -> bool {
    (turn.state is RestoringJournal || turn.state is RestoringBudget) && put_failed(turn.reply)
}

/// What is on disk where setting a goal stands, begun with `first` on disk. `undone` says that
/// no file has failed to be put back.
spec fn budget_stands(turn: BudgetTurn, first: BudgetDisk, rule: BudgetRuleView, undone: bool) -> bool {
    let d = turn.before;
    &&& d.commits == first.commits
    &&& match turn.state {
        BudgetState::Accounts { rule: r } => d == first && r@ == rule && turn.action is DeclaredAccounts,
        BudgetState::Commodities { rule: r, .. } => d == first && r@ == rule && turn.action is DeclaredCommodities,
        BudgetState::Reading { rule: r } => d == first && r@ == rule && turn.action is ReadBudget,
        BudgetState::Checking { staged } => d == first && is_staged(staged, rule, first.journal, first.budget) && (
        turn.action matches Action::CheckBudget { journal, budget } && journal@ == staged_journal(staged) && budget@
            == staged.budget@),
        BudgetState::PuttingBudget { staged } => d == first && is_staged(staged, rule, first.journal, first.budget) && (
        turn.action matches Action::PutBudget { text } && option_view(text) == Some(staged.budget@)),
        BudgetState::PuttingJournal { staged } => is_staged(staged, rule, first.journal, first.budget) && d.journal
            == first.journal && d.budget == Some(staged.budget@) && (
        staged.journal matches Some(main) && turn.action matches Action::PutJournal { text } && text@ == main@),
        BudgetState::Committing { staged } => is_staged(staged, rule, first.journal, first.budget) && d.journal
            == staged_journal(staged) && d.budget == Some(staged.budget@) && (
        turn.action matches Action::CommitBudget { message } && message@ == budget_message(rule)),
        BudgetState::RestoringJournal { file, .. } => option_view(file) == first.budget && (
        turn.action matches Action::PutJournal { text } && text@ == first.journal),
        BudgetState::RestoringBudget { .. } => (undone ==> d.journal == first.journal) && (
        turn.action matches Action::PutBudget { text } && option_view(text) == first.budget),
    }
}

proof fn lemma_budget_step(
    turn: BudgetTurn,
    next: BudgetTurn,
    first: BudgetDisk,
    rule: BudgetRuleView,
    undone: bool,
)
    requires
        budget_stands(turn, first, rule, undone),
        budget_next(turn.state, turn.reply, turn.step),
        budget_performed(turn.before, turn.action, turn.reply, turn.after),
        turn.step matches Step::Run(s, a) && next.state == s && next.action == a,
        next.before == turn.after,
    ensures
        budget_stands(next, first, rule, undone && !restore_failed(turn)),
        next.state is PuttingBudget ==> (turn.state is Checking && (turn.reply matches Reply::Checked(Ok(_)))),
{
    match turn.state {
        BudgetState::Accounts { .. } => {},
        BudgetState::Commodities { .. } => {},
        BudgetState::Reading { .. } => {},
        BudgetState::Checking { .. } => {},
        BudgetState::PuttingBudget { .. } => {},
        BudgetState::PuttingJournal { .. } => {},
        BudgetState::Committing { .. } => {},
        BudgetState::RestoringJournal { .. } => {},
        BudgetState::RestoringBudget { .. } => {},
    }
}

/// Has no file failed to be put back in the first `n` turns?
pub open spec fn all_restored(turns: Seq<BudgetTurn>, n: int) -> bool {
    forall|i: int| 0 <= i < n ==> !restore_failed(#[trigger] turns[i])
}

proof fn lemma_budget_course(turns: Seq<BudgetTurn>, rule: BudgetRuleView, i: int)
    requires
        budget_course(turns, rule),
        0 <= i < turns.len(),
    ensures
        budget_stands(turns[i], turns[0].before, rule, all_restored(turns, i)),
        turns[i].state is PuttingBudget ==> i > 0 && turns[i - 1].state is Checking && (
        turns[i - 1].reply matches Reply::Checked(Ok(_))),
    decreases i,
{
    assert(budget_next(turns[0].state, turns[0].reply, turns[0].step));
    if i > 0 {
        lemma_budget_course(turns, rule, i - 1);
        assert(budget_next(turns[i - 1].state, turns[i - 1].reply, turns[i - 1].step));
        assert(turns[i].before == turns[i - 1].after);
        lemma_budget_step(turns[i - 1], turns[i], turns[0].before, rule, all_restored(turns, i - 1));
        if all_restored(turns, i) {
            assert(all_restored(turns, i - 1));
            assert(!restore_failed(turns[i - 1]));
        }
    }
}

/// Setting a goal fails closed. In every course, a file is put in place only after the check
/// passed on what is put there. A course that ends well has put the new budget file in place,
/// with the goal in it, and the journal that names it, and has made one commit, which holds both
/// and has the message of the goal and the identifier that is reported. A course that
/// ends in an error has committed nothing, and both files hold what they held, unless putting
/// them back failed too.
pub proof fn law_budget_fails_closed(turns: Seq<BudgetTurn>, rule: BudgetRuleView, i: int)
    requires
        budget_course(turns, rule),
        0 <= i < turns.len(),
    ensures
        turns[i].state is PuttingBudget ==> i > 0 && (turns[i - 1].reply matches Reply::Checked(Ok(_))) && (
        turns[i - 1].action matches Action::CheckBudget { budget, .. } && (turns[i].action matches Action::PutBudget {
            text,
        } && option_view(text) == Some(budget@))),
        turns[i].step matches Step::Done(Ok(out)) ==> ({
            let first = turns[0].before;
            let after = turns[i].after;
            &&& out.id@ == rule.account
            &&& after.commits == first.commits.push(
                BudgetRecorded {
                    oid: out.commit@,
                    message: budget_message(rule),
                    journal: after.journal,
                    budget: after.budget,
                },
            )
            &&& rules_of(first.budget) is Ok
            &&& after.budget == Some(budget_file(upserted(rules_of(first.budget)->Ok_0, rule)))
            &&& after.journal == match journal_with_budget(first.journal) {
                Some(main) => main,
                None => first.journal,
            }
        }),
        turns[i].step matches Step::Done(Err(_)) ==> turns[i].after.commits == turns[0].before.commits && (all_restored(
            turns,
            i + 1,
        ) ==> turns[i].after == turns[0].before),
{
    lemma_budget_course(turns, rule, i);
    assert(budget_next(turns[i].state, turns[i].reply, turns[i].step));
    if i > 0 {
        lemma_budget_course(turns, rule, i - 1);
        assert(budget_next(turns[i - 1].state, turns[i - 1].reply, turns[i - 1].step));
        assert(turns[i].state == turns[i - 1].step->Run_0);
    }
    if all_restored(turns, i + 1) {
        assert(all_restored(turns, i));
        assert(!restore_failed(turns[i]));
    }
    match turns[i].state {
        BudgetState::Accounts { .. } => {},
        BudgetState::Commodities { .. } => {},
        BudgetState::Reading { .. } => {},
        BudgetState::Checking { .. } => {},
        BudgetState::PuttingBudget { .. } => {},
        BudgetState::PuttingJournal { .. } => {},
        BudgetState::Committing { .. } => {},
        BudgetState::RestoringJournal { .. } => {},
        BudgetState::RestoringBudget { .. } => {},
    }
}

/// A goal is set exactly for an account and a commodity that are declared, and for both: once the
/// names are read it goes on exactly where both lists have them, and is refused by naming the
/// first that is missing. From there it goes on as long as nothing fails, and leaves this way only
/// for a reply that reports a failure, or for a budget file that cannot be read.
pub proof fn law_goals_are_for_declared_names(s: BudgetState, reply: Reply, r: Step<BudgetState, CommitOutcome>)
    requires
        budget_next(s, reply, r),
    ensures
        s matches BudgetState::Commodities { rule, accounts } ==> reply matches Reply::Names(Ok(names)) ==> ({
            &&& r is Run <==> texts(accounts@).contains(rule.account@) && texts(names@).contains(rule.commodity@)
            &&& !texts(accounts@).contains(rule.account@) ==> ends_input(
                r,
                "account not declared: '"@ + rule.account@ + "' — declare it first with declare_account"@,
            )
            &&& texts(accounts@).contains(rule.account@) && !texts(names@).contains(rule.commodity@) ==> ends_input(
                r,
                "commodity not declared: '"@ + rule.commodity@ + "' — declare it first with declare_commodity"@,
            )
            &&& r matches Step::Run(next, a) ==> a is ReadBudget && (next matches BudgetState::Reading { rule: kept }
                && kept@ == rule@)
        }),
        s is Accounts && (reply matches Reply::Names(Ok(_))) ==> r is Run,
        s is Reading && (reply matches Reply::Budgets(Ok((_, file))) && rules_of(option_view(file)) is Ok) ==> r is Run,
        s is Checking && (reply matches Reply::Checked(Ok(_))) ==> r is Run,
        s is PuttingBudget && (reply matches Reply::Put(Ok(_))) ==> r is Run,
        s is PuttingJournal && (reply matches Reply::Put(Ok(_))) ==> r is Run,
        s is Committing && (reply matches Reply::Committed(Ok(_))) ==> (r matches Step::Done(Ok(_))),
{
}

/// A goal for a name that hledger lists as an account, in a commodity that can be declared, can
/// be stored: the file that is written for it reads back.
pub proof fn law_declared_names_are_storable(out: Seq<char>, i: int, symbol: Seq<char>, rule: BudgetRuleView)
    requires
        0 <= i < trimmed_nonempty(lines(out)).len(),
        rule.account == trimmed_nonempty(lines(out))[i],
        rule.commodity == trim(symbol),
        is_commodity_symbol(trim(symbol)),
    ensures
        is_storable(rule),
{
    law_names_are_single_lines(out);
    lemma_trim_start(symbol);
    lemma_trim_end_within(trim_start(symbol));
    let c = rule.commodity;
    assert forall|k: int| 0 <= k < c.len() implies c[k] != '\n' && c[k] != ' ' by {}
    assert(!is_white(c.last()));
}

/// The commit of a goal tells the account, the period, the amount and the commodity that were set.
pub proof fn law_budget_commits_tell_the_goal(rule: BudgetRuleView)
    ensures
        budget_message(rule) == "budget: set "@ + rule.account + " "@ + (match rule.period {
            BudgetPeriod::Daily => "daily"@,
            BudgetPeriod::Weekly => "weekly"@,
            BudgetPeriod::Monthly => "monthly"@,
            BudgetPeriod::Quarterly => "quarterly"@,
            BudgetPeriod::Yearly => "yearly"@,
        }) + " = "@ + quantity_text(rule.quantity) + " "@ + rule.commodity,
{
}

/// Every budget file that is put in place reads back: with storable goals before and a storable
/// goal set, it holds exactly the goals as they are now.
pub proof fn law_set_goal_reads_back(rules: Seq<BudgetRuleView>, rule: BudgetRuleView)
    requires
        forall|i: int| 0 <= i < rules.len() ==> is_storable(#[trigger] rules[i]),
        is_storable(rule),
    ensures
        rules_of(Some(budget_file(upserted(rules, rule)))) == Ok::<Seq<BudgetRuleView>, Seq<char>>(
            upserted(rules, rule),
        ),
{
    lemma_rule_index(rules, rule);
    let now = upserted(rules, rule);
    assert forall|i: int| 0 <= i < now.len() implies is_storable(#[trigger] now[i]) by {
        if i < rules.len() && i != rule_index(rules, rule) {
            assert(now[i] == rules[i]);
        }
    }
    law_budget_file_round_trip(now);
}

/// The line that names the budget file is added once: a journal that got it is not changed
/// again, and setting a goal leaves every other line of the journal as it is.
pub proof fn law_budget_line_is_added_once(journal: Seq<char>)
    requires
        !names_budget(journal),
    ensures
        journal_with_budget(journal) matches Some(main) && names_budget(main) && journal_with_budget(main) is None
            && starts_with(main, journal),
{
    reveal_strlit("include budget.journal\n");
    reveal_strlit("include budget.journal");
    let line = "include budget.journal"@;
    let addition = "include budget.journal\n"@;
    assert(addition =~= line + seq!['\n']);
    let main = candidate(journal, addition);
    law_candidate_is_append_only(journal, addition);
    let head = main.take(main.len() - addition.len());
    assert(head.last() == '\n');
    assert(main =~= head + addition);
    assert(is_line(line)) by {
        assert(line.last() == 'l');
    }
    lemma_lines_of_tail(head, line);
    let ls = lines(main);
    assert(ls[ls.len() - 1] == line);
    assert(trim(line) == line) by {
        assert(!is_white(line[0]));
        assert(!is_white(line.last()));
    }
    assert(trim(ls[ls.len() - 1]) == line);
}

/// The last line of a text whose last line is terminated.
proof fn lemma_lines_of_tail(head: Seq<char>, line: Seq<char>)
    requires
        head.len() == 0 || head.last() == '\n',
        is_line(line),
    ensures
        lines(head + (line + seq!['\n'])).len() > 0,
        lines(head + (line + seq!['\n'])).last() == line,
    decreases head.len(),
{
    let s = head + (line + seq!['\n']);
    lemma_find(s, '\n');
    let k = find(s, '\n');
    if head.len() == 0 {
        assert(s =~= line + seq!['\n']);
        assert forall|i: int| 0 <= i < line.len() implies s[i] != '\n' by {
            assert(line.contains(line[i]));
        }
        lemma_find_unique(s, '\n', line.len() as int);
        assert(s.take(line.len() as int) =~= line);
        assert(s.skip(line.len() as int + 1).len() == 0);
        assert(lines(s.skip(line.len() as int + 1)).len() == 0);
        assert(lines(s) =~= seq![line]);
    } else {
        assert(s[head.len() - 1] == '\n');
        assert(k < head.len());
        let rest = head.skip(k + 1);
        assert(rest.len() > 0 ==> rest.last() == head.last());
        lemma_lines_of_tail(rest, line);
        assert(s.skip(k + 1) =~= rest + (line + seq!['\n']));
        let tail = lines(s.skip(k + 1));
        assert(lines(s) == seq![strip_return(s.take(k))] + tail);
        assert(lines(s).last() == tail.last());
    }
}

} // verus!
