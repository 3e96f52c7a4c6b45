//! Soft invariants: what is shown alongside a report and never enforced. A report comes in
//! and flags come out; no write looks at them.

use vstd::prelude::*;

use crate::domain::{
    AgeCategory, ApAgingEntry, ApAgingView, aging_view, date_cell, date_text, exceeds, is_more,
};
use crate::date::civil_text;
use crate::decimal::{lemma_pow10_positive, pow10};
use crate::sums::{lemma_pow10_add, lemma_total_of_zeros, total};
use crate::hledger::{
    AccountBalance, AccountBalanceView, BalanceReport, BudgetReport, BudgetRow, BudgetRowView,
    balances_view, budget_rows_view,
};
use crate::hledger::amount::{
    Amount, AmountView, Quantity, amount_text, amounts_text, amounts_view, common_places,
    render_amounts,
};
use crate::text::{cat, cat3, has_prefix, join, join_texts, lines, same, starts_with, texts};

verus! {

/// What a flag warns of.
#[derive(Debug, Clone, Copy, PartialEq, Eq, Structural)]
pub enum FlagKind {
    Overdraft,
    ApAging,
    OverBudget,
}

/// The word for a kind of flag.
pub open spec fn flag_label(k: FlagKind) -> Seq<char> {
    match k {
        FlagKind::Overdraft => "overdraft"@,
        FlagKind::ApAging => "ap-aging"@,
        FlagKind::OverBudget => "over-budget"@,
    }
}

impl FlagKind {
    /// The word for the kind.
    pub fn label(self) -> (r: &'static str)
        ensures
            r@ == flag_label(self),
    {
        match self {
            FlagKind::Overdraft => "overdraft",
            FlagKind::ApAging => "ap-aging",
            FlagKind::OverBudget => "over-budget",
        }
    }
}

/// A warning about an account.
#[derive(Debug, Clone, PartialEq, Eq)]
pub struct Flag {
    /// What it warns of.
    pub kind: FlagKind,
    /// The account.
    pub account: String,
    /// What is the matter.
    pub detail: String,
}

/// What a [`Flag`] holds.
#[verifier::ext_equal]
pub struct FlagView {
    pub kind: FlagKind,
    pub account: Seq<char>,
    pub detail: Seq<char>,
}

impl View for Flag {
    type V = FlagView;

    open spec fn view(&self) -> FlagView {
        FlagView { kind: self.kind, account: self.account@, detail: self.detail@ }
    }
}

/// What a list of flags holds.
pub open spec fn flags_view(v: Seq<Flag>) -> Seq<FlagView> {
    Seq::new(v.len(), |i: int| v[i]@)
}

/// The text of a flag.
pub open spec fn flag_text(f: FlagView) -> Seq<char> {
    "flag "@ + flag_label(f.kind) + ": "@ + f.account + " "@ + f.detail
}

impl Flag {
    /// The text of the flag.
    pub fn to_string(&self) -> (r: String)
        ensures
            r@ == flag_text(self@),
    {
        let mut out: String = cat3("flag ", self.kind.label(), ": ");
        out.append(&self.account);
        out.append(" ");
        out.append(&self.detail);
        out
    }
}

/// Is it an asset account: `assets`, or one below it?
pub open spec fn is_asset_account(account: Seq<char>) -> bool {
    account == "assets"@ || starts_with(account, "assets:"@)
}

/// Is it an asset account?
pub fn is_asset(account: &str) -> (r: bool)
    ensures
        r == is_asset_account(account@),
{
    same(account, "assets") || has_prefix(account, "assets:")
}

/// The flags for the negative amounts of an account.
pub open spec fn overdrafts(account: Seq<char>, amounts: Seq<AmountView>) -> Seq<FlagView>
    decreases amounts.len(),
{
    if amounts.len() == 0 {
        Seq::empty()
    } else {
        let init = overdrafts(account, amounts.drop_last());
        if amounts.last().quantity.mantissa < 0 {
            init.push(
                FlagView {
                    kind: FlagKind::Overdraft,
                    account,
                    detail: "balance "@ + amount_text(amounts.last()),
                },
            )
        } else {
            init
        }
    }
}

/// The flags for the negative amounts of the asset accounts.
pub open spec fn report_overdrafts(rows: Seq<AccountBalanceView>) -> Seq<FlagView>
    decreases rows.len(),
{
    if rows.len() == 0 {
        Seq::empty()
    } else {
        let init = report_overdrafts(rows.drop_last());
        if is_asset_account(rows.last().account) {
            init + overdrafts(rows.last().account, rows.last().amounts)
        } else {
            init
        }
    }
}

/// Flags every negative amount of an asset account.
pub fn overdraft_flags(report: &BalanceReport) -> (r: Vec<Flag>)
    ensures
        flags_view(r@) == report_overdrafts(report@.rows),
{
    let ghost rows = report@.rows;
    let mut flags: Vec<Flag> = Vec::new();
    let mut i: usize = 0;
    assert(flags_view(flags@) =~= report_overdrafts(rows.take(0)));
    while i < report.rows.len()
        invariant
            i <= report.rows.len(),
            rows == balances_view(report.rows@),
            flags_view(flags@) == report_overdrafts(rows.take(i as int)),
        decreases report.rows.len() - i,
    {
        let row: &AccountBalance = &report.rows[i];
        let ghost before = flags_view(flags@);
        let ghost amounts = row@.amounts;
        proof {
            assert(rows.take(i + 1).drop_last() =~= rows.take(i as int));
            assert(rows.take(i + 1).last() == row@);
        }
        if is_asset(&row.account) {
            let mut j: usize = 0;
            assert(flags_view(flags@) =~= before + overdrafts(row@.account, amounts.take(0)));
            while j < row.amounts.len()
                invariant
                    j <= row.amounts.len(),
                    amounts == amounts_view(row.amounts@),
                    flags_view(flags@) == before + overdrafts(row@.account, amounts.take(j as int)),
                decreases row.amounts.len() - j,
            {
                let ghost so_far = flags_view(flags@);
                proof {
                    assert(amounts.take(j + 1).drop_last() =~= amounts.take(j as int));
                    assert(amounts.take(j + 1).last() == row.amounts@[j as int]@);
                }
                if row.amounts[j].quantity.mantissa < 0 {
                    let flag: Flag = Flag {
                        kind: FlagKind::Overdraft,
                        account: row.account.clone(),
                        detail: cat("balance ", &row.amounts[j].render()),
                    };
                    let ghost added = flag@;
                    flags.push(flag);
                    assert(flags_view(flags@) =~= so_far.push(added));
                    assert(flags_view(flags@) =~= before + overdrafts(row@.account, amounts.take(j + 1)));
                }
                j += 1;
            }
            assert(amounts.take(j as int) =~= amounts);
        }
        i += 1;
    }
    assert(rows.take(i as int) =~= rows);
    flags
}

/// The flags for overdue payables.
pub open spec fn overdue(entries: Seq<ApAgingView>) -> Seq<FlagView>
    decreases entries.len(),
{
    if entries.len() == 0 {
        Seq::empty()
    } else {
        let init = overdue(entries.drop_last());
        let e = entries.last();
        if e.age == Some(AgeCategory::Over90Days) {
            init.push(
                FlagView {
                    kind: FlagKind::ApAging,
                    account: e.vendor_account,
                    detail: "outstanding "@ + amounts_text(e.outstanding) + " since "@ + date_cell(
                        e.oldest_invoice_date,
                    ) + " (90+ days overdue)"@,
                },
            )
        } else {
            init
        }
    }
}

/// Flags every payable that is more than 90 days old.
pub fn ap_aging_flags(entries: &[ApAgingEntry]) -> (r: Vec<Flag>)
    ensures
        flags_view(r@) == overdue(aging_view(entries@)),
{
    let ghost all = aging_view(entries@);
    let mut flags: Vec<Flag> = Vec::new();
    let mut i: usize = 0;
    assert(flags_view(flags@) =~= overdue(all.take(0)));
    while i < entries.len()
        invariant
            i <= entries.len(),
            all == aging_view(entries@),
            flags_view(flags@) == overdue(all.take(i as int)),
        decreases entries.len() - i,
    {
        let e: &ApAgingEntry = &entries[i];
        let ghost before = flags_view(flags@);
        proof {
            assert(all.take(i + 1).drop_last() =~= all.take(i as int));
            assert(all.take(i + 1).last() == e@);
        }
        let late: bool = match e.age {
            Some(a) => a.is_overdue(),
            None => false,
        };
        if late {
            let mut detail: String = cat3("outstanding ", &render_amounts(&e.outstanding), " since ");
            detail.append(&date_text(e.oldest_invoice_date));
            detail.append(" (90+ days overdue)");
            let flag: Flag = Flag { kind: FlagKind::ApAging, account: e.vendor_account.clone(), detail };
            let ghost added = flag@;
            flags.push(flag);
            assert(flags_view(flags@) =~= before.push(added));
        }
        i += 1;
    }
    assert(all.take(i as int) =~= all);
    flags
}

/// The first amount in the commodity.
pub open spec fn amount_in(amounts: Seq<AmountView>, commodity: Seq<char>) -> Option<AmountView>
    decreases amounts.len(),
{
    if amounts.len() == 0 {
        None
    } else if amounts[0].commodity == commodity {
        Some(amounts[0])
    } else {
        amount_in(amounts.skip(1), commodity)
    }
}

fn find_amount<'a>(amounts: &'a Vec<Amount>, commodity: &str) -> (r: Option<&'a Amount>)
    ensures
        match r {
            Some(a) => amount_in(amounts_view(amounts@), commodity@) == Some(a@),
            None => amount_in(amounts_view(amounts@), commodity@) is None,
        },
{
    let ghost all = amounts_view(amounts@);
    let mut i: usize = 0;
    assert(all.skip(0) =~= all);
    while i < amounts.len()
        invariant
            i <= amounts.len(),
            all == amounts_view(amounts@),
            amount_in(all, commodity@) == amount_in(all.skip(i as int), commodity@),
        decreases amounts.len() - i,
    {
        assert(all.skip(i as int)[0] == amounts@[i as int]@);
        if same(&amounts[i].commodity, commodity) {
            return Some(&amounts[i]);
        }
        proof {
            assert(all.skip(i as int).skip(1) =~= all.skip(i + 1));
        }
        i += 1;
    }
    None
}

/// The flag for one goal of an account, where the goal is positive and what was spent in its
/// commodity exceeds it.
pub open spec fn overrun(account: Seq<char>, actual: Seq<AmountView>, goal: AmountView) -> Option<FlagView> {
    match amount_in(actual, goal.commodity) {
        Some(spent) => if goal.quantity.mantissa > 0 && is_more(spent.quantity, goal.quantity) {
            Some(
                FlagView {
                    kind: FlagKind::OverBudget,
                    account,
                    detail: "actual "@ + amount_text(spent) + " > budget "@ + amount_text(goal),
                },
            )
        } else {
            None
        },
        None => None,
    }
}

/// The flags for the goals of an account.
pub open spec fn overruns(account: Seq<char>, actual: Seq<AmountView>, goals: Seq<AmountView>) -> Seq<FlagView>
    decreases goals.len(),
{
    if goals.len() == 0 {
        Seq::empty()
    } else {
        let init = overruns(account, actual, goals.drop_last());
        match overrun(account, actual, goals.last()) {
            Some(f) => init.push(f),
            None => init,
        }
    }
}

/// The flags for the goals of the accounts.
pub open spec fn report_overruns(rows: Seq<BudgetRowView>) -> Seq<FlagView>
    decreases rows.len(),
{
    if rows.len() == 0 {
        Seq::empty()
    } else {
        report_overruns(rows.drop_last()) + overruns(rows.last().account, rows.last().actual, rows.last().goal)
    }
}

fn check_goal(account: &str, actual: &Vec<Amount>, goal: &Amount) -> (r: Option<Flag>)
    ensures
        match r {
            Some(f) => overrun(account@, amounts_view(actual@), goal@) == Some(f@),
            None => overrun(account@, amounts_view(actual@), goal@) is None,
        },
{
    if goal.quantity.mantissa <= 0 {
        return None;
    }
    match find_amount(actual, &goal.commodity) {
        Some(spent) => if exceeds(&spent.quantity, &goal.quantity) {
            let mut detail: String = cat3("actual ", &spent.render(), " > budget ");
            detail.append(&goal.render());
            Some(Flag { kind: FlagKind::OverBudget, account: account.to_owned(), detail })
        } else {
            None
        },
        None => None,
    }
}

/// Flags every account that exceeds a positive goal, by commodity. The goals that balance
/// the others are negative and raise no flag.
pub fn over_budget_flags(report: &BudgetReport) -> (r: Vec<Flag>)
    ensures
        flags_view(r@) == report_overruns(report@.rows),
{
    let ghost rows = report@.rows;
    let mut flags: Vec<Flag> = Vec::new();
    let mut i: usize = 0;
    assert(flags_view(flags@) =~= report_overruns(rows.take(0)));
    while i < report.rows.len()
        invariant
            i <= report.rows.len(),
            rows == budget_rows_view(report.rows@),
            flags_view(flags@) == report_overruns(rows.take(i as int)),
        decreases report.rows.len() - i,
    {
        let row: &BudgetRow = &report.rows[i];
        let ghost before = flags_view(flags@);
        let ghost goals = row@.goal;
        proof {
            assert(rows.take(i + 1).drop_last() =~= rows.take(i as int));
            assert(rows.take(i + 1).last() == row@);
        }
        let mut j: usize = 0;
        assert(flags_view(flags@) =~= before + overruns(row@.account, row@.actual, goals.take(0)));
        while j < row.goal.len()
            invariant
                j <= row.goal.len(),
                goals == amounts_view(row.goal@),
                flags_view(flags@) == before + overruns(row@.account, row@.actual, goals.take(j as int)),
            decreases row.goal.len() - j,
        {
            let ghost so_far = flags_view(flags@);
            proof {
                assert(goals.take(j + 1).drop_last() =~= goals.take(j as int));
                assert(goals.take(j + 1).last() == row.goal@[j as int]@);
            }
            if let Some(flag) = check_goal(&row.account, &row.actual, &row.goal[j]) {
                let ghost added = flag@;
                flags.push(flag);
                assert(flags_view(flags@) =~= so_far.push(added));
                assert(flags_view(flags@) =~= before + overruns(row@.account, row@.actual, goals.take(j + 1)));
            }
            j += 1;
        }
        assert(goals.take(j as int) =~= goals);
        i += 1;
    }
    assert(rows.take(i as int) =~= rows);
    flags
}

/// The texts of the flags, one on each line.
pub open spec fn flags_text(flags: Seq<FlagView>) -> Seq<char> {
    join(Seq::new(flags.len(), |i: int| flag_text(flags[i])), "\n"@)
}

/// The flags as lines below a report; nothing where there are none.
pub fn render_flags(flags: &[Flag]) -> (r: String)
    ensures
        r@ == flags_text(flags_view(flags@)),
{
    let mut out: Vec<String> = Vec::new();
    let mut i: usize = 0;
    while i < flags.len()
        invariant
            i <= flags.len(),
            out.len() == i,
            forall|j: int| 0 <= j < i ==> (#[trigger] out@[j])@ == flag_text(flags@[j]@),
        decreases flags.len() - i,
    {
        out.push(flags[i].to_string());
        i += 1;
    }
    proof {
        let views = flags_view(flags@);
        assert(texts(out@) =~= Seq::new(views.len(), |i: int| flag_text(views[i])));
    }
    join_texts(&out, "\n")
}

/// Only asset accounts with a negative amount are flagged as overdrawn, and each such amount
/// is.
pub proof fn law_overdraft_flags_are_exact(rows: Seq<AccountBalanceView>)
    ensures
        report_overdrafts(rows).len() == 0 <==> forall|i: int, j: int|
            0 <= i < rows.len() && is_asset_account(rows[i].account) && 0 <= j < rows[i].amounts.len() ==> (
            #[trigger] rows[i].amounts[j]).quantity.mantissa >= 0,
    decreases rows.len(),
{
    if rows.len() > 0 {
        let init = rows.drop_last();
        let n = rows.len() - 1;
        law_overdraft_flags_are_exact(init);
        lemma_overdrafts(rows[n].account, rows[n].amounts);
        if report_overdrafts(rows).len() == 0 {
            assert forall|i: int, j: int|
                0 <= i < rows.len() && is_asset_account(rows[i].account) && 0 <= j < rows[i].amounts.len() implies (
            #[trigger] rows[i].amounts[j]).quantity.mantissa >= 0 by {
                if i < n {
                    assert(init[i].amounts[j].quantity.mantissa >= 0);
                } else {
                    assert(rows[n].amounts[j].quantity.mantissa >= 0);
                }
            }
        }
        if forall|i: int, j: int|
            0 <= i < rows.len() && is_asset_account(rows[i].account) && 0 <= j < rows[i].amounts.len() ==> (
            #[trigger] rows[i].amounts[j]).quantity.mantissa >= 0 {
            assert forall|i: int, j: int|
                0 <= i < init.len() && is_asset_account(init[i].account) && 0 <= j < init[i].amounts.len() implies (
            #[trigger] init[i].amounts[j]).quantity.mantissa >= 0 by {
                assert(rows[i].amounts[j].quantity.mantissa >= 0);
            }
            if is_asset_account(rows[n].account) {
                assert forall|j: int| 0 <= j < rows[n].amounts.len() implies (
                #[trigger] rows[n].amounts[j]).quantity.mantissa >= 0 by {}
            }
        }
    }
}

proof fn lemma_overdrafts(account: Seq<char>, amounts: Seq<AmountView>)
    ensures
        overdrafts(account, amounts).len() == 0 <==> forall|j: int|
            0 <= j < amounts.len() ==> (#[trigger] amounts[j]).quantity.mantissa >= 0,
    decreases amounts.len(),
{
    if amounts.len() > 0 {
        let init = amounts.drop_last();
        lemma_overdrafts(account, init);
        assert(forall|j: int| 0 <= j < init.len() ==> #[trigger] init[j] == amounts[j]);
        if overdrafts(account, amounts).len() == 0 {
            assert forall|j: int| 0 <= j < amounts.len() implies (#[trigger] amounts[j]).quantity.mantissa >= 0 by {
                if j < init.len() {
                    assert(init[j].quantity.mantissa >= 0);
                }
            }
        }
    }
}

/// There is a flag exactly where a positive goal is exceeded.
pub proof fn law_over_budget_flags_are_exact(rows: Seq<BudgetRowView>)
    ensures
        report_overruns(rows).len() == 0 <==> forall|i: int, j: int|
            0 <= i < rows.len() && 0 <= j < rows[i].goal.len() ==> overrun(
                rows[i].account,
                rows[i].actual,
                #[trigger] rows[i].goal[j],
            ) is None,
    decreases rows.len(),
{
    if rows.len() > 0 {
        let init = rows.drop_last();
        let n = rows.len() - 1;
        law_over_budget_flags_are_exact(init);
        lemma_overruns(rows[n].account, rows[n].actual, rows[n].goal);
        if report_overruns(rows).len() == 0 {
            assert forall|i: int, j: int| 0 <= i < rows.len() && 0 <= j < rows[i].goal.len() implies overrun(
                rows[i].account,
                rows[i].actual,
                #[trigger] rows[i].goal[j],
            ) is None by {
                if i < n {
                    assert(overrun(init[i].account, init[i].actual, init[i].goal[j]) is None);
                } else {
                    assert(overrun(rows[n].account, rows[n].actual, rows[n].goal[j]) is None);
                }
            }
        }
        if forall|i: int, j: int|
            0 <= i < rows.len() && 0 <= j < rows[i].goal.len() ==> overrun(
                rows[i].account,
                rows[i].actual,
                #[trigger] rows[i].goal[j],
            ) is None {
            assert forall|i: int, j: int| 0 <= i < init.len() && 0 <= j < init[i].goal.len() implies overrun(
                init[i].account,
                init[i].actual,
                #[trigger] init[i].goal[j],
            ) is None by {
                assert(overrun(rows[i].account, rows[i].actual, rows[i].goal[j]) is None);
            }
            assert forall|j: int| 0 <= j < rows[n].goal.len() implies overrun(
                rows[n].account,
                rows[n].actual,
                #[trigger] rows[n].goal[j],
            ) is None by {}
        }
    }
}

proof fn lemma_overruns(account: Seq<char>, actual: Seq<AmountView>, goals: Seq<AmountView>)
    ensures
        overruns(account, actual, goals).len() == 0 <==> forall|j: int|
            0 <= j < goals.len() ==> overrun(account, actual, #[trigger] goals[j]) is None,
    decreases goals.len(),
{
    if goals.len() > 0 {
        let init = goals.drop_last();
        lemma_overruns(account, actual, init);
        assert(forall|j: int| 0 <= j < init.len() ==> #[trigger] init[j] == goals[j]);
        if overruns(account, actual, goals).len() == 0 {
            assert forall|j: int| 0 <= j < goals.len() implies overrun(account, actual, #[trigger] goals[j]) is None by {
                if j < init.len() {
                    assert(overrun(account, actual, init[j]) is None);
                }
            }
        }
    }
}

/// There is a flag exactly where a payable is overdue.
pub proof fn law_overdue_flags_are_exact(entries: Seq<ApAgingView>)
    ensures
        overdue(entries).len() == 0 <==> forall|i: int|
            0 <= i < entries.len() ==> (#[trigger] entries[i]).age != Some(AgeCategory::Over90Days),
    decreases entries.len(),
{
    if entries.len() > 0 {
        let init = entries.drop_last();
        law_overdue_flags_are_exact(init);
        assert(forall|i: int| 0 <= i < init.len() ==> #[trigger] init[i] == entries[i]);
        if overdue(entries).len() == 0 {
            assert forall|i: int| 0 <= i < entries.len() implies (#[trigger] entries[i]).age != Some(
                AgeCategory::Over90Days,
            ) by {
                if i < init.len() {
                    assert(init[i].age != Some(AgeCategory::Over90Days));
                }
            }
        }
    }
}

// ---------------------------------------------------------------------------
// Every flag, and no other
// ---------------------------------------------------------------------------

/// Is the goal exceeded: is it above zero, and is the first amount in its commodity, the one at
/// `k`, larger? Two quantities are compared by cross-multiplying with their units.
pub open spec fn is_exceeded_by(actual: Seq<AmountView>, goal: AmountView, k: int) -> bool {
    &&& goal.quantity.mantissa > 0
    &&& 0 <= k < actual.len()
    &&& actual[k].commodity == goal.commodity
    &&& forall|m: int| 0 <= m < k ==> (#[trigger] actual[m]).commodity != goal.commodity
    &&& actual[k].quantity.mantissa * pow10(goal.quantity.places as nat) > goal.quantity.mantissa * pow10(
        actual[k].quantity.places as nat,
    )
}

/// Is the goal exceeded?
pub open spec fn is_exceeded(actual: Seq<AmountView>, goal: AmountView) -> bool {
    exists|k: int| is_exceeded_by(actual, goal, k)
}

/// A number of one for what is so, and of zero for what is not.
pub open spec fn one_if(b: bool) -> int {
    if b {
        1
    } else {
        0
    }
}

/// For each of the goals, one where it is exceeded.
pub open spec fn exceeded_counts(row: BudgetRowView) -> Seq<int> {
    Seq::new(row.goal.len(), |j: int| one_if(is_exceeded(row.actual, row.goal[j])))
}

/// For each of the rows, the number of its goals that are exceeded.
pub open spec fn overrun_counts(rows: Seq<BudgetRowView>) -> Seq<int> {
    Seq::new(rows.len(), |i: int| total(exceeded_counts(rows[i])))
}

proof fn lemma_more_is_more(a: Quantity, b: Quantity)
    ensures
        is_more(a, b) <==> a.mantissa * pow10(b.places as nat) > b.mantissa * pow10(a.places as nat),
{
    let p = common_places(a, b) as nat;
    let x = pow10((p - a.places) as nat);
    let y = pow10((p - b.places) as nat);
    let low: nat = if a.places >= b.places {
        b.places as nat
    } else {
        a.places as nat
    };
    let k = pow10(low);
    lemma_pow10_positive(low);
    lemma_pow10_add((p - a.places) as nat, low);
    lemma_pow10_add((p - b.places) as nat, low);
    // At the places that both share, each side has the other's places more.
    assert((p - a.places) + low == b.places);
    assert((p - b.places) + low == a.places);
    let m = a.mantissa as int;
    let n = b.mantissa as int;
    assert(m * (x * k) == (m * x) * k) by (nonlinear_arith);
    assert(n * (y * k) == (n * y) * k) by (nonlinear_arith);
    let s = m * x;
    let t = n * y;
    assert(s > t <==> s * k > t * k) by (nonlinear_arith)
        requires
            k >= 1,
    ;
}

proof fn lemma_first_amount(amounts: Seq<AmountView>, commodity: Seq<char>)
    ensures
        match amount_in(amounts, commodity) {
            Some(a) => exists|k: int|
                0 <= k < amounts.len() && #[trigger] amounts[k] == a && a.commodity == commodity && forall|m: int|
                    0 <= m < k ==> (#[trigger] amounts[m]).commodity != commodity,
            None => forall|m: int| 0 <= m < amounts.len() ==> (#[trigger] amounts[m]).commodity != commodity,
        },
    decreases amounts.len(),
{
    if amounts.len() > 0 {
        if amounts[0].commodity == commodity {
            assert(amounts[0] == amounts[0]);
        } else {
            let rest = amounts.skip(1);
            lemma_first_amount(rest, commodity);
            match amount_in(rest, commodity) {
                Some(a) => {
                    let k = choose|k: int|
                        0 <= k < rest.len() && #[trigger] rest[k] == a && a.commodity == commodity && forall|m: int|
                            0 <= m < k ==> (#[trigger] rest[m]).commodity != commodity;
                    assert(amounts[k + 1] == a);
                    assert forall|m: int| 0 <= m < k + 1 implies (#[trigger] amounts[m]).commodity != commodity by {
                        if m > 0 {
                            assert(rest[m - 1] == amounts[m]);
                        }
                    }
                },
                None => {
                    assert forall|m: int| 0 <= m < amounts.len() implies (#[trigger] amounts[m]).commodity
                        != commodity by {
                        if m > 0 {
                            assert(rest[m - 1] == amounts[m]);
                        }
                    }
                },
            }
        }
    }
}

/// A goal raises a flag exactly where it is exceeded, and the flag is for over-budget, on the
/// account, with the two amounts.
proof fn lemma_overrun(account: Seq<char>, actual: Seq<AmountView>, goal: AmountView)
    ensures
        overrun(account, actual, goal) is Some <==> is_exceeded(actual, goal),
        overrun(account, actual, goal) matches Some(f) ==> f.kind == FlagKind::OverBudget && f.account == account
            && exists|k: int| #[trigger]
            is_exceeded_by(actual, goal, k) && f.detail == "actual "@ + amount_text(actual[k]) + " > budget "@ + amount_text(
                goal,
            ),
{
    lemma_first_amount(actual, goal.commodity);
    match amount_in(actual, goal.commodity) {
        Some(spent) => {
            let k = choose|k: int|
                0 <= k < actual.len() && #[trigger] actual[k] == spent && spent.commodity == goal.commodity && forall|
                    m: int,
                |
                    0 <= m < k ==> (#[trigger] actual[m]).commodity != goal.commodity;
            lemma_more_is_more(spent.quantity, goal.quantity);
            assert(is_exceeded_by(actual, goal, k) <==> overrun(account, actual, goal) is Some);
            if is_exceeded(actual, goal) {
                let w = choose|w: int| is_exceeded_by(actual, goal, w);
                assert(w == k) by {
                    if w < k {
                        assert(actual[w].commodity != goal.commodity);
                    } else if k < w {
                        assert(actual[k].commodity != goal.commodity);
                    }
                }
            }
        },
        None => {
            if is_exceeded(actual, goal) {
                let w = choose|w: int| is_exceeded_by(actual, goal, w);
                assert(actual[w].commodity != goal.commodity);
            }
        },
    }
}

proof fn lemma_overruns_of_goals(row: BudgetRowView, n: int)
    requires
        0 <= n <= row.goal.len(),
    ensures
        overruns(row.account, row.actual, row.goal.take(n)).len() == total(exceeded_counts(row).take(n)),
        forall|j: int|
            0 <= j < n && is_exceeded(row.actual, #[trigger] row.goal[j]) ==> is_flagged(
                overruns(row.account, row.actual, row.goal.take(n)),
                row,
                j,
            ),
    decreases n,
{
    let counts = exceeded_counts(row);
    if n == 0 {
        assert(counts.take(0).len() == 0);
    } else {
        lemma_overruns_of_goals(row, n - 1);
        let goal = row.goal[n - 1];
        lemma_overrun(row.account, row.actual, goal);
        assert(row.goal.take(n).drop_last() =~= row.goal.take(n - 1));
        assert(row.goal.take(n).last() == goal);
        assert(counts.take(n).drop_last() =~= counts.take(n - 1));
        assert(counts.take(n).last() == counts[n - 1]);
        let before = overruns(row.account, row.actual, row.goal.take(n - 1));
        let all = overruns(row.account, row.actual, row.goal.take(n));
        assert forall|j: int| 0 <= j < n && is_exceeded(row.actual, #[trigger] row.goal[j]) implies is_flagged(
            all,
            row,
            j,
        ) by {
            if j < n - 1 {
                let f = choose|f: int| 0 <= f < before.len() && is_flag_for(#[trigger] before[f], row, j);
                assert(all[f] == before[f]);
            } else {
                assert(is_flag_for(all[all.len() - 1], row, j));
            }
        }
    }
}

/// Is it the flag for this goal of the row: for over-budget, on the account of the row, with
/// what was spent and the goal?
pub open spec fn is_flag_for(f: FlagView, row: BudgetRowView, j: int) -> bool {
    &&& f.kind == FlagKind::OverBudget
    &&& f.account == row.account
    &&& exists|k: int| #[trigger]
        is_exceeded_by(row.actual, row.goal[j], k) && f.detail == "actual "@ + amount_text(row.actual[k])
            + " > budget "@ + amount_text(row.goal[j])
}

/// Is there a flag for this goal of the row?
pub open spec fn is_flagged(flags: Seq<FlagView>, row: BudgetRowView, j: int) -> bool {
    exists|f: int| 0 <= f < flags.len() && is_flag_for(#[trigger] flags[f], row, j)
}

/// Every goal above zero that is exceeded raises a flag of its own, and nothing else does. For
/// each row and each goal of it that is exceeded there is a flag for over-budget on the account
/// of the row, with the two amounts; there are as many flags as such goals; and the flags of two
/// lists of rows are those of the one and then those of the other.
pub proof fn law_every_overrun_is_flagged(rows: Seq<BudgetRowView>, more: Seq<BudgetRowView>)
    ensures
        report_overruns(rows).len() == total(overrun_counts(rows)),
        forall|i: int, j: int|
            0 <= i < rows.len() && 0 <= j < rows[i].goal.len() && is_exceeded(
                rows[i].actual,
                #[trigger] rows[i].goal[j],
            ) ==> is_flagged(report_overruns(rows), rows[i], j),
        report_overruns(rows + more) == report_overruns(rows) + report_overruns(more),
{
    lemma_overruns_counted(rows);
    lemma_overruns_concat(rows, more);
}

proof fn lemma_overruns_counted(rows: Seq<BudgetRowView>)
    ensures
        report_overruns(rows).len() == total(overrun_counts(rows)),
        forall|i: int, j: int|
            0 <= i < rows.len() && 0 <= j < rows[i].goal.len() && is_exceeded(
                rows[i].actual,
                #[trigger] rows[i].goal[j],
            ) ==> is_flagged(report_overruns(rows), rows[i], j),
    decreases rows.len(),
{
    if rows.len() > 0 {
        let init = rows.drop_last();
        let row = rows.last();
        let n = row.goal.len() as int;
        lemma_overruns_counted(init);
        lemma_overruns_of_goals(row, n);
        assert(row.goal.take(n) =~= row.goal);
        assert(exceeded_counts(row).take(n) =~= exceeded_counts(row));
        assert(overrun_counts(rows).drop_last() =~= overrun_counts(init));
        let before = report_overruns(init);
        let own = overruns(row.account, row.actual, row.goal);
        let all = report_overruns(rows);
        assert(all == before + own);
        assert forall|i: int, j: int|
            0 <= i < rows.len() && 0 <= j < rows[i].goal.len() && is_exceeded(
                rows[i].actual,
                #[trigger] rows[i].goal[j],
            ) implies is_flagged(all, rows[i], j) by {
            if i < init.len() {
                assert(init[i] == rows[i]);
                assert(is_exceeded(init[i].actual, init[i].goal[j]));
                let f = choose|f: int| 0 <= f < before.len() && is_flag_for(#[trigger] before[f], rows[i], j);
                assert(all[f] == before[f]);
            } else {
                assert(rows[i] == row);
                assert(is_exceeded(row.actual, row.goal[j]));
                let f = choose|f: int| 0 <= f < own.len() && is_flag_for(#[trigger] own[f], row, j);
                assert(all[before.len() + f] == own[f]);
            }
        }
    }
}

proof fn lemma_overruns_concat(a: Seq<BudgetRowView>, b: Seq<BudgetRowView>)
    ensures
        report_overruns(a + b) == report_overruns(a) + report_overruns(b),
    decreases b.len(),
{
    if b.len() == 0 {
        assert(a + b =~= a);
        assert(report_overruns(a) + report_overruns(b) =~= report_overruns(a));
    } else {
        lemma_overruns_concat(a, b.drop_last());
        assert((a + b).drop_last() =~= a + b.drop_last());
        assert(report_overruns(a + b) =~= report_overruns(a) + report_overruns(b));
    }
}

/// Is the account `assets` or one below it?
pub open spec fn is_below_assets(account: Seq<char>) -> bool {
    account == "assets"@ || (account.len() >= 7 && account.take(7) == "assets:"@)
}

/// For each of the amounts of an account below assets, one where it is below zero.
pub open spec fn negative_counts(row: AccountBalanceView) -> Seq<int> {
    Seq::new(
        row.amounts.len(),
        |j: int| one_if(is_below_assets(row.account) && row.amounts[j].quantity.mantissa < 0),
    )
}

/// For each of the rows, the number of its amounts that are overdrawn.
pub open spec fn overdraft_counts(rows: Seq<AccountBalanceView>) -> Seq<int> {
    Seq::new(rows.len(), |i: int| total(negative_counts(rows[i])))
}

/// Is it the flag for this amount of an account: for an overdraft, on the account, with the
/// amount?
pub open spec fn is_overdraft_flag(f: FlagView, row: AccountBalanceView, j: int) -> bool {
    f.kind == FlagKind::Overdraft && f.account == row.account && f.detail == "balance "@ + amount_text(row.amounts[j])
}

/// Is there a flag for this amount of an account?
pub open spec fn is_overdrawn_in(flags: Seq<FlagView>, row: AccountBalanceView, j: int) -> bool {
    exists|f: int| 0 <= f < flags.len() && is_overdraft_flag(#[trigger] flags[f], row, j)
}

proof fn lemma_overdrafts_counted(account: Seq<char>, row: AccountBalanceView, n: int)
    requires
        0 <= n <= row.amounts.len(),
        account == row.account,
        is_below_assets(account),
    ensures
        overdrafts(account, row.amounts.take(n)).len() == total(negative_counts(row).take(n)),
        forall|j: int|
            0 <= j < n && (#[trigger] row.amounts[j]).quantity.mantissa < 0 ==> is_overdrawn_in(
                overdrafts(account, row.amounts.take(n)),
                row,
                j,
            ),
    decreases n,
{
    let counts = negative_counts(row);
    if n == 0 {
        assert(counts.take(0).len() == 0);
    } else {
        lemma_overdrafts_counted(account, row, n - 1);
        assert(row.amounts.take(n).drop_last() =~= row.amounts.take(n - 1));
        assert(row.amounts.take(n).last() == row.amounts[n - 1]);
        assert(counts.take(n).drop_last() =~= counts.take(n - 1));
        assert(counts.take(n).last() == counts[n - 1]);
        let before = overdrafts(account, row.amounts.take(n - 1));
        let all = overdrafts(account, row.amounts.take(n));
        assert forall|j: int| 0 <= j < n && (#[trigger] row.amounts[j]).quantity.mantissa < 0 implies is_overdrawn_in(
            all,
            row,
            j,
        ) by {
            if j < n - 1 {
                let f = choose|f: int| 0 <= f < before.len() && is_overdraft_flag(#[trigger] before[f], row, j);
                assert(all[f] == before[f]);
            } else {
                assert(is_overdraft_flag(all[all.len() - 1], row, j));
            }
        }
    }
}

/// Every amount below zero on an account below assets raises a flag of its own, and nothing else
/// does: for each there is a flag for an overdraft on the account with the amount, there are as
/// many flags as such amounts, and the flags of two lists of balances are those of the one and
/// then those of the other.
pub proof fn law_every_overdraft_is_flagged(rows: Seq<AccountBalanceView>, more: Seq<AccountBalanceView>)
    ensures
        report_overdrafts(rows).len() == total(overdraft_counts(rows)),
        forall|i: int, j: int|
            0 <= i < rows.len() && 0 <= j < rows[i].amounts.len() && is_below_assets(rows[i].account) && (
            #[trigger] rows[i].amounts[j]).quantity.mantissa < 0 ==> is_overdrawn_in(
                report_overdrafts(rows),
                rows[i],
                j,
            ),
        report_overdrafts(rows + more) == report_overdrafts(rows) + report_overdrafts(more),
{
    lemma_report_overdrafts(rows);
    lemma_overdrafts_concat(rows, more);
}

proof fn lemma_report_overdrafts(rows: Seq<AccountBalanceView>)
    ensures
        report_overdrafts(rows).len() == total(overdraft_counts(rows)),
        forall|i: int, j: int|
            0 <= i < rows.len() && 0 <= j < rows[i].amounts.len() && is_below_assets(rows[i].account) && (
            #[trigger] rows[i].amounts[j]).quantity.mantissa < 0 ==> is_overdrawn_in(
                report_overdrafts(rows),
                rows[i],
                j,
            ),
    decreases rows.len(),
{
    if rows.len() > 0 {
        let init = rows.drop_last();
        let row = rows.last();
        let n = row.amounts.len() as int;
        lemma_report_overdrafts(init);
        assert(overdraft_counts(rows).drop_last() =~= overdraft_counts(init));
        reveal_strlit("assets:");
        assert(is_below_assets(row.account) == is_asset_account(row.account));
        let before = report_overdrafts(init);
        let all = report_overdrafts(rows);
        if is_below_assets(row.account) {
            lemma_overdrafts_counted(row.account, row, n);
            assert(row.amounts.take(n) =~= row.amounts);
            assert(negative_counts(row).take(n) =~= negative_counts(row));
        } else {
            lemma_total_of_zeros(negative_counts(row));
        }
        assert forall|i: int, j: int|
            0 <= i < rows.len() && 0 <= j < rows[i].amounts.len() && is_below_assets(rows[i].account) && (
            #[trigger] rows[i].amounts[j]).quantity.mantissa < 0 implies is_overdrawn_in(all, rows[i], j) by {
            if i < init.len() {
                assert(init[i] == rows[i]);
                assert(init[i].amounts[j].quantity.mantissa < 0);
                let f = choose|f: int| 0 <= f < before.len() && is_overdraft_flag(#[trigger] before[f], rows[i], j);
                assert(all[f] == before[f]);
            } else {
                assert(rows[i] == row);
                let own = overdrafts(row.account, row.amounts);
                assert(row.amounts[j].quantity.mantissa < 0);
                let f = choose|f: int| 0 <= f < own.len() && is_overdraft_flag(#[trigger] own[f], row, j);
                assert(all[before.len() + f] == own[f]);
            }
        }
    }
}

proof fn lemma_overdrafts_concat(a: Seq<AccountBalanceView>, b: Seq<AccountBalanceView>)
    ensures
        report_overdrafts(a + b) == report_overdrafts(a) + report_overdrafts(b),
    decreases b.len(),
{
    if b.len() == 0 {
        assert(a + b =~= a);
        assert(report_overdrafts(a) + report_overdrafts(b) =~= report_overdrafts(a));
    } else {
        lemma_overdrafts_concat(a, b.drop_last());
        assert((a + b).drop_last() =~= a + b.drop_last());
        assert(report_overdrafts(a + b) =~= report_overdrafts(a) + report_overdrafts(b));
    }
}

/// Every overdue payable raises a flag of its own, and nothing else does: the flags of two lists
/// of entries are those of the one and then those of the other; an entry that is overdue raises
/// one, on its account, with what is outstanding and since when, and any other entry none.
pub proof fn law_every_overdue_payable_is_flagged(a: Seq<ApAgingView>, b: Seq<ApAgingView>, e: ApAgingView)
    ensures
        overdue(a + b) == overdue(a) + overdue(b),
        overdue(Seq::empty()).len() == 0,
        overdue(seq![e]).len() == one_if(e.age == Some(AgeCategory::Over90Days)),
        e.age == Some(AgeCategory::Over90Days) ==> ({
            let f = overdue(seq![e])[0];
            &&& f.kind == FlagKind::ApAging
            &&& f.account == e.vendor_account
            &&& f.detail == "outstanding "@ + amounts_text(e.outstanding) + " since "@ + match e.oldest_invoice_date {
                Some(d) => civil_text(d),
                None => "(unknown)"@,
            } + " (90+ days overdue)"@
        }),
    decreases b.len(),
{
    if b.len() == 0 {
        assert(a + b =~= a);
        assert(overdue(a) + overdue(b) =~= overdue(a));
    } else {
        law_every_overdue_payable_is_flagged(a, b.drop_last(), e);
        assert((a + b).drop_last() =~= a + b.drop_last());
        assert(overdue(a + b) =~= overdue(a) + overdue(b));
    }
    let one = seq![e];
    assert(one.drop_last() =~= Seq::<ApAgingView>::empty());
    assert(overdue(one.drop_last()).len() == 0);
    assert(one.last() == e);
}

/// The flags are written one on a line, each with its kind, its account and its detail.
pub proof fn law_flags_text_lists_each(a: Seq<FlagView>, f: FlagView)
    ensures
        ({
            let line = "flag "@ + match f.kind {
                FlagKind::Overdraft => "overdraft"@,
                FlagKind::ApAging => "ap-aging"@,
                FlagKind::OverBudget => "over-budget"@,
            } + ": "@ + f.account + " "@ + f.detail;
            &&& flags_text(a.push(f)) == if a.len() == 0 {
                line
            } else {
                flags_text(a) + "\n"@ + line
            }
            &&& flags_text(Seq::empty()).len() == 0
        }),
{
    let all = a.push(f);
    let lines = Seq::new(all.len(), |i: int| flag_text(all[i]));
    assert(lines.drop_last() =~= Seq::new(a.len(), |i: int| flag_text(a[i])));
    assert(lines.last() == flag_text(f));
}

} // verus!
