//! The budget file.
//!
//! A budget rule is a directive, not a transaction: a second rule for the same account and
//! period would add to the first one. So the rules stand in a file of their own beside the
//! journal, which is replaced as a whole; its history is in the repository. The journal
//! gains one line that names the file, the first time a budget is set.

use vstd::prelude::*;

use crate::hledger::word_length;
use crate::hledger::amount::{
    Quantity, law_quantity_text_is_lossless, lemma_quantity_chars, quantity_of, quantity_text,
};
use crate::path::{join_path, path_join};
use crate::text::{
    cat, cat3, chars_of, find, find_from, has_prefix, is_line, is_white, is_whitespace,
    lemma_find_unique, lemma_lines_of_terminated, lemma_terminated_concat, lemma_terminated_front,
    lines, same, split_lines, starts_with, terminated, text_of, texts, trim_start, trimmed_start,
};
use crate::write::{WriteError, debug_text, is_internal_error, journal_dir, quoted, repo_dir};

verus! {

/// The name of the budget file.
pub const BUDGET_FILE: &'static str = "budget.journal";

/// The periods for which a goal can be set.
#[derive(Debug, Clone, Copy, PartialEq, Eq, Structural)]
pub enum BudgetPeriod {
    Daily,
    Weekly,
    Monthly,
    Quarterly,
    Yearly,
}

/// The word for a period.
pub open spec fn period_word(p: BudgetPeriod) -> Seq<char> {
    match p {
        BudgetPeriod::Daily => "daily"@,
        BudgetPeriod::Weekly => "weekly"@,
        BudgetPeriod::Monthly => "monthly"@,
        BudgetPeriod::Quarterly => "quarterly"@,
        BudgetPeriod::Yearly => "yearly"@,
    }
}

/// The period with this word.
pub open spec fn period_of(s: Seq<char>) -> Option<BudgetPeriod> {
    if s == "daily"@ {
        Some(BudgetPeriod::Daily)
    } else if s == "weekly"@ {
        Some(BudgetPeriod::Weekly)
    } else if s == "monthly"@ {
        Some(BudgetPeriod::Monthly)
    } else if s == "quarterly"@ {
        Some(BudgetPeriod::Quarterly)
    } else if s == "yearly"@ {
        Some(BudgetPeriod::Yearly)
    } else {
        None
    }
}

impl BudgetPeriod {
    /// The word for the period, as hledger reads it.
    pub fn keyword(self) -> (r: &'static str)
        ensures
            r@ == period_word(self),
    {
        match self {
            BudgetPeriod::Daily => "daily",
            BudgetPeriod::Weekly => "weekly",
            BudgetPeriod::Monthly => "monthly",
            BudgetPeriod::Quarterly => "quarterly",
            BudgetPeriod::Yearly => "yearly",
        }
    }

    /// The period with this word.
    pub fn from_keyword(s: &str) -> (r: Option<Self>)
        ensures
            r == period_of(s@),
    {
        if same(s, "daily") {
            Some(BudgetPeriod::Daily)
        } else if same(s, "weekly") {
            Some(BudgetPeriod::Weekly)
        } else if same(s, "monthly") {
            Some(BudgetPeriod::Monthly)
        } else if same(s, "quarterly") {
            Some(BudgetPeriod::Quarterly)
        } else if same(s, "yearly") {
            Some(BudgetPeriod::Yearly)
        } else {
            None
        }
    }

    /// The word for the period.
    pub fn to_string(self) -> (r: String)
        ensures
            r@ == period_word(self),
    {
        self.keyword().to_owned()
    }
}

/// The word for a period stands for it.
pub proof fn law_period_word_round_trip(p: BudgetPeriod)
    ensures
        period_of(period_word(p)) == Some(p),
{
    reveal_strlit("daily");
    reveal_strlit("weekly");
    reveal_strlit("monthly");
    reveal_strlit("quarterly");
    reveal_strlit("yearly");
    assert("daily"@[0] == 'd' && "weekly"@[0] == 'w' && "monthly"@[0] == 'm' && "quarterly"@[0] == 'q' && "yearly"@[0]
        == 'y');
}

/// A goal for one account and one period.
#[derive(Debug, PartialEq, Eq)]
pub struct BudgetRule {
    pub account: String,
    pub period: BudgetPeriod,
    pub quantity: Quantity,
    pub commodity: String,
}

/// What a [`BudgetRule`] holds.
#[verifier::ext_equal]
pub struct BudgetRuleView {
    pub account: Seq<char>,
    pub period: BudgetPeriod,
    pub quantity: Quantity,
    pub commodity: Seq<char>,
}

impl View for BudgetRule {
    type V = BudgetRuleView;

    open spec fn view(&self) -> BudgetRuleView {
        BudgetRuleView {
            account: self.account@,
            period: self.period,
            quantity: self.quantity,
            commodity: self.commodity@,
        }
    }
}

impl Clone for BudgetRule {
    fn clone(&self) -> (r: Self)
        ensures
            r@ == self@,
    {
        BudgetRule {
            account: self.account.clone(),
            period: self.period,
            quantity: self.quantity,
            commodity: self.commodity.clone(),
        }
    }
}

/// What a list of rules holds.
pub open spec fn rules_view(v: Seq<BudgetRule>) -> Seq<BudgetRuleView> {
    Seq::new(v.len(), |i: int| v[i]@)
}

// ---------------------------------------------------------------------------
// The file as text
// ---------------------------------------------------------------------------

/// The line with the goal of a rule.
pub open spec fn goal_line(r: BudgetRuleView) -> Seq<char> {
    "    "@ + r.account + "  "@ + quantity_text(r.quantity) + " "@ + r.commodity
}

/// The line that opens a rule.
pub open spec fn period_line(p: BudgetPeriod) -> Seq<char> {
    "~ "@ + period_word(p) + "  ; budget:"@
}

/// The lines of one rule: an empty one, the period, the goal, and the account that balances
/// it.
pub open spec fn rule_lines(r: BudgetRuleView) -> Seq<Seq<char>> {
    seq![Seq::empty(), period_line(r.period), goal_line(r), "    equity:budget"@]
}

/// The lines of the rules, one after the other.
pub open spec fn rules_lines(rules: Seq<BudgetRuleView>) -> Seq<Seq<char>>
    decreases rules.len(),
{
    if rules.len() == 0 {
        Seq::empty()
    } else {
        rules_lines(rules.drop_last()) + rule_lines(rules.last())
    }
}

/// The lines of the budget file: a comment, the declaration of the balancing account, and
/// the rules.
pub open spec fn budget_lines(rules: Seq<BudgetRuleView>) -> Seq<Seq<char>> {
    seq![
        "; hledger-mcp budget — managed by budget_set; replaced wholesale (history in git)."@,
        "account equity:budget"@,
    ] + rules_lines(rules)
}

/// The budget file with these rules.
pub open spec fn budget_file(rules: Seq<BudgetRuleView>) -> Seq<char> {
    terminated(budget_lines(rules))
}

/// Puts a line at the end of the text.
fn push_line(out: &mut String, line: &str)
    ensures
        final(out)@ == old(out)@ + line@ + seq!['\n'],
{
    out.append(line);
    out.push('\n');
    assert(final(out)@ =~= old(out)@ + line@ + seq!['\n']);
}

/// The budget file with these rules.
pub fn render_budget_file(rules: &[BudgetRule]) -> (r: String)
    ensures
        r@ == budget_file(rules_view(rules@)),
{
    let ghost all = rules_view(rules@);
    let ghost head = seq![
        "; hledger-mcp budget — managed by budget_set; replaced wholesale (history in git)."@,
        "account equity:budget"@,
    ];
    let mut out: String = String::new();
    push_line(&mut out, "; hledger-mcp budget — managed by budget_set; replaced wholesale (history in git).");
    push_line(&mut out, "account equity:budget");
    proof {
        lemma_terminated_two(head);
        assert(out@ =~= terminated(head));
        assert(head + rules_lines(all.take(0)) =~= head);
    }
    let mut i: usize = 0;
    while i < rules.len()
        invariant
            i <= rules.len(),
            all == rules_view(rules@),
            out@ == terminated(head + rules_lines(all.take(i as int))),
        decreases rules.len() - i,
    {
        let rule: &BudgetRule = &rules[i];
        let ghost before = out@;
        let opening: String = cat3("~ ", rule.period.keyword(), "  ; budget:");
        let mut goal: String = cat3("    ", &rule.account, "  ");
        goal.append(&rule.quantity.render());
        goal.append(" ");
        goal.append(&rule.commodity);
        push_line(&mut out, "");
        push_line(&mut out, &opening);
        push_line(&mut out, &goal);
        push_line(&mut out, "    equity:budget");
        proof {
            reveal_strlit("");
            let block = rule_lines(all[i as int]);
            lemma_terminated_four(block);
            assert(block[0] =~= ""@);
            assert(out@ =~= before + terminated(block));
            assert(all.take(i + 1).drop_last() =~= all.take(i as int));
            assert(all.take(i + 1).last() == all[i as int]);
            lemma_terminated_concat(head + rules_lines(all.take(i as int)), block);
            assert(head + rules_lines(all.take(i + 1)) =~= (head + rules_lines(all.take(i as int))) + block);
        }
        i += 1;
    }
    assert(all.take(i as int) =~= all);
    out
}

proof fn lemma_terminated_two(s: Seq<Seq<char>>)
    requires
        s.len() == 2,
    ensures
        terminated(s) == s[0] + seq!['\n'] + s[1] + seq!['\n'],
{
    lemma_terminated_front(s);
    lemma_terminated_front(s.skip(1));
    assert(terminated(s.skip(1).skip(1)).len() == 0);
    assert(terminated(s) =~= s[0] + seq!['\n'] + s[1] + seq!['\n']);
}

proof fn lemma_terminated_four(s: Seq<Seq<char>>)
    requires
        s.len() == 4,
    ensures
        terminated(s) == s[0] + seq!['\n'] + s[1] + seq!['\n'] + s[2] + seq!['\n'] + s[3] + seq!['\n'],
{
    lemma_terminated_two(s.take(2));
    lemma_terminated_two(s.skip(2));
    lemma_terminated_concat(s.take(2), s.skip(2));
    assert(s =~= s.take(2) + s.skip(2));
    assert(terminated(s) =~= s[0] + seq!['\n'] + s[1] + seq!['\n'] + s[2] + seq!['\n'] + s[3] + seq!['\n']);
}

/// Where the last two spaces in a row start, or -1 where there are none.
pub open spec fn last_gap(s: Seq<char>) -> int
    decreases s.len(),
{
    if s.len() < 2 {
        -1
    } else if s[s.len() - 2] == ' ' && s[s.len() - 1] == ' ' {
        s.len() - 2
    } else {
        last_gap(s.drop_last())
    }
}

/// The account, quantity and commodity of a goal line: the account stands before its last
/// two spaces in a row, the quantity up to the next space, the commodity behind it.
pub open spec fn goal_of(line: Seq<char>) -> Option<(Seq<char>, Quantity, Seq<char>)> {
    let t = trim_start(line);
    let k = last_gap(t);
    let amount = t.skip(k + 2);
    let j = find(amount, ' ');
    if k < 0 || j == amount.len() {
        None
    } else {
        match quantity_of(amount.take(j)) {
            Some(q) => Some((t.take(k), q, amount.skip(j + 1))),
            None => None,
        }
    }
}

/// The period that a line opens a rule for, where it is such a line.
pub open spec fn opened_period(line: Seq<char>) -> Option<BudgetPeriod> {
    let t = trim_start(line.skip(2));
    period_of(t.take(word_length(t)))
}

/// The rules in the lines, or the first line that is malformed. A line that opens a rule is
/// followed by its goal; every other line is passed over.
pub open spec fn rules_in(all: Seq<Seq<char>>) -> Result<Seq<BudgetRuleView>, Seq<char>>
    decreases all.len(),
{
    if all.len() == 0 {
        Ok(Seq::empty())
    } else if !starts_with(all[0], "~ "@) {
        rules_in(all.skip(1))
    } else if opened_period(all[0]) is None || all.len() < 2 {
        Err(all[0])
    } else {
        match goal_of(all[1]) {
            None => Err(all[1]),
            Some(goal) => match rules_in(all.skip(2)) {
                Err(line) => Err(line),
                Ok(rest) => Ok(
                    seq![
                        BudgetRuleView {
                            account: goal.0,
                            period: opened_period(all[0])->0,
                            quantity: goal.1,
                            commodity: goal.2,
                        },
                    ] + rest,
                ),
            },
        }
    }
}

/// The error for a line that is malformed.
pub open spec fn malformed_message(line: Seq<char>) -> Seq<char> {
    "malformed budget file line: "@ + debug_text(line)
}

fn malformed(line: &str) -> (r: WriteError)
    ensures
        is_internal_error(r, malformed_message(line@)),
{
    WriteError::Internal(cat("malformed budget file line: ", &quoted(line)))
}

fn read_period(line: &str) -> (r: Option<BudgetPeriod>)
    requires
        line@.len() >= 2,
    ensures
        r == opened_period(line@),
{
    let cs: Vec<char> = chars_of(line);
    let rest: String = text_of(&cs, 2, cs.len());
    assert(rest@ =~= line@.skip(2));
    let t: String = trimmed_start(&rest);
    let ts: Vec<char> = chars_of(&t);
    let mut k: usize = 0;
    assert(t@.skip(0) =~= t@);
    while k < ts.len() && !is_whitespace(ts[k])
        invariant
            k <= ts.len(),
            ts@ == t@,
            word_length(t@) == k + word_length(t@.skip(k as int)),
        decreases ts.len() - k,
    {
        proof {
            assert(t@.skip(k as int).skip(1) =~= t@.skip(k + 1));
        }
        k += 1;
    }
    let word: String = text_of(&ts, 0, k);
    assert(word@ =~= t@.take(k as int));
    BudgetPeriod::from_keyword(&word)
}

fn read_goal(line: &str) -> (r: Option<(String, Quantity, String)>)
    ensures
        match r {
            Some((account, quantity, commodity)) => goal_of(line@) == Some((account@, quantity, commodity@)),
            None => goal_of(line@) is None,
        },
{
    let t: String = trimmed_start(line);
    let cs: Vec<char> = chars_of(&t);
    let mut n: usize = cs.len();
    assert(t@.take(n as int) =~= t@);
    while n >= 2 && !(cs[n - 2] == ' ' && cs[n - 1] == ' ')
        invariant
            n <= cs.len(),
            cs@ == t@,
            last_gap(t@.take(n as int)) == last_gap(t@),
        decreases n,
    {
        proof {
            assert(t@.take(n as int).drop_last() =~= t@.take(n - 1));
        }
        n -= 1;
    }
    if n < 2 {
        return None;
    }
    let j: usize = find_from(&cs, n, ' ');
    let ghost amount = t@.skip(n as int);
    if j == cs.len() {
        return None;
    }
    let account: String = text_of(&cs, 0, n - 2);
    let number: String = text_of(&cs, n, j);
    let commodity: String = text_of(&cs, j + 1, cs.len());
    proof {
        assert(account@ =~= t@.take(n - 2));
        assert(number@ =~= amount.take(j - n));
        assert(commodity@ =~= amount.skip(j - n + 1));
    }
    match Quantity::parse(&number) {
        Some(quantity) => Some((account, quantity, commodity)),
        None => None,
    }
}

/// The rules in a budget file.
pub fn parse_budget_file(text: &str) -> (r: Result<Vec<BudgetRule>, WriteError>)
    ensures
        match r {
            Ok(rules) => rules_in(lines(text@)) == Ok::<Seq<BudgetRuleView>, Seq<char>>(rules_view(rules@)),
            Err(e) => rules_in(lines(text@)) matches Err(line) && is_internal_error(e, malformed_message(line)),
        },
{
    let all: Vec<String> = split_lines(text);
    let ghost ls = texts(all@);
    let mut rules: Vec<BudgetRule> = Vec::new();
    let mut i: usize = 0;
    proof {
        assert(ls.skip(0) =~= ls);
        lemma_prepend_nothing(ls);
        assert(rules_view(rules@) =~= Seq::empty());
    }
    while i < all.len()
        invariant
            i <= all.len(),
            ls == texts(all@),
            ls == lines(text@),
            rules_in(ls) == prepended(rules_view(rules@), rules_in(ls.skip(i as int))),
        decreases all.len() - i,
    {
        let ghost rest = ls.skip(i as int);
        assert(rest[0] == all@[i as int]@);
        if !has_prefix(&all[i], "~ ") {
            proof {
                assert(rest.skip(1) =~= ls.skip(i + 1));
            }
            i += 1;
        } else {
            proof {
                reveal_strlit("~ ");
            }
            let period: BudgetPeriod = match read_period(&all[i]) {
                None => {
                    return Err(malformed(&all[i]));
                },
                Some(period) => period,
            };
            if i + 1 == all.len() {
                return Err(malformed(&all[i]));
            }
            assert(rest[1] == all@[i + 1]@);
            match read_goal(&all[i + 1]) {
                None => {
                    return Err(malformed(&all[i + 1]));
                },
                Some((account, quantity, commodity)) => {
                    let ghost before = rules_view(rules@);
                    let rule: BudgetRule = BudgetRule { account, period, quantity, commodity };
                    let ghost added = rule@;
                    rules.push(rule);
                    proof {
                        assert(rest.skip(2) =~= ls.skip(i + 2));
                        assert(rules_view(rules@) =~= before.push(added));
                        lemma_prepend_more(before, added, rules_in(rest.skip(2)));
                    }
                },
            }
            i += 2;
        }
    }
    proof {
        assert(ls.skip(i as int).len() == 0);
        assert(rules_view(rules@) + Seq::empty() =~= rules_view(rules@));
    }
    Ok(rules)
}

/// Rules before the rules that were found, where no line was malformed.
spec fn prepended(head: Seq<BudgetRuleView>, found: Result<Seq<BudgetRuleView>, Seq<char>>) -> Result<
    Seq<BudgetRuleView>,
    Seq<char>,
> {
    match found {
        Ok(rest) => Ok(head + rest),
        Err(line) => Err(line),
    }
}

proof fn lemma_prepend_nothing(ls: Seq<Seq<char>>)
    ensures
        prepended(Seq::empty(), rules_in(ls)) == rules_in(ls),
{
    if let Ok(rest) = rules_in(ls) {
        assert(Seq::<BudgetRuleView>::empty() + rest =~= rest);
    }
}

proof fn lemma_prepend_more(
    head: Seq<BudgetRuleView>,
    rule: BudgetRuleView,
    found: Result<Seq<BudgetRuleView>, Seq<char>>,
)
    ensures
        prepended(head, prepended(seq![rule], found)) == prepended(head.push(rule), found),
{
    if let Ok(rest) = found {
        assert(head + (seq![rule] + rest) =~= head.push(rule) + rest);
    }
}

// ---------------------------------------------------------------------------
// What is written can be read back
// ---------------------------------------------------------------------------

/// Can the rule be written to the budget file: is its account a name on one line that does
/// not begin with white space, and its commodity one on one line without two spaces in a
/// row?
pub open spec fn is_storable(r: BudgetRuleView) -> bool {
    &&& r.account.len() > 0
    &&& !is_white(r.account[0])
    &&& !r.account.contains('\n')
    &&& is_line(r.commodity)
    &&& !(r.commodity.len() > 0 && r.commodity[0] == ' ')
    &&& forall|i: int| 0 <= i < r.commodity.len() - 1 ==> !(#[trigger] r.commodity[i] == ' ' && r.commodity[i + 1] == ' ')
}

proof fn lemma_last_gap(s: Seq<char>, k: int)
    requires
        0 <= k <= s.len() - 2,
        s[k] == ' ' && s[k + 1] == ' ',
        forall|i: int| k < i < s.len() - 1 ==> !(#[trigger] s[i] == ' ' && s[i + 1] == ' '),
    ensures
        last_gap(s) == k,
    decreases s.len(),
{
    if k < s.len() - 2 {
        let t = s.drop_last();
        assert(!(s[s.len() - 2] == ' ' && s[s.len() - 2 + 1] == ' '));
        assert forall|i: int| k < i < t.len() - 1 implies !(#[trigger] t[i] == ' ' && t[i + 1] == ' ') by {
            assert(t[i] == s[i]);
        }
        lemma_last_gap(t, k);
    }
}

proof fn lemma_word_length_prefix(w: Seq<char>, rest: Seq<char>)
    requires
        forall|i: int| 0 <= i < w.len() ==> !is_white(#[trigger] w[i]),
        rest.len() == 0 || is_white(rest[0]),
    ensures
        word_length(w + rest) == w.len(),
    decreases w.len(),
{
    if w.len() == 0 {
        assert(w + rest =~= rest);
    } else {
        assert((w + rest).skip(1) =~= w.skip(1) + rest);
        assert forall|i: int| 0 <= i < w.skip(1).len() implies !is_white(#[trigger] w.skip(1)[i]) by {
            assert(w.skip(1)[i] == w[i + 1]);
        }
        lemma_word_length_prefix(w.skip(1), rest);
    }
}

proof fn lemma_period_line(p: BudgetPeriod)
    ensures
        starts_with(period_line(p), "~ "@),
        opened_period(period_line(p)) == Some(p),
        is_line(period_line(p)),
{
    reveal_strlit("~ ");
    reveal_strlit("  ; budget:");
    reveal_strlit("daily");
    reveal_strlit("weekly");
    reveal_strlit("monthly");
    reveal_strlit("quarterly");
    reveal_strlit("yearly");
    let w = period_word(p);
    let rest = "  ; budget:"@;
    let line = period_line(p);
    assert(line.take(2) =~= "~ "@);
    assert(line.skip(2) =~= w + rest);
    assert(w.len() > 0 && forall|i: int| 0 <= i < w.len() ==> 'a' <= #[trigger] w[i] <= 'z');
    assert(trim_start(w + rest) == w + rest);
    lemma_word_length_prefix(w, rest);
    assert((w + rest).take(w.len() as int) =~= w);
    law_period_word_round_trip(p);
    assert forall|i: int| 0 <= i < line.len() implies line[i] != '\n' by {
        if i >= 2 && i < 2 + w.len() {
            assert(line[i] == w[i - 2]);
        } else if i >= 2 + w.len() {
            assert(line[i] == rest[i - 2 - w.len()]);
        }
    }
    assert(line.last() == ':');
}

proof fn lemma_goal_line(r: BudgetRuleView)
    requires
        is_storable(r),
    ensures
        goal_of(goal_line(r)) == Some((r.account, r.quantity, r.commodity)),
        is_line(goal_line(r)),
{
    reveal_strlit("    ");
    reveal_strlit("  ");
    reveal_strlit(" ");
    let line = goal_line(r);
    let q = quantity_text(r.quantity);
    let t = r.account + "  "@ + q + " "@ + r.commodity;
    let a = r.account.len() as int;
    let n = q.len() as int;
    lemma_quantity_chars(r.quantity);
    assert(trim_start(line) == t) by {
        assert(line.skip(1) =~= line.subrange(1, line.len() as int));
        assert(line.skip(1).skip(1) =~= line.skip(2));
        assert(line.skip(2).skip(1) =~= line.skip(3));
        assert(line.skip(3).skip(1) =~= line.skip(4));
        assert(line.skip(4) =~= t);
        assert(t[0] == r.account[0]);
        assert(line[0] == ' ' && line[1] == ' ' && line[2] == ' ' && line[3] == ' ');
        assert(trim_start(t) == t);
        assert(trim_start(line.skip(3)) == t);
        assert(trim_start(line.skip(2)) == t);
        assert(trim_start(line.skip(1)) == t);
    }
    assert(t[a] == ' ' && t[a + 1] == ' ');
    assert forall|i: int| a < i < t.len() - 1 implies !(#[trigger] t[i] == ' ' && t[i + 1] == ' ') by {
        if i == a + 1 {
            assert(t[i + 1] == q[0]);
        } else if i < a + 2 + n {
            assert(t[i] == q[i - a - 2]);
        } else if i == a + 2 + n {
            assert(t[i + 1] == r.commodity[0]);
        } else {
            let j = i - a - 3 - n;
            assert(t[i] == r.commodity[j]);
            assert(t[i + 1] == r.commodity[j + 1]);
        }
    }
    lemma_last_gap(t, a);
    assert(t.take(a) =~= r.account);
    let amount = t.skip(a + 2);
    assert(amount =~= q + " "@ + r.commodity);
    assert forall|i: int| 0 <= i < n implies amount[i] != ' ' by {
        assert(amount[i] == q[i]);
    }
    lemma_find_unique(amount, ' ', n);
    assert(amount.take(n) =~= q);
    assert(amount.skip(n + 1) =~= r.commodity);
    law_quantity_text_is_lossless(r.quantity);
    assert forall|i: int| 0 <= i < line.len() implies line[i] != '\n' by {
        if i < 4 {
        } else if i < 4 + a {
            assert(line[i] == r.account[i - 4]);
            assert(r.account.contains(r.account[i - 4]));
        } else if i < 6 + a {
        } else if i < 6 + a + n {
            assert(line[i] == q[i - 6 - a]);
        } else if i > 6 + a + n {
            assert(line[i] == r.commodity[i - 7 - a - n]);
            assert(r.commodity.contains(r.commodity[i - 7 - a - n]));
        }
    }
    if r.commodity.len() > 0 {
        assert(line.last() == r.commodity.last());
    } else {
        assert(line.last() == ' ');
    }
}

proof fn lemma_rules_lines_front(rules: Seq<BudgetRuleView>)
    requires
        rules.len() > 0,
    ensures
        rules_lines(rules) == rule_lines(rules[0]) + rules_lines(rules.skip(1)),
    decreases rules.len(),
{
    if rules.len() == 1 {
        assert(rules.drop_last() =~= Seq::empty());
        assert(rules.skip(1) =~= Seq::empty());
        assert(rules_lines(rules) =~= rule_lines(rules[0]) + rules_lines(rules.skip(1)));
    } else {
        lemma_rules_lines_front(rules.drop_last());
        assert(rules.drop_last().skip(1) =~= rules.skip(1).drop_last());
        assert(rules_lines(rules) =~= rule_lines(rules[0]) + rules_lines(rules.skip(1)));
    }
}

proof fn lemma_rules_read_back(rules: Seq<BudgetRuleView>)
    requires
        forall|i: int| 0 <= i < rules.len() ==> is_storable(#[trigger] rules[i]),
    ensures
        rules_in(rules_lines(rules)) == Ok::<Seq<BudgetRuleView>, Seq<char>>(rules),
        forall|i: int| 0 <= i < rules_lines(rules).len() ==> is_line(#[trigger] rules_lines(rules)[i]),
    decreases rules.len(),
{
    if rules.len() > 0 {
        let r = rules[0];
        let more = rules.skip(1);
        assert forall|i: int| 0 <= i < more.len() implies is_storable(#[trigger] more[i]) by {
            assert(more[i] == rules[i + 1]);
        }
        lemma_rules_read_back(more);
        lemma_rules_lines_front(rules);
        lemma_period_line(r.period);
        assert(is_storable(rules[0]));
        lemma_goal_line(r);
        let ls = rules_lines(rules);
        let tail = rules_lines(more);
        reveal_strlit("~ ");
        reveal_strlit("    equity:budget");
        assert(ls[0].len() == 0);
        assert(ls.skip(1)[0] == period_line(r.period));
        assert(ls.skip(1)[1] == goal_line(r));
        assert(ls.skip(1).skip(2) =~= ls.skip(3));
        assert(ls.skip(3)[0] == "    equity:budget"@);
        assert("    equity:budget"@.take(2)[0] != "~ "@[0]);
        assert(ls.skip(3).skip(1) =~= tail);
        assert(!starts_with(ls.skip(3)[0], "~ "@));
        assert(rules_in(ls.skip(3)) == rules_in(tail));
        assert(seq![r] + more =~= rules);
        assert(rules_in(ls.skip(1)) == Ok::<Seq<BudgetRuleView>, Seq<char>>(rules));
        assert(!starts_with(ls[0], "~ "@));
        assert forall|i: int| 0 <= i < ls.len() implies is_line(#[trigger] ls[i]) by {
            if i >= 4 {
                assert(ls[i] == tail[i - 4]);
            } else if i == 3 {
                assert("    equity:budget"@.last() == 't');
            }
        }
    } else {
        assert(rules =~= Seq::empty());
    }
}

/// Reading the budget file gives exactly the rules that were written to it.
pub proof fn law_budget_file_round_trip(rules: Seq<BudgetRuleView>)
    requires
        forall|i: int| 0 <= i < rules.len() ==> is_storable(#[trigger] rules[i]),
    ensures
        rules_in(lines(budget_file(rules))) == Ok::<Seq<BudgetRuleView>, Seq<char>>(rules),
{
    lemma_rules_read_back(rules);
    let all = budget_lines(rules);
    let ls = rules_lines(rules);
    reveal_strlit("; hledger-mcp budget — managed by budget_set; replaced wholesale (history in git).");
    reveal_strlit("account equity:budget");
    reveal_strlit("~ ");
    assert(all[0].take(2)[0] == ';');
    assert(all[1].take(2)[0] == 'a');
    assert("~ "@[0] == '~');
    assert forall|i: int| 0 <= i < all.len() implies is_line(#[trigger] all[i]) by {
        if i == 0 {
            assert(all[0].last() == '.');
        } else if i == 1 {
            assert(all[1].last() == 't');
        } else {
            assert(all[i] == ls[i - 2]);
        }
    }
    lemma_lines_of_terminated(all);
    assert(all.skip(1)[0] == all[1]);
    assert(all.skip(1).skip(1) =~= ls);
    assert(rules_in(all.skip(1)) == rules_in(ls));
}

// ---------------------------------------------------------------------------
// Setting a rule
// ---------------------------------------------------------------------------

/// Is it the rule for the same account and period?
pub open spec fn same_goal(a: BudgetRuleView, b: BudgetRuleView) -> bool {
    a.account == b.account && a.period == b.period
}

/// Where the first rule for the account and period of `rule` stands, or the number of rules.
pub open spec fn rule_index(rules: Seq<BudgetRuleView>, rule: BudgetRuleView) -> int
    decreases rules.len(),
{
    if rules.len() == 0 || same_goal(rules[0], rule) {
        0
    } else {
        1 + rule_index(rules.skip(1), rule)
    }
}

/// The rules with the rule for that account and period replaced, or with the rule behind
/// them where there was none.
pub open spec fn upserted(rules: Seq<BudgetRuleView>, rule: BudgetRuleView) -> Seq<BudgetRuleView> {
    let i = rule_index(rules, rule);
    if i < rules.len() {
        rules.update(i, rule)
    } else {
        rules.push(rule)
    }
}

pub proof fn lemma_rule_index(rules: Seq<BudgetRuleView>, rule: BudgetRuleView)
    ensures
        0 <= rule_index(rules, rule) <= rules.len(),
        forall|i: int| 0 <= i < rule_index(rules, rule) ==> !same_goal(#[trigger] rules[i], rule),
        rule_index(rules, rule) < rules.len() ==> same_goal(rules[rule_index(rules, rule)], rule),
    decreases rules.len(),
{
    if rules.len() > 0 && !same_goal(rules[0], rule) {
        let rest = rules.skip(1);
        lemma_rule_index(rest, rule);
        assert forall|i: int| 0 <= i < rule_index(rules, rule) implies !same_goal(#[trigger] rules[i], rule) by {
            if i > 0 {
                assert(rest[i - 1] == rules[i]);
            }
        }
    }
}

/// Replaces the rule for the account and period of `rule`, or appends it where there is
/// none. Was one replaced?
pub fn upsert_rule(rules: &mut Vec<BudgetRule>, rule: BudgetRule) -> (r: bool)
    ensures
        rules_view(final(rules)@) == upserted(rules_view(old(rules)@), rule@),
        r == (rule_index(rules_view(old(rules)@), rule@) < old(rules)@.len()),
{
    let ghost all = rules_view(rules@);
    let mut i: usize = 0;
    assert(all.skip(0) =~= all);
    while i < rules.len()
        invariant
            i <= rules.len(),
            *rules == *old(rules),
            all == rules_view(old(rules)@),
            rule_index(all, rule@) == i + rule_index(all.skip(i as int), rule@),
        decreases rules.len() - i,
    {
        assert(all.skip(i as int)[0] == rules@[i as int]@);
        if same(&rules[i].account, &rule.account) && rules[i].period == rule.period {
            rules.set(i, rule);
            proof {
                assert(rules_view(rules@) =~= upserted(all, rule@));
            }
            return true;
        }
        proof {
            assert(all.skip(i as int).skip(1) =~= all.skip(i + 1));
        }
        i += 1;
    }
    rules.push(rule);
    proof {
        assert(rules_view(rules@) =~= upserted(all, rule@));
    }
    false
}

/// Has no account two goals for one period?
pub open spec fn goals_unique(rules: Seq<BudgetRuleView>) -> bool {
    forall|i: int, j: int| 0 <= i < j < rules.len() ==> !same_goal(#[trigger] rules[i], #[trigger] rules[j])
}

/// Setting a goal replaces and never accumulates: the rule is in the result, every rule for
/// another account or period stays as it is, and the goals stay unique.
pub proof fn law_upsert_replaces(rules: Seq<BudgetRuleView>, rule: BudgetRuleView)
    requires
        goals_unique(rules),
    ensures
        goals_unique(upserted(rules, rule)),
        upserted(rules, rule).contains(rule),
        forall|i: int|
            0 <= i < rules.len() && !same_goal(#[trigger] rules[i], rule) ==> upserted(rules, rule)[i] == rules[i],
        forall|i: int|
            0 <= i < upserted(rules, rule).len() && same_goal(#[trigger] upserted(rules, rule)[i], rule) ==> upserted(
                rules,
                rule,
            )[i] == rule,
        upserted(rules, rule).len() <= rules.len() + 1,
{
    lemma_rule_index(rules, rule);
    let i = rule_index(rules, rule);
    let after = upserted(rules, rule);
    assert(after[i] == rule);
    assert forall|a: int, b: int| 0 <= a < b < after.len() implies !same_goal(#[trigger] after[a], #[trigger] after[b]) by {
        if i < rules.len() {
            if a == i {
                assert(!same_goal(rules[i], rules[b]));
            } else if b == i {
                assert(!same_goal(rules[a], rules[i]));
            } else {
                assert(!same_goal(rules[a], rules[b]));
            }
        } else if b < rules.len() {
            assert(!same_goal(rules[a], rules[b]));
        } else {
            assert(!same_goal(rules[a], rule));
        }
    }
    assert forall|k: int| 0 <= k < after.len() && same_goal(#[trigger] after[k], rule) implies after[k] == rule by {
        if k != i {
            if k < i {
                assert(!same_goal(rules[k], rule));
            } else {
                assert(!same_goal(rules[i], rules[k]));
            }
        }
    }
}

/// Setting the same goal a second time changes nothing.
pub proof fn law_upsert_is_idempotent(rules: Seq<BudgetRuleView>, rule: BudgetRuleView)
    ensures
        upserted(upserted(rules, rule), rule) == upserted(rules, rule),
{
    lemma_rule_index(rules, rule);
    let i = rule_index(rules, rule);
    let after = upserted(rules, rule);
    lemma_rule_index(after, rule);
    let k = rule_index(after, rule);
    assert(after[i] == rule);
    assert(same_goal(after[i], rule));
    if k < i {
        assert(after[k] == rules[k]);
    } else if k > i {
        assert(!same_goal(after[i], rule));
    }
    assert(upserted(after, rule) =~= after);
}

/// The path of the budget file: beside the journal.
pub fn budget_file_path(journal: &str) -> (r: String)
    ensures
        r@ == path_join(journal_dir(journal@), "budget.journal"@),
{
    join_path(&repo_dir(journal), "budget.journal")
}

/// The rules that are set: none where there is no budget file yet.
pub fn read_budget_rules(file: Option<&str>) -> (r: Result<Vec<BudgetRule>, WriteError>)
    ensures
        match file {
            None => r matches Ok(rules) && rules@.len() == 0,
            Some(text) => match r {
                Ok(rules) => rules_in(lines(text@)) == Ok::<Seq<BudgetRuleView>, Seq<char>>(rules_view(rules@)),
                Err(e) => rules_in(lines(text@)) matches Err(line) && is_internal_error(e, malformed_message(line)),
            },
        },
{
    match file {
        None => Ok(Vec::new()),
        Some(text) => parse_budget_file(text),
    }
}

/// A goal belongs to an account and a period, whatever its amount. Setting one replaces the goal
/// of that account and that period and leaves every other where it is; where there was none it
/// is added behind them. So a goal of an account for another period, or of another account for
/// that period, is never touched.
pub proof fn law_a_goal_is_of_an_account_and_a_period(rules: Seq<BudgetRuleView>, rule: BudgetRuleView, i: int)
    requires
        0 <= i < rules.len(),
        forall|a: int, b: int|
            0 <= a < b < rules.len() ==> (#[trigger] rules[a]).account != (#[trigger] rules[b]).account || rules[a].period
                != rules[b].period,
    ensures
        rules[i].account != rule.account || rules[i].period != rule.period ==> upserted(rules, rule)[i] == rules[i],
        rules[i].account == rule.account && rules[i].period == rule.period ==> upserted(rules, rule) == rules.update(
            i,
            rule,
        ),
        (forall|k: int|
            0 <= k < rules.len() ==> (#[trigger] rules[k]).account != rule.account || rules[k].period != rule.period)
            ==> upserted(rules, rule) == rules.push(rule),
{
    lemma_rule_index(rules, rule);
    let k = rule_index(rules, rule);
    if rules[i].account == rule.account && rules[i].period == rule.period {
        if k < i {
            assert(rules[k].account != rules[i].account || rules[k].period != rules[i].period);
        } else if i < k {
            assert(!same_goal(rules[i], rule));
        }
    }
    if k < rules.len() {
        assert(same_goal(rules[k], rule));
    }
}

/// The budget file is a comment, the declaration of the balancing account, and four lines for
/// each rule, in their order: an empty one, the period, the account with its goal, and the
/// account that balances it.
pub proof fn law_budget_file_has_each_rule(rules: Seq<BudgetRuleView>, rule: BudgetRuleView)
    ensures
        ({
            let word = match rule.period {
                BudgetPeriod::Daily => "daily"@,
                BudgetPeriod::Weekly => "weekly"@,
                BudgetPeriod::Monthly => "monthly"@,
                BudgetPeriod::Quarterly => "quarterly"@,
                BudgetPeriod::Yearly => "yearly"@,
            };
            budget_file(rules.push(rule)) == budget_file(rules) + seq!['\n'] + ("~ "@ + word + "  ; budget:"@) + seq![
                '\n',
            ] + ("    "@ + rule.account + "  "@ + quantity_text(rule.quantity) + " "@ + rule.commodity) + seq!['\n']
                + "    equity:budget"@ + seq!['\n']
        }),
        lines(budget_file(Seq::empty())) == seq![
            "; hledger-mcp budget — managed by budget_set; replaced wholesale (history in git)."@,
            "account equity:budget"@,
        ],
{
    let all = rules.push(rule);
    assert(all.drop_last() =~= rules);
    let head = budget_lines(rules);
    let own = rule_lines(rule);
    assert(budget_lines(all) =~= head + own);
    let a = head + own.take(1);
    let b = head + own.take(2);
    let c = head + own.take(3);
    let d = head + own;
    assert(a.drop_last() =~= head);
    assert(b.drop_last() =~= a);
    assert(c.drop_last() =~= b);
    assert(d.drop_last() =~= c);
    assert(a.last() == own[0] && b.last() == own[1] && c.last() == own[2] && d.last() == own[3]);
    assert(terminated(a) =~= budget_file(rules) + seq!['\n']);
    assert(terminated(b) == terminated(a) + own[1] + seq!['\n']);
    assert(terminated(c) == terminated(b) + own[2] + seq!['\n']);
    assert(terminated(d) == terminated(c) + own[3] + seq!['\n']);
    assert(budget_file(all) == terminated(d));
    let none = Seq::<BudgetRuleView>::empty();
    assert(rules_lines(none) =~= Seq::<Seq<char>>::empty());
    let start = budget_lines(none);
    reveal_strlit("; hledger-mcp budget — managed by budget_set; replaced wholesale (history in git).");
    reveal_strlit("account equity:budget");
    assert(start =~= seq![
        "; hledger-mcp budget — managed by budget_set; replaced wholesale (history in git)."@,
        "account equity:budget"@,
    ]);
    assert forall|i: int| 0 <= i < start.len() implies is_line(#[trigger] start[i]) by {
        if i == 0 {
            let s = start[0];
            assert forall|k: int| 0 <= k < s.len() implies s[k] != '\n' by {}
        } else {
            let s = start[1];
            assert forall|k: int| 0 <= k < s.len() implies s[k] != '\n' by {}
        }
    }
    lemma_lines_of_terminated(start);
}

/// Only the word for a period is read as it: what is read as a period is its word, and nothing
/// else is read as any.
pub proof fn law_only_words_are_read_as_periods(s: Seq<char>)
    ensures
        period_of(s) matches Some(p) ==> s == period_word(p),
        period_of(s) is None ==> forall|p: BudgetPeriod| s != #[trigger] period_word(p),
{
    assert forall|p: BudgetPeriod| period_of(s) is None implies s != #[trigger] period_word(p) by {
        law_period_word_round_trip(p);
    }
}

} // verus!
