//! The checks that a transaction has to pass before it is written: safe text, at least two
//! postings and at most one without an amount, declared accounts and commodities, exact
//! amounts that balance, no tag that the server owns, and an idempotency key that can be found
//! again.

use vstd::prelude::*;

use crate::date::{Civil, Date};
use crate::decimal::{lemma_pow10_positive, pow10, value};
use crate::sums::{
    absolute, absolutes, lemma_pow10_add, lemma_total_of_zeros, lemma_total_within, total,
};
use crate::hledger::tags_view;
use crate::hledger::amount::{
    Quantity, common_places, quantity_of, quantity_sum, quantity_text, scaled,
};
use crate::text::{cat, cat3, chars_of, has_char, is_white, is_whitespace, listed, same, texts};
use crate::write::format::{EntryPosting, EntryPostingView, entry_posting_view, entry_postings_view};
use crate::write::input::{
    PostingInput, PostingInputView, TransactionInput, TransactionInputView, option_view,
    posting_inputs_view,
};

verus! {

/// A transaction that passed the checks, with its amounts read.
#[derive(Debug)]
pub struct ValidatedTxn {
    pub date: Date,
    pub description: String,
    pub postings: Vec<EntryPosting>,
    pub tags: Vec<(String, String)>,
}

/// What a [`ValidatedTxn`] holds.
#[verifier::ext_equal]
pub struct ValidatedView {
    pub date: Civil,
    pub description: Seq<char>,
    pub postings: Seq<EntryPostingView>,
    pub tags: Seq<(Seq<char>, Seq<char>)>,
}

impl View for ValidatedTxn {
    type V = ValidatedView;

    open spec fn view(&self) -> ValidatedView {
        ValidatedView {
            date: self.date@,
            description: self.description@,
            postings: entry_postings_view(self.postings@),
            tags: tags_view(self.tags@),
        }
    }
}

// ---------------------------------------------------------------------------
// Text and tags
// ---------------------------------------------------------------------------

/// Does the text stay on one line without opening a comment?
pub open spec fn is_safe_text(s: Seq<char>) -> bool {
    !s.contains('\n') && !s.contains(';')
}

/// Is it a tag name: not empty, without white space, colon and comma?
pub open spec fn is_tag_key(s: Seq<char>) -> bool {
    s.len() > 0 && forall|i: int| 0 <= i < s.len() ==> !is_white(#[trigger] s[i]) && s[i] != ':' && s[i] != ','
}

/// The tags that the server sets itself.
pub open spec fn is_reserved_tag(key: Seq<char>) -> bool {
    key == "id"@ || key == "idem"@ || key == "reverses"@
}

/// The message for text that is not safe.
pub open spec fn unsafe_text_message(what: Seq<char>) -> Seq<char> {
    what + " must not contain a newline or ';'"@
}

/// Accepts text that stays on one line and opens no comment.
pub fn validate_text(what: &str, text: &str) -> (r: Result<(), String>)
    ensures
        match r {
            Ok(()) => is_safe_text(text@),
            Err(m) => !is_safe_text(text@) && m@ == unsafe_text_message(what@),
        },
{
    if has_char(text, '\n') || has_char(text, ';') {
        return Err(cat(what, " must not contain a newline or ';'"));
    }
    Ok(())
}

/// The message for a tag name that is none.
pub open spec fn tag_key_message(key: Seq<char>) -> Seq<char> {
    "invalid tag name: '"@ + key + "'"@
}

/// Accepts a tag name: not empty, without white space, colon and comma.
pub fn validate_tag_key(key: &str) -> (r: Result<(), String>)
    ensures
        match r {
            Ok(()) => is_tag_key(key@),
            Err(m) => !is_tag_key(key@) && m@ == tag_key_message(key@),
        },
{
    let cs: Vec<char> = chars_of(key);
    let mut bad: bool = cs.len() == 0;
    let mut i: usize = 0;
    while i < cs.len()
        invariant
            i <= cs.len(),
            cs@ == key@,
            bad == (cs.len() == 0 || exists|j: int|
                0 <= j < i && (is_white(#[trigger] cs@[j]) || cs@[j] == ':' || cs@[j] == ',')),
        decreases cs.len() - i,
    {
        if is_whitespace(cs[i]) || cs[i] == ':' || cs[i] == ',' {
            bad = true;
        }
        i += 1;
    }
    if bad {
        return Err(cat3("invalid tag name: '", key, "'"));
    }
    Ok(())
}

/// Why a tag is refused, if it is.
pub open spec fn tag_fault(tag: (Seq<char>, Seq<char>)) -> Option<Seq<char>> {
    if is_reserved_tag(tag.0) {
        Some("'"@ + tag.0 + "' is a reserved tag and cannot be set"@)
    } else if !is_tag_key(tag.0) {
        Some(tag_key_message(tag.0))
    } else if !is_safe_text(tag.1) {
        Some(unsafe_text_message("tag value"@))
    } else if tag.1.contains(',') {
        Some("tag value for '"@ + tag.0 + "' must not contain a comma"@)
    } else {
        None
    }
}

/// Why the first refused tag is refused, if one is.
pub open spec fn tags_fault(tags: Seq<(Seq<char>, Seq<char>)>) -> Option<Seq<char>>
    decreases tags.len(),
{
    if tags.len() == 0 {
        None
    } else {
        match tags_fault(tags.drop_last()) {
            Some(m) => Some(m),
            None => tag_fault(tags.last()),
        }
    }
}

fn check_tag(key: &str, value: &str) -> (r: Option<String>)
    ensures
        option_view(r) == tag_fault((key@, value@)),
{
    if same(key, "id") || same(key, "idem") || same(key, "reverses") {
        return Some(cat3("'", key, "' is a reserved tag and cannot be set"));
    }
    if let Err(m) = validate_tag_key(key) {
        return Some(m);
    }
    if let Err(m) = validate_text("tag value", value) {
        return Some(m);
    }
    if has_char(value, ',') {
        return Some(cat3("tag value for '", key, "' must not contain a comma"));
    }
    None
}

/// Can it be an idempotency key: does it stay one tag value, on one line, without opening a
/// comment or ending at a comma?
pub open spec fn is_idem_key(key: Seq<char>) -> bool {
    is_safe_text(key) && !key.contains(',')
}

/// Why an idempotency key is refused, if one is given and it is.
pub open spec fn idem_fault(idem: Option<Seq<char>>) -> Option<Seq<char>> {
    match idem {
        None => None,
        Some(key) => if !is_safe_text(key) {
            Some(unsafe_text_message("idempotency key"@))
        } else if key.contains(',') {
            Some("idempotency key must not contain a comma"@)
        } else {
            None
        },
    }
}

fn check_idem(idem: &Option<String>) -> (r: Option<String>)
    ensures
        option_view(r) == idem_fault(option_view(*idem)),
{
    match idem {
        None => None,
        Some(key) => {
            if let Err(m) = validate_text("idempotency key", key) {
                return Some(m);
            }
            if has_char(key, ',') {
                return Some("idempotency key must not contain a comma".to_owned());
            }
            None
        },
    }
}

// ---------------------------------------------------------------------------
// Postings
// ---------------------------------------------------------------------------

/// Why a posting is refused, if it is: its account is not declared, its amount is no exact
/// decimal, or its commodity is not declared.
pub open spec fn posting_fault(p: PostingInputView, accounts: Seq<Seq<char>>, commodities: Seq<Seq<char>>) -> Option<
    Seq<char>,
> {
    if !accounts.contains(p.account) {
        Some("account not declared: '"@ + p.account + "' — declare it first with declare_account"@)
    } else {
        match p.amount {
            None => None,
            Some(a) => if quantity_of(a.0) is None {
                Some("invalid amount '"@ + a.0 + "' for account '"@ + p.account + "'"@)
            } else if !commodities.contains(a.1) {
                Some("commodity not declared: '"@ + a.1 + "' — declare it first with declare_commodity"@)
            } else {
                None
            },
        }
    }
}

/// Why the first refused posting is refused, if one is.
pub open spec fn postings_fault(
    postings: Seq<PostingInputView>,
    accounts: Seq<Seq<char>>,
    commodities: Seq<Seq<char>>,
) -> Option<Seq<char>>
    decreases postings.len(),
{
    if postings.len() == 0 {
        None
    } else {
        match postings_fault(postings.drop_last(), accounts, commodities) {
            Some(m) => Some(m),
            None => posting_fault(postings.last(), accounts, commodities),
        }
    }
}

/// A posting with its amount read.
pub open spec fn read_posting(p: PostingInputView) -> EntryPostingView {
    (
        p.account,
        match p.amount {
            Some(a) => Some((quantity_of(a.0)->0, a.1)),
            None => None,
        },
    )
}

/// The postings with their amounts read.
pub open spec fn read_postings(postings: Seq<PostingInputView>) -> Seq<EntryPostingView> {
    Seq::new(postings.len(), |i: int| read_posting(postings[i]))
}

/// The number of postings without an amount.
pub open spec fn missing_amounts(postings: Seq<PostingInputView>) -> nat
    decreases postings.len(),
{
    if postings.len() == 0 {
        0
    } else {
        missing_amounts(postings.drop_last()) + if postings.last().amount is None {
            1nat
        } else {
            0nat
        }
    }
}

fn check_posting(p: &PostingInput, accounts: &Vec<String>, commodities: &Vec<String>) -> (r: Result<
    EntryPosting,
    String,
>)
    ensures
        match r {
            Ok(e) => posting_fault(p@, texts(accounts@), texts(commodities@)) is None && entry_posting_view(e)
                == read_posting(p@),
            Err(m) => posting_fault(p@, texts(accounts@), texts(commodities@)) == Some(m@),
        },
{
    if !listed(accounts, &p.account) {
        return Err(cat3("account not declared: '", &p.account, "' — declare it first with declare_account"));
    }
    match &p.amount {
        None => Ok((p.account.clone(), None)),
        Some(amount) => match Quantity::parse(&amount.quantity) {
            None => {
                let mut m: String = cat3("invalid amount '", &amount.quantity, "' for account '");
                m.append(&p.account);
                m.append("'");
                Err(m)
            },
            Some(quantity) => if !listed(commodities, &amount.commodity) {
                Err(
                    cat3(
                        "commodity not declared: '",
                        &amount.commodity,
                        "' — declare it first with declare_commodity",
                    ),
                )
            } else {
                Ok((p.account.clone(), Some((quantity, amount.commodity.clone()))))
            },
        },
    }
}

// ---------------------------------------------------------------------------
// Balance
// ---------------------------------------------------------------------------

/// The sum of the amounts in `commodity`, where it can be computed.
pub open spec fn commodity_sum(postings: Seq<EntryPostingView>, commodity: Seq<char>) -> Option<Quantity>
    decreases postings.len(),
{
    if postings.len() == 0 {
        Some(Quantity { mantissa: 0, places: 0 })
    } else {
        match commodity_sum(postings.drop_last(), commodity) {
            None => None,
            Some(sum) => match postings.last().1 {
                Some(a) => if a.1 == commodity {
                    quantity_sum(sum, a.0)
                } else {
                    Some(sum)
                },
                None => Some(sum),
            },
        }
    }
}

/// Why the postings in `commodity` do not balance, if they do not.
pub open spec fn commodity_fault(postings: Seq<EntryPostingView>, commodity: Seq<char>) -> Option<Seq<char>> {
    match commodity_sum(postings, commodity) {
        None => Some("amounts in "@ + commodity + " are too large to add up"@),
        Some(sum) => if sum.mantissa != 0 {
            Some(
                "unbalanced: "@ + commodity + " postings sum to "@ + quantity_text(sum)
                    + " (must be 0, or omit one amount to balance)"@,
            )
        } else {
            None
        },
    }
}

/// Why the first commodity that does not balance does not, among those of the first `n`
/// postings.
pub open spec fn balance_fault(postings: Seq<EntryPostingView>, n: int) -> Option<Seq<char>>
    decreases n,
{
    if n <= 0 {
        None
    } else {
        match balance_fault(postings, n - 1) {
            Some(m) => Some(m),
            None => match postings[n - 1].1 {
                Some(a) => commodity_fault(postings, a.1),
                None => None,
            },
        }
    }
}

fn sum_of(postings: &Vec<EntryPosting>, commodity: &str) -> (r: Option<Quantity>)
    ensures
        r == commodity_sum(entry_postings_view(postings@), commodity@),
{
    let ghost all = entry_postings_view(postings@);
    let mut sum: Quantity = Quantity::new(0, 0);
    let mut fits: bool = true;
    let mut i: usize = 0;
    while i < postings.len()
        invariant
            i <= postings.len(),
            all == entry_postings_view(postings@),
            commodity_sum(all.take(i as int), commodity@) == if fits {
                Some(sum)
            } else {
                None
            },
        decreases postings.len() - i,
    {
        proof {
            assert(all.take(i + 1).drop_last() =~= all.take(i as int));
            assert(all.take(i + 1).last() == entry_posting_view(postings@[i as int]));
        }
        if let Some((quantity, c)) = &postings[i].1 {
            if same(c, commodity) && fits {
                match sum.plus(*quantity) {
                    Some(next) => {
                        sum = next;
                    },
                    None => {
                        fits = false;
                    },
                }
            }
        }
        i += 1;
    }
    assert(all.take(i as int) =~= all);
    if fits {
        Some(sum)
    } else {
        None
    }
}

fn check_balance(postings: &Vec<EntryPosting>) -> (r: Option<String>)
    ensures
        option_view(r) == balance_fault(entry_postings_view(postings@), postings@.len() as int),
{
    let ghost all = entry_postings_view(postings@);
    let mut i: usize = 0;
    while i < postings.len()
        invariant
            i <= postings.len(),
            all == entry_postings_view(postings@),
            balance_fault(all, i as int) is None,
        decreases postings.len() - i,
    {
        assert(all[i as int] == entry_posting_view(postings@[i as int]));
        if let Some((_, commodity)) = &postings[i].1 {
            let fault: Option<String> = match sum_of(postings, commodity) {
                None => Some(cat3("amounts in ", commodity, " are too large to add up")),
                Some(sum) => if !sum.is_zero() {
                    let mut m: String = cat3("unbalanced: ", commodity, " postings sum to ");
                    m.append(&sum.render());
                    m.append(" (must be 0, or omit one amount to balance)");
                    Some(m)
                } else {
                    None
                },
            };
            if let Some(m) = fault {
                proof {
                    assert(balance_fault(all, i + 1) == Some(m@));
                    lemma_balance_fault_stays(all, i + 1, postings@.len() as int);
                }
                return Some(m);
            }
        }
        i += 1;
    }
    None
}

proof fn lemma_balance_fault_stays(all: Seq<EntryPostingView>, i: int, n: int)
    requires
        0 <= i <= n,
        balance_fault(all, i) is Some,
    ensures
        balance_fault(all, n) == balance_fault(all, i),
    decreases n - i,
{
    if i < n {
        lemma_balance_fault_stays(all, i, n - 1);
    }
}

// ---------------------------------------------------------------------------
// Transactions
// ---------------------------------------------------------------------------

/// What the checks make of a transaction: the transaction with its amounts read, or the
/// message of the first check that it fails.
pub open spec fn validation(
    input: TransactionInputView,
    accounts: Seq<Seq<char>>,
    commodities: Seq<Seq<char>>,
) -> Result<ValidatedView, Seq<char>> {
    let postings = read_postings(input.postings);
    if !is_safe_text(input.description) {
        Err(unsafe_text_message("description"@))
    } else if input.postings.len() < 2 {
        Err("a transaction needs at least 2 postings"@)
    } else if let Some(m) = postings_fault(input.postings, accounts, commodities) {
        Err(m)
    } else if missing_amounts(input.postings) > 1 {
        Err("at most one posting may omit its amount (the balancing posting)"@)
    } else if missing_amounts(input.postings) == 0 && balance_fault(postings, postings.len() as int) is Some {
        Err(balance_fault(postings, postings.len() as int)->0)
    } else if let Some(m) = tags_fault(input.tags) {
        Err(m)
    } else if let Some(m) = idem_fault(input.idem) {
        Err(m)
    } else {
        Ok(ValidatedView { date: input.date, description: input.description, postings, tags: input.tags })
    }
}

/// Checks a transaction against the declared accounts and commodities.
#[verifier::loop_isolation(false)]
pub fn validate(
    input: &TransactionInput,
    declared_accounts: &Vec<String>,
    declared_commodities: &Vec<String>,
) -> (r: Result<ValidatedTxn, String>)
    ensures
        match r {
            Ok(v) => validation(input@, texts(declared_accounts@), texts(declared_commodities@)) == Ok::<
                ValidatedView,
                Seq<char>,
            >(v@),
            Err(m) => validation(input@, texts(declared_accounts@), texts(declared_commodities@)) == Err::<
                ValidatedView,
                Seq<char>,
            >(m@),
        },
{
    let ghost accounts = texts(declared_accounts@);
    let ghost commodities = texts(declared_commodities@);
    let ghost given = input@.postings;
    if let Err(m) = validate_text("description", &input.description) {
        return Err(m);
    }
    if input.postings.len() < 2 {
        return Err("a transaction needs at least 2 postings".to_owned());
    }
    let mut postings: Vec<EntryPosting> = Vec::new();
    let mut missing: usize = 0;
    let mut i: usize = 0;
    while i < input.postings.len()
        invariant
            i <= input.postings.len(),
            missing <= i,
            given == posting_inputs_view(input.postings@),
            accounts == texts(declared_accounts@),
            commodities == texts(declared_commodities@),
            postings_fault(given.take(i as int), accounts, commodities) is None,
            missing == missing_amounts(given.take(i as int)),
            entry_postings_view(postings@) == read_postings(given.take(i as int)),
        decreases input.postings.len() - i,
    {
        let ghost before = postings@;
        proof {
            assert(given.take(i + 1).drop_last() =~= given.take(i as int));
            assert(given.take(i + 1).last() == input.postings@[i as int]@);
        }
        let posting: EntryPosting = match check_posting(&input.postings[i], declared_accounts, declared_commodities) {
            Err(m) => {
                proof {
                    lemma_postings_fault_stays(given, i + 1, accounts, commodities);
                }
                return Err(m);
            },
            Ok(posting) => posting,
        };
        if input.postings[i].amount.is_none() {
            missing += 1;
        }
        postings.push(posting);
        proof {
            assert(entry_postings_view(postings@) =~= entry_postings_view(before).push(entry_posting_view(posting)));
            assert(read_postings(given.take(i + 1)) =~= read_postings(given.take(i as int)).push(
                read_posting(given[i as int]),
            ));
        }
        i += 1;
    }
    proof {
        assert(given.take(i as int) =~= given);
    }
    if missing > 1 {
        return Err("at most one posting may omit its amount (the balancing posting)".to_owned());
    }
    if missing == 0 {
        if let Some(m) = check_balance(&postings) {
            return Err(m);
        }
    }
    let ghost all_tags = tags_view(input.tags@);
    let mut tags: Vec<(String, String)> = Vec::new();
    let mut j: usize = 0;
    while j < input.tags.len()
        invariant
            j <= input.tags.len(),
            all_tags == tags_view(input.tags@),
            tags_fault(all_tags.take(j as int)) is None,
            tags_view(tags@) == all_tags.take(j as int),
        decreases input.tags.len() - j,
    {
        proof {
            assert(all_tags.take(j + 1).drop_last() =~= all_tags.take(j as int));
            assert(all_tags.take(j + 1).last() == (input.tags@[j as int].0@, input.tags@[j as int].1@));
        }
        if let Some(m) = check_tag(&input.tags[j].0, &input.tags[j].1) {
            proof {
                lemma_tags_fault_stays(all_tags, j + 1);
            }
            return Err(m);
        }
        tags.push((input.tags[j].0.clone(), input.tags[j].1.clone()));
        proof {
            assert(tags_view(tags@) =~= all_tags.take(j + 1));
        }
        j += 1;
    }
    proof {
        assert(all_tags.take(j as int) =~= all_tags);
    }
    if let Some(m) = check_idem(&input.idem) {
        return Err(m);
    }
    Ok(ValidatedTxn { date: input.date, description: input.description.clone(), postings, tags })
}

proof fn lemma_postings_fault_stays(
    given: Seq<PostingInputView>,
    i: int,
    accounts: Seq<Seq<char>>,
    commodities: Seq<Seq<char>>,
)
    requires
        0 <= i <= given.len(),
        postings_fault(given.take(i), accounts, commodities) is Some,
    ensures
        postings_fault(given, accounts, commodities) == postings_fault(given.take(i), accounts, commodities),
    decreases given.len() - i,
{
    if i == given.len() {
        assert(given.take(i) =~= given);
    } else {
        assert(given.take(i + 1).drop_last() =~= given.take(i));
        lemma_postings_fault_stays(given, i + 1, accounts, commodities);
    }
}

proof fn lemma_tags_fault_stays(tags: Seq<(Seq<char>, Seq<char>)>, i: int)
    requires
        0 <= i <= tags.len(),
        tags_fault(tags.take(i)) is Some,
    ensures
        tags_fault(tags) == tags_fault(tags.take(i)),
    decreases tags.len() - i,
{
    if i == tags.len() {
        assert(tags.take(i) =~= tags);
    } else {
        assert(tags.take(i + 1).drop_last() =~= tags.take(i));
        lemma_tags_fault_stays(tags, i + 1);
    }
}

// ---------------------------------------------------------------------------
// Laws
// ---------------------------------------------------------------------------

/// Is the tag one that a caller may set?
pub open spec fn is_free_tag(tag: (Seq<char>, Seq<char>)) -> bool {
    !is_reserved_tag(tag.0) && is_tag_key(tag.0) && is_safe_text(tag.1) && !tag.1.contains(',')
}

/// Is the posting on a declared account, with an exact amount of a declared commodity
/// where it has one?
pub open spec fn is_declared_posting(
    p: PostingInputView,
    accounts: Seq<Seq<char>>,
    commodities: Seq<Seq<char>>,
) -> bool {
    accounts.contains(p.account) && (p.amount matches Some(a) ==> quantity_of(a.0) is Some && commodities.contains(a.1))
}

/// A transaction passes the checks exactly when its description is safe, it has two
/// postings or more, every posting is on a declared account with an exact amount of a
/// declared commodity, at most one amount is left out, the amounts of each commodity sum to
/// zero where none is left out, every tag is free for callers to set, and the idempotency key,
/// where there is one, stays one tag value. What passes is what was asked for.
pub proof fn law_validation_accepts_exactly(
    input: TransactionInputView,
    accounts: Seq<Seq<char>>,
    commodities: Seq<Seq<char>>,
)
    ensures
        validation(input, accounts, commodities) is Ok <==> {
            &&& is_safe_text(input.description)
            &&& input.postings.len() >= 2
            &&& forall|i: int|
                0 <= i < input.postings.len() ==> is_declared_posting(
                    #[trigger] input.postings[i],
                    accounts,
                    commodities,
                )
            &&& missing_amounts(input.postings) <= 1
            &&& missing_amounts(input.postings) == 0 ==> forall|i: int|
                0 <= i < input.postings.len() ==> sums_to_zero(
                    read_postings(input.postings),
                    ((#[trigger] input.postings[i]).amount->0).1,
                )
            &&& forall|i: int| 0 <= i < input.tags.len() ==> is_free_tag(#[trigger] input.tags[i])
            &&& input.idem matches Some(key) ==> is_idem_key(key)
        },
        validation(input, accounts, commodities) matches Ok(v) ==> v.postings == read_postings(input.postings) && v.tags
            == input.tags && v.description == input.description && v.date == input.date,
{
    lemma_postings_accept(input.postings, accounts, commodities);
    lemma_tags_accept(input.tags);
    let postings = read_postings(input.postings);
    if missing_amounts(input.postings) == 0 {
        lemma_none_missing(input.postings);
        lemma_balance_accept(postings, postings.len() as int);
        assert(forall|i: int| 0 <= i < postings.len() ==> #[trigger] postings[i] == read_posting(input.postings[i]));
        if balance_fault(postings, postings.len() as int) is None {
            assert forall|i: int| 0 <= i < input.postings.len() implies sums_to_zero(
                postings,
                ((#[trigger] input.postings[i]).amount->0).1,
            ) by {
                assert(postings[i].1 is Some);
            }
        } else {
            let k = choose|k: int|
                0 <= k < postings.len() && (#[trigger] postings[k]).1 is Some && !sums_to_zero(
                    postings,
                    (postings[k].1->0).1,
                );
            assert(!sums_to_zero(postings, (input.postings[k].amount->0).1));
        }
    }
}

/// Do the amounts in `commodity` sum to zero?
pub open spec fn sums_to_zero(postings: Seq<EntryPostingView>, commodity: Seq<char>) -> bool {
    commodity_sum(postings, commodity) matches Some(sum) && sum.mantissa == 0
}

proof fn lemma_postings_accept(
    postings: Seq<PostingInputView>,
    accounts: Seq<Seq<char>>,
    commodities: Seq<Seq<char>>,
)
    ensures
        postings_fault(postings, accounts, commodities) is None <==> forall|i: int|
            0 <= i < postings.len() ==> is_declared_posting(#[trigger] postings[i], accounts, commodities),
    decreases postings.len(),
{
    if postings.len() > 0 {
        let init = postings.drop_last();
        lemma_postings_accept(init, accounts, commodities);
        assert(forall|i: int| 0 <= i < init.len() ==> #[trigger] init[i] == postings[i]);
        if forall|i: int| 0 <= i < postings.len() ==> is_declared_posting(#[trigger] postings[i], accounts, commodities) {
            assert forall|i: int| 0 <= i < init.len() implies is_declared_posting(
                #[trigger] init[i],
                accounts,
                commodities,
            ) by {
                assert(is_declared_posting(postings[i], accounts, commodities));
            }
        }
        if postings_fault(postings, accounts, commodities) is None {
            assert forall|i: int| 0 <= i < postings.len() implies is_declared_posting(
                #[trigger] postings[i],
                accounts,
                commodities,
            ) by {
                if i < init.len() {
                    assert(is_declared_posting(init[i], accounts, commodities));
                }
            }
        }
    }
}

proof fn lemma_tags_accept(tags: Seq<(Seq<char>, Seq<char>)>)
    ensures
        tags_fault(tags) is None <==> forall|i: int| 0 <= i < tags.len() ==> is_free_tag(#[trigger] tags[i]),
    decreases tags.len(),
{
    if tags.len() > 0 {
        let init = tags.drop_last();
        lemma_tags_accept(init);
        if forall|i: int| 0 <= i < tags.len() ==> is_free_tag(#[trigger] tags[i]) {
            assert forall|i: int| 0 <= i < init.len() implies is_free_tag(#[trigger] init[i]) by {
                assert(is_free_tag(tags[i]));
            }
        }
        if tags_fault(tags) is None {
            assert forall|i: int| 0 <= i < tags.len() implies is_free_tag(#[trigger] tags[i]) by {
                if i < init.len() {
                    assert(is_free_tag(init[i]));
                }
            }
        }
    }
}

proof fn lemma_none_missing(postings: Seq<PostingInputView>)
    requires
        missing_amounts(postings) == 0,
    ensures
        forall|i: int| 0 <= i < postings.len() ==> (#[trigger] postings[i]).amount is Some,
    decreases postings.len(),
{
    if postings.len() > 0 {
        let init = postings.drop_last();
        lemma_none_missing(init);
        assert forall|i: int| 0 <= i < postings.len() implies (#[trigger] postings[i]).amount is Some by {
            if i < init.len() {
                assert(init[i].amount is Some);
            }
        }
    }
}

proof fn lemma_balance_accept(postings: Seq<EntryPostingView>, n: int)
    requires
        0 <= n <= postings.len(),
    ensures
        balance_fault(postings, n) is None ==> forall|i: int|
            0 <= i < n && (#[trigger] postings[i]).1 is Some ==> sums_to_zero(postings, (postings[i].1->0).1),
        balance_fault(postings, n) is Some ==> exists|i: int|
            0 <= i < n && (#[trigger] postings[i]).1 is Some && !sums_to_zero(postings, (postings[i].1->0).1),
    decreases n,
{
    if n > 0 {
        lemma_balance_accept(postings, n - 1);
        if balance_fault(postings, n) is Some && balance_fault(postings, n - 1) is None {
            assert(postings[n - 1].1 is Some && !sums_to_zero(postings, (postings[n - 1].1->0).1));
        }
    }
}

// ---------------------------------------------------------------------------
// What balances
// ---------------------------------------------------------------------------

/// What a posting puts into the commodity, counted in units of the last of `places` decimal
/// places: nothing where its amount is in another one or left out.
pub open spec fn share(p: EntryPostingView, commodity: Seq<char>, places: nat) -> int {
    match p.1 {
        Some(a) => if a.1 == commodity {
            a.0.mantissa * pow10((places - a.0.places) as nat)
        } else {
            0
        },
        None => 0,
    }
}

/// What each of the postings puts into the commodity.
pub open spec fn shares(postings: Seq<EntryPostingView>, commodity: Seq<char>, places: nat) -> Seq<int> {
    Seq::new(postings.len(), |i: int| share(postings[i], commodity, places))
}

/// Has no amount more than so many decimal places?
pub open spec fn within_places(postings: Seq<EntryPostingView>, places: nat) -> bool {
    forall|i: int| 0 <= i < postings.len() ==> ((#[trigger] postings[i]).1 matches Some(a) ==> a.0.places <= places)
}

proof fn lemma_rescaled(q: Quantity, places: nat, more: nat)
    requires
        q.places <= places <= more,
    ensures
        scaled(q, more) == scaled(q, places) * pow10((more - places) as nat),
        absolute(scaled(q, places)) <= absolute(scaled(q, more)),
{
    let a = pow10((places - q.places) as nat);
    let b = pow10((more - places) as nat);
    lemma_pow10_add((places - q.places) as nat, (more - places) as nat);
    lemma_pow10_positive((more - places) as nat);
    let m = q.mantissa as int;
    assert(m * (a * b) == (m * a) * b) by (nonlinear_arith);
    let x = m * a;
    assert(absolute(x) <= absolute(x * b)) by (nonlinear_arith)
        requires
            b >= 1,
    ;
}

proof fn lemma_commodity_total(postings: Seq<EntryPostingView>, commodity: Seq<char>, places: nat)
    requires
        within_places(postings, places),
    ensures
        match commodity_sum(postings, commodity) {
            Some(sum) => sum.places <= places && scaled(sum, places) == total(shares(postings, commodity, places)),
            None => total(absolutes(shares(postings, commodity, places))) > i128::MAX,
        },
    decreases postings.len(),
{
    let all = shares(postings, commodity, places);
    if postings.len() == 0 {
        assert(0 * pow10(places) == 0) by (nonlinear_arith);
    } else {
        let init = postings.drop_last();
        let last = postings.last();
        let before = shares(init, commodity, places);
        assert forall|i: int| 0 <= i < init.len() implies ((#[trigger] init[i]).1 matches Some(a) ==> a.0.places
            <= places) by {
            assert(init[i] == postings[i]);
        }
        lemma_commodity_total(init, commodity, places);
        assert(all.drop_last() =~= before);
        assert(absolutes(all).drop_last() =~= absolutes(before));
        assert(postings[postings.len() - 1] == last);
        lemma_total_within(before);
        if let Some(sum) = commodity_sum(init, commodity) {
            if last.1 is Some && (last.1->0).1 == commodity {
                let a = (last.1->0).0;
                let p = common_places(sum, a) as nat;
                lemma_rescaled(sum, p, places);
                lemma_rescaled(a, p, places);
                let x = scaled(sum, p);
                let y = scaled(a, p);
                let k = pow10((places - p) as nat);
                assert((x + y) * k == x * k + y * k) by (nonlinear_arith);
                if let Some(next) = quantity_sum(sum, a) {
                    assert(scaled(next, places) == (x + y) * k);
                }
            }
        }
    }
}

proof fn lemma_zero_sum(q: Quantity, places: nat)
    requires
        q.places <= places,
    ensures
        scaled(q, places) == 0 <==> q.mantissa == 0,
{
    let k = pow10((places - q.places) as nat);
    let m = q.mantissa as int;
    lemma_pow10_positive((places - q.places) as nat);
    assert(m * k == 0 <==> m == 0) by (nonlinear_arith)
        requires
            k >= 1,
    ;
}

/// What is accepted balances. Where no amount is left out, the amounts of all postings in a
/// commodity, each counted once and all in the same unit, add up to zero, in every commodity.
pub proof fn law_accepted_postings_balance(
    input: TransactionInputView,
    accounts: Seq<Seq<char>>,
    commodities: Seq<Seq<char>>,
    commodity: Seq<char>,
    places: nat,
)
    requires
        validation(input, accounts, commodities) is Ok,
        forall|i: int| 0 <= i < input.postings.len() ==> (#[trigger] input.postings[i]).amount is Some,
        within_places((validation(input, accounts, commodities)->Ok_0).postings, places),
    ensures
        total(shares((validation(input, accounts, commodities)->Ok_0).postings, commodity, places)) == 0,
{
    law_validation_accepts_exactly(input, accounts, commodities);
    let postings = read_postings(input.postings);
    lemma_all_given(input.postings);
    lemma_commodity_total(postings, commodity, places);
    if exists|i: int| 0 <= i < postings.len() && ((#[trigger] postings[i]).1->0).1 == commodity {
        let i = choose|i: int| 0 <= i < postings.len() && ((#[trigger] postings[i]).1->0).1 == commodity;
        assert(postings[i] == read_posting(input.postings[i]));
        assert(sums_to_zero(postings, (input.postings[i].amount->0).1));
        lemma_zero_sum(commodity_sum(postings, commodity)->0, places);
    } else {
        assert forall|i: int| 0 <= i < postings.len() implies #[trigger] shares(postings, commodity, places)[i] == 0 by {
            assert(postings[i] == read_posting(input.postings[i]));
            assert(input.postings[i].amount is Some);
        }
        lemma_total_of_zeros(shares(postings, commodity, places));
    }
}

proof fn lemma_all_given(postings: Seq<PostingInputView>)
    requires
        forall|i: int| 0 <= i < postings.len() ==> (#[trigger] postings[i]).amount is Some,
    ensures
        missing_amounts(postings) == 0,
    decreases postings.len(),
{
    if postings.len() > 0 {
        let init = postings.drop_last();
        assert forall|i: int| 0 <= i < init.len() implies (#[trigger] init[i]).amount is Some by {
            assert(init[i] == postings[i]);
        }
        assert(postings[postings.len() - 1].amount is Some);
        lemma_all_given(init);
    }
}

/// May a caller set this tag: is its name none of the three that the server sets, not empty, and
/// without white space, colon and comma; and has its value no line feed, semicolon and comma?
pub open spec fn is_callers_tag(name: Seq<char>, value: Seq<char>) -> bool {
    &&& name != "id"@ && name != "idem"@ && name != "reverses"@
    &&& name.len() > 0
    &&& forall|k: int| 0 <= k < name.len() ==> !is_white(#[trigger] name[k]) && name[k] != ':' && name[k] != ','
    &&& !value.contains('\n') && !value.contains(';') && !value.contains(',')
}

/// Is everything in order with the transaction but perhaps its balance: safe text, two postings
/// or more, each on a declared account with an exact amount of a declared commodity where it has
/// one, tags that callers may set, and a key that stays one tag value?
pub open spec fn is_well_formed(
    input: TransactionInputView,
    accounts: Seq<Seq<char>>,
    commodities: Seq<Seq<char>>,
) -> bool {
    &&& !input.description.contains('\n') && !input.description.contains(';')
    &&& input.postings.len() >= 2
    &&& forall|i: int|
        0 <= i < input.postings.len() ==> accounts.contains((#[trigger] input.postings[i]).account) && (
        input.postings[i].amount matches Some(a) ==> quantity_of(a.0) is Some && commodities.contains(a.1))
    &&& forall|i: int| 0 <= i < input.tags.len() ==> is_callers_tag(#[trigger] input.tags[i].0, input.tags[i].1)
    &&& input.idem matches Some(key) ==> !key.contains('\n') && !key.contains(';') && !key.contains(',')
}

/// What balances is accepted. A transaction that is in order and leaves no amount out is
/// accepted where the amounts of all postings add up to zero in every commodity, unless they
/// are too large to be added up.
pub proof fn law_balanced_postings_are_accepted(
    input: TransactionInputView,
    accounts: Seq<Seq<char>>,
    commodities: Seq<Seq<char>>,
    places: nat,
)
    requires
        is_well_formed(input, accounts, commodities),
        forall|i: int| 0 <= i < input.postings.len() ==> (#[trigger] input.postings[i]).amount is Some,
        within_places(read_postings(input.postings), places),
        forall|c: Seq<char>|
            total(#[trigger] shares(read_postings(input.postings), c, places)) == 0 && total(
                absolutes(shares(read_postings(input.postings), c, places)),
            ) <= i128::MAX,
    ensures
        validation(input, accounts, commodities) is Ok,
{
    law_validation_accepts_exactly(input, accounts, commodities);
    let postings = read_postings(input.postings);
    lemma_all_given(input.postings);
    lemma_callers_tags(input.tags);
    assert forall|i: int| 0 <= i < input.postings.len() implies sums_to_zero(
        postings,
        ((#[trigger] input.postings[i]).amount->0).1,
    ) by {
        let c = (input.postings[i].amount->0).1;
        lemma_commodity_total(postings, c, places);
        assert(total(shares(postings, c, places)) == 0);
        lemma_zero_sum(commodity_sum(postings, c)->0, places);
    }
    assert forall|i: int| 0 <= i < input.postings.len() implies is_declared_posting(
        #[trigger] input.postings[i],
        accounts,
        commodities,
    ) by {}
}

/// At most one amount is left out: what is accepted has no two postings without one, and a
/// transaction that is in order and leaves exactly one out is accepted, whatever the others add
/// up to.
pub proof fn law_one_amount_may_be_left_out(
    input: TransactionInputView,
    accounts: Seq<Seq<char>>,
    commodities: Seq<Seq<char>>,
)
    ensures
        validation(input, accounts, commodities) is Ok ==> is_well_formed(input, accounts, commodities) && forall|
            i: int,
            j: int,
        |
            0 <= i < j < input.postings.len() ==> (#[trigger] input.postings[i]).amount is Some || (
            #[trigger] input.postings[j]).amount is Some,
        is_well_formed(input, accounts, commodities) && (exists|k: int|
            0 <= k < input.postings.len() && (#[trigger] input.postings[k]).amount is None && forall|i: int|
                0 <= i < input.postings.len() && i != k ==> (#[trigger] input.postings[i]).amount is Some)
            ==> validation(input, accounts, commodities) is Ok,
{
    law_validation_accepts_exactly(input, accounts, commodities);
    lemma_missing_pairs(input.postings);
    lemma_callers_tags(input.tags);
    if is_well_formed(input, accounts, commodities) {
        assert forall|i: int| 0 <= i < input.postings.len() implies is_declared_posting(
            #[trigger] input.postings[i],
            accounts,
            commodities,
        ) by {}
    }
    if validation(input, accounts, commodities) is Ok {
        assert forall|i: int| 0 <= i < input.postings.len() implies accounts.contains(
            (#[trigger] input.postings[i]).account,
        ) && (input.postings[i].amount matches Some(a) ==> quantity_of(a.0) is Some && commodities.contains(a.1)) by {
            assert(is_declared_posting(input.postings[i], accounts, commodities));
        }
    }
    if exists|k: int|
        0 <= k < input.postings.len() && (#[trigger] input.postings[k]).amount is None && forall|i: int|
            0 <= i < input.postings.len() && i != k ==> (#[trigger] input.postings[i]).amount is Some {
        let k = choose|k: int|
            0 <= k < input.postings.len() && (#[trigger] input.postings[k]).amount is None && forall|i: int|
                0 <= i < input.postings.len() && i != k ==> (#[trigger] input.postings[i]).amount is Some;
        lemma_one_missing(input.postings, k);
    }
}

proof fn lemma_callers_tags(tags: Seq<(Seq<char>, Seq<char>)>)
    ensures
        (forall|i: int| 0 <= i < tags.len() ==> is_free_tag(#[trigger] tags[i])) <==> (forall|i: int|
            0 <= i < tags.len() ==> is_callers_tag(#[trigger] tags[i].0, tags[i].1)),
{
    assert forall|i: int| 0 <= i < tags.len() implies is_free_tag(#[trigger] tags[i]) == is_callers_tag(
        tags[i].0,
        tags[i].1,
    ) by {}
    if forall|i: int| 0 <= i < tags.len() ==> is_callers_tag(#[trigger] tags[i].0, tags[i].1) {
        assert forall|i: int| 0 <= i < tags.len() implies is_free_tag(#[trigger] tags[i]) by {
            assert(is_callers_tag(tags[i].0, tags[i].1));
        }
    }
    if forall|i: int| 0 <= i < tags.len() ==> is_free_tag(#[trigger] tags[i]) {
        assert forall|i: int| 0 <= i < tags.len() implies is_callers_tag(#[trigger] tags[i].0, tags[i].1) by {
            assert(is_free_tag(tags[i]));
        }
    }
}

proof fn lemma_missing_pairs(postings: Seq<PostingInputView>)
    ensures
        missing_amounts(postings) <= 1 ==> forall|i: int, j: int|
            0 <= i < j < postings.len() ==> (#[trigger] postings[i]).amount is Some || (
            #[trigger] postings[j]).amount is Some,
    decreases postings.len(),
{
    if postings.len() > 0 && missing_amounts(postings) <= 1 {
        let init = postings.drop_last();
        lemma_missing_pairs(init);
        if postings.last().amount is None {
            lemma_none_missing(init);
        }
        assert forall|i: int, j: int| 0 <= i < j < postings.len() implies (#[trigger] postings[i]).amount is Some || (
        #[trigger] postings[j]).amount is Some by {
            assert(init[i] == postings[i]);
            if j < init.len() {
                assert(init[j] == postings[j]);
            } else if postings.last().amount is None {
                assert(init[i].amount is Some);
            }
        }
    }
}

proof fn lemma_one_missing(postings: Seq<PostingInputView>, k: int)
    requires
        0 <= k < postings.len(),
        postings[k].amount is None,
        forall|i: int| 0 <= i < postings.len() && i != k ==> (#[trigger] postings[i]).amount is Some,
    ensures
        missing_amounts(postings) == 1,
    decreases postings.len(),
{
    let init = postings.drop_last();
    assert forall|i: int| 0 <= i < init.len() && i != k implies (#[trigger] init[i]).amount is Some by {
        assert(init[i] == postings[i]);
    }
    if k == postings.len() - 1 {
        lemma_all_given(init);
    } else {
        assert(postings[postings.len() - 1].amount is Some);
        lemma_one_missing(init, k);
    }
}

/// What is accepted is what was asked for: each posting on its account, with its amount, in its
/// commodity, in its place; and the date, the description and the tags as they were given.
pub proof fn law_accepted_is_what_was_asked_for(
    input: TransactionInputView,
    accounts: Seq<Seq<char>>,
    commodities: Seq<Seq<char>>,
    i: int,
)
    requires
        validation(input, accounts, commodities) is Ok,
        0 <= i < input.postings.len(),
    ensures
        ({
            let v = validation(input, accounts, commodities)->Ok_0;
            &&& v.date == input.date
            &&& v.description == input.description
            &&& v.tags == input.tags
            &&& v.postings.len() == input.postings.len()
            &&& v.postings[i].0 == input.postings[i].account
            &&& v.postings[i].1 is Some <==> input.postings[i].amount is Some
            &&& input.postings[i].amount matches Some(a) ==> quantity_of(a.0) == Some((v.postings[i].1->0).0) && (
            v.postings[i].1->0).1 == a.1
        }),
{
    law_validation_accepts_exactly(input, accounts, commodities);
    assert(is_declared_posting(input.postings[i], accounts, commodities));
}

// ---------------------------------------------------------------------------
// What is reported
// ---------------------------------------------------------------------------

/// The message for what does not balance tells the commodity and what its amounts add up to: the
/// sum that is written there is that of all postings in it, and is not zero.
pub proof fn law_unbalanced_message_tells_the_sum(
    postings: Seq<EntryPostingView>,
    commodity: Seq<char>,
    places: nat,
)
    requires
        within_places(postings, places),
    ensures
        match commodity_fault(postings, commodity) {
            None => total(shares(postings, commodity, places)) == 0,
            Some(m) => m == "amounts in "@ + commodity + " are too large to add up"@ || exists|sum: Quantity|
                sum.places <= places && sum.mantissa * pow10((places - sum.places) as nat) == total(
                    shares(postings, commodity, places),
                ) && sum.mantissa != 0 && m == "unbalanced: "@ + commodity + " postings sum to "@ + #[trigger] quantity_text(
                    sum,
                ) + " (must be 0, or omit one amount to balance)"@,
        },
        total(absolutes(shares(postings, commodity, places))) <= i128::MAX && total(
            shares(postings, commodity, places),
        ) != 0 ==> exists|sum: Quantity|
            sum.places <= places && sum.mantissa * pow10((places - sum.places) as nat) == total(
                shares(postings, commodity, places),
            ) && commodity_fault(postings, commodity) == Some(
                "unbalanced: "@ + commodity + " postings sum to "@ + #[trigger] quantity_text(sum)
                    + " (must be 0, or omit one amount to balance)"@,
            ),
{
    lemma_commodity_total(postings, commodity, places);
    if let Some(sum) = commodity_sum(postings, commodity) {
        lemma_zero_sum(sum, places);
        assert(quantity_text(sum) == quantity_text(sum));
    }
}

/// The commodity that is reported is the first one, in the order of the postings, that does not
/// balance.
pub proof fn law_first_unbalanced_commodity_is_reported(postings: Seq<EntryPostingView>, n: int)
    requires
        0 <= n <= postings.len(),
    ensures
        match balance_fault(postings, n) {
            None => forall|k: int|
                0 <= k < n && (#[trigger] postings[k]).1 is Some ==> commodity_fault(postings, (postings[k].1->0).1)
                    is None,
            Some(m) => exists|k: int|
                0 <= k < n && (#[trigger] postings[k]).1 is Some && commodity_fault(postings, (postings[k].1->0).1)
                    == Some(m) && forall|i: int|
                    0 <= i < k && (#[trigger] postings[i]).1 is Some ==> commodity_fault(
                        postings,
                        (postings[i].1->0).1,
                    ) is None,
        },
    decreases n,
{
    if n > 0 {
        law_first_unbalanced_commodity_is_reported(postings, n - 1);
        if balance_fault(postings, n - 1) is None && balance_fault(postings, n) is Some {
            assert(postings[n - 1].1 is Some);
        }
    }
}

/// What is wrong with a posting is told by what is missing first: its account, its amount, its
/// commodity. Of several postings the first that is refused is told.
pub proof fn law_first_refused_posting_is_reported(
    postings: Seq<PostingInputView>,
    accounts: Seq<Seq<char>>,
    commodities: Seq<Seq<char>>,
)
    ensures
        match postings_fault(postings, accounts, commodities) {
            None => forall|k: int|
                0 <= k < postings.len() ==> accounts.contains((#[trigger] postings[k]).account) && (
                postings[k].amount matches Some(a) ==> quantity_of(a.0) is Some && commodities.contains(a.1)),
            Some(m) => exists|k: int|
                0 <= k < postings.len() && is_refused_for(#[trigger] postings[k], accounts, commodities, m) && forall|
                    i: int,
                |
                    0 <= i < k ==> accounts.contains((#[trigger] postings[i]).account) && (
                    postings[i].amount matches Some(a) ==> quantity_of(a.0) is Some && commodities.contains(a.1)),
        },
    decreases postings.len(),
{
    if postings.len() > 0 {
        let init = postings.drop_last();
        let n = postings.len() - 1;
        law_first_refused_posting_is_reported(init, accounts, commodities);
        assert(forall|k: int| 0 <= k < init.len() ==> #[trigger] init[k] == postings[k]);
        match postings_fault(init, accounts, commodities) {
            Some(m) => {
                let k = choose|k: int|
                    0 <= k < init.len() && is_refused_for(#[trigger] init[k], accounts, commodities, m) && forall|i: int|
                        0 <= i < k ==> accounts.contains((#[trigger] init[i]).account) && (
                        init[i].amount matches Some(a) ==> quantity_of(a.0) is Some && commodities.contains(a.1));
                assert(postings[k] == init[k]);
                assert forall|i: int| 0 <= i < k implies accounts.contains((#[trigger] postings[i]).account) && (
                postings[i].amount matches Some(a) ==> quantity_of(a.0) is Some && commodities.contains(a.1)) by {
                    assert(init[i] == postings[i]);
                }
            },
            None => {
                assert forall|i: int| 0 <= i < n implies accounts.contains((#[trigger] postings[i]).account) && (
                postings[i].amount matches Some(a) ==> quantity_of(a.0) is Some && commodities.contains(a.1)) by {
                    assert(init[i] == postings[i]);
                }
                if let Some(m) = posting_fault(postings[n], accounts, commodities) {
                    assert(is_refused_for(postings[n], accounts, commodities, m));
                }
            },
        }
    }
}

/// Is the posting refused with this message: for an account that is not declared, else for an
/// amount that is none, else for a commodity that is not declared?
pub open spec fn is_refused_for(
    p: PostingInputView,
    accounts: Seq<Seq<char>>,
    commodities: Seq<Seq<char>>,
    m: Seq<char>,
) -> bool {
    if !accounts.contains(p.account) {
        m == "account not declared: '"@ + p.account + "' — declare it first with declare_account"@
    } else {
        p.amount matches Some(a) && if quantity_of(a.0) is None {
            m == "invalid amount '"@ + a.0 + "' for account '"@ + p.account + "'"@
        } else {
            !commodities.contains(a.1) && m == "commodity not declared: '"@ + a.1
                + "' — declare it first with declare_commodity"@
        }
    }
}

/// The first thing that is wrong with a transaction is told: its description, the number of its
/// postings, the postings, how many amounts are left out, the balance, the tags, and the key, in
/// this order.
pub proof fn law_first_fault_is_reported(
    input: TransactionInputView,
    accounts: Seq<Seq<char>>,
    commodities: Seq<Seq<char>>,
)
    ensures
        ({
            let r = validation(input, accounts, commodities);
            let safe = !input.description.contains('\n') && !input.description.contains(';');
            let listed = postings_fault(input.postings, accounts, commodities);
            &&& !safe ==> r == Err::<ValidatedView, Seq<char>>("description must not contain a newline or ';'"@)
            &&& safe && input.postings.len() < 2 ==> r == Err::<ValidatedView, Seq<char>>(
                "a transaction needs at least 2 postings"@,
            )
            &&& safe && input.postings.len() >= 2 && listed is Some ==> r == Err::<ValidatedView, Seq<char>>(listed->0)
            &&& safe && input.postings.len() >= 2 && listed is None && missing_amounts(input.postings) > 1 ==> r == Err::<
                ValidatedView,
                Seq<char>,
            >("at most one posting may omit its amount (the balancing posting)"@)
        }),
{
    reveal_strlit("description");
    reveal_strlit(" must not contain a newline or ';'");
    reveal_strlit("description must not contain a newline or ';'");
    assert("description"@ + " must not contain a newline or ';'"@ =~= "description must not contain a newline or ';'"@);
}

} // verus!
