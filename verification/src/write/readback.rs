//! An entry, read back from its text: its date, description, tags and postings.
//!
//! A journal keeps the tags of a transaction in the comment of its first line: parts between
//! commas, each a name and a value with a colon between them. Each further line is a posting.

use vstd::prelude::*;

use crate::date::{Civil, civil_text};
use crate::decimal::{all_digits, decimal, lemma_decimal_value, lemma_padded_digits, padded};
use crate::hledger::amount::{
    law_quantity_text_is_lossless, lemma_quantity_chars, quantity_of, quantity_text,
};
use crate::hledger::{
    PostingView, TransactionView, lemma_trim_end_within, lemma_trim_start, lemma_trim_start_within,
};
use crate::sums::total;
use crate::text::{
    find, is_line, is_white, join, lemma_find, lemma_find_unique, lemma_lines_of_terminated,
    lemma_terminated_front, lines, terminated, trim, trim_end, trim_start,
};
use crate::write::{
    is_uuid_text, law_reversal_takes_back_each_account, law_sanitized_text_is_safe, line_shares,
    negated_lines, posted_lines, posting_shares, reversible, sanitized, tag_of,
};
use crate::write::format::{
    EntryPostingView, entry_header, entry_lines, entry_text, lemma_header_is_one_line,
    posting_line, tag_text,
};
use crate::write::input::TransactionInputView;
use crate::write::plan::{
    Action, Reply, answers, is_key_for, law_stamps_are_found, listed_txns, post_text,
    reversal_tags, stamped, void_text,
};
use crate::write::validate::{
    ValidatedView, is_safe_text, is_tag_key, law_validation_accepts_exactly, validation,
};

verus! {

/// A tag in a part of a comment: what stands before the first colon, and what stands behind
/// it, without the white space around them. A part without a colon holds no tag.
pub open spec fn part_tags(part: Seq<char>) -> Seq<(Seq<char>, Seq<char>)> {
    let k = find(part, ':');
    if k < part.len() {
        seq![(trim(part.take(k)), trim(part.skip(k + 1)))]
    } else {
        Seq::empty()
    }
}

/// The tags in a comment: those of its parts between commas.
pub open spec fn comment_tags(s: Seq<char>) -> Seq<(Seq<char>, Seq<char>)>
    decreases s.len(),
    via comment_tags_decreases
{
    let c = find(s, ',');
    if c < s.len() {
        part_tags(s.take(c)) + comment_tags(s.skip(c + 1))
    } else {
        part_tags(s)
    }
}

#[via_fn]
proof fn comment_tags_decreases(s: Seq<char>) {
    lemma_find(s, ',');
}

/// The tags of an entry: those in the comment of its first line, which begins behind the first
/// semicolon.
pub open spec fn header_tags(entry: Seq<char>) -> Seq<(Seq<char>, Seq<char>)> {
    let header = entry.take(find(entry, '\n'));
    let k = find(header, ';');
    if k < header.len() {
        comment_tags(header.skip(k + 1))
    } else {
        Seq::empty()
    }
}

/// Can the value of a tag be read back as it is: does it hold no line feed and no comma, and
/// no white space at its ends?
pub open spec fn is_tag_value(s: Seq<char>) -> bool {
    !s.contains('\n') && !s.contains(',') && trim(s) == s
}

/// Can the tag be read back, up to white space around its value?
pub open spec fn is_written_tag(tag: (Seq<char>, Seq<char>)) -> bool {
    is_tag_key(tag.0) && !tag.1.contains('\n') && !tag.1.contains(',')
}

/// The tags without the white space around their values.
pub open spec fn trimmed_tags(tags: Seq<(Seq<char>, Seq<char>)>) -> Seq<(Seq<char>, Seq<char>)> {
    Seq::new(tags.len(), |i: int| (tags[i].0, trim(tags[i].1)))
}

proof fn lemma_comment_concat(a: Seq<char>, b: Seq<char>)
    ensures
        comment_tags(a + seq![','] + b) == comment_tags(a) + comment_tags(b),
    decreases a.len(),
{
    let s = a + seq![','] + b;
    let c = find(a, ',');
    lemma_find(a, ',');
    assert forall|i: int| 0 <= i < c implies s[i] != ',' by {
        assert(s[i] == a[i]);
    }
    lemma_find_unique(s, ',', c);
    if c < a.len() {
        lemma_comment_concat(a.skip(c + 1), b);
        assert(s.take(c) =~= a.take(c));
        assert(s.skip(c + 1) =~= a.skip(c + 1) + seq![','] + b);
        assert(comment_tags(s) =~= comment_tags(a) + comment_tags(b));
    } else {
        assert(s.take(c) =~= a);
        assert(s.skip(c + 1) =~= b);
    }
}

pub proof fn lemma_trim_word(s: Seq<char>)
    requires
        forall|i: int| 0 <= i < s.len() ==> !is_white(#[trigger] s[i]),
    ensures
        trim(s) == s,
        trim(seq![' '] + s) == s,
{
    let t = seq![' '] + s;
    assert(t[0] == ' ');
    assert(t.skip(1) =~= s);
    assert(trim_start(s) == s);
    assert(trim_start(t) == trim_start(t.skip(1)));
}

/// Text without white space at its ends stays as it is, and holds nothing new.
pub proof fn lemma_trim_clean(s: Seq<char>)
    ensures
        trim(trim(s)) == trim(s),
        forall|c: char| #[trigger] trim(s).contains(c) ==> s.contains(c),
{
    let front = trim_start(s);
    lemma_trim_start(s);
    lemma_trim_start_within(s);
    lemma_trim_end_within(front);
    assert forall|c: char| #[trigger] trim(s).contains(c) implies s.contains(c) by {
        assert(trim_end(front).contains(c));
        assert(front.contains(c));
    }
    assert(trim_start(trim(s)) == trim(s));
}

proof fn lemma_part(tag: (Seq<char>, Seq<char>))
    requires
        is_written_tag(tag),
    ensures
        comment_tags(seq![' '] + tag_text(tag)) == seq![(tag.0, trim(tag.1))],
{
    let s = seq![' '] + tag_text(tag);
    let k = 1 + tag.0.len() as int;
    assert forall|i: int| 0 <= i < s.len() implies s[i] != ',' by {
        if i > k {
            assert(s[i] == tag.1[i - k - 1]);
            assert(tag.1.contains(s[i]));
        } else if 0 < i < k {
            assert(s[i] == tag.0[i - 1]);
        }
    }
    lemma_find_unique(s, ',', s.len() as int);
    assert forall|i: int| 0 <= i < k implies s[i] != ':' by {
        if i > 0 {
            assert(s[i] == tag.0[i - 1]);
        }
    }
    assert(s[k] == ':');
    lemma_find_unique(s, ':', k);
    assert(s.take(k) =~= seq![' '] + tag.0);
    assert(s.skip(k + 1) =~= tag.1);
    lemma_trim_word(tag.0);
}

proof fn lemma_comment(tags: Seq<(Seq<char>, Seq<char>)>)
    requires
        tags.len() > 0,
        forall|i: int| 0 <= i < tags.len() ==> is_written_tag(#[trigger] tags[i]),
    ensures
        comment_tags(seq![' '] + join(Seq::new(tags.len(), |i: int| tag_text(tags[i])), ", "@)) == trimmed_tags(tags),
    decreases tags.len(),
{
    let parts = Seq::new(tags.len(), |i: int| tag_text(tags[i]));
    let last = tags.last();
    lemma_part(last);
    if tags.len() == 1 {
        assert(trimmed_tags(tags) =~= seq![(last.0, trim(last.1))]);
    } else {
        let init = tags.drop_last();
        let before = Seq::new(init.len(), |i: int| tag_text(init[i]));
        assert(parts.drop_last() =~= before);
        assert(is_written_tag(tags[0]));
        assert forall|i: int| 0 <= i < init.len() implies is_written_tag(#[trigger] init[i]) by {
            assert(init[i] == tags[i]);
        }
        lemma_comment(init);
        reveal_strlit(", ");
        let a = seq![' '] + join(before, ", "@);
        let b = seq![' '] + tag_text(last);
        lemma_comment_concat(a, b);
        assert(seq![' '] + join(parts, ", "@) =~= a + seq![','] + b);
        assert(trimmed_tags(init) + seq![(last.0, trim(last.1))] =~= trimmed_tags(tags));
    }
}

proof fn lemma_header_line(
    date: Seq<char>,
    description: Seq<char>,
    postings: Seq<EntryPostingView>,
    tags: Seq<(Seq<char>, Seq<char>)>,
)
    requires
        !date.contains('\n'),
        !description.contains('\n'),
        forall|i: int| 0 <= i < tags.len() ==> is_written_tag(#[trigger] tags[i]),
    ensures
        ({
            let entry = entry_text(date, description, postings, tags);
            entry.take(find(entry, '\n')) == entry_header(date, description, tags)
        }),
{
    let all = entry_lines(date, description, postings, tags);
    let entry = terminated(all);
    let header = entry_header(date, description, tags);
    assert forall|i: int| 0 <= i < tags.len() implies !(#[trigger] tags[i]).0.contains('\n') && !tags[i].1.contains(
        '\n',
    ) by {
        assert(is_written_tag(tags[i]));
        assert(forall|j: int| 0 <= j < tags[i].0.len() ==> !is_white(#[trigger] tags[i].0[j]));
    }
    lemma_header_is_one_line(date, description, tags);
    lemma_terminated_front(all);
    assert(all[0] == header);
    assert forall|i: int| 0 <= i < header.len() implies entry[i] != '\n' by {
        assert(header.contains(header[i]));
    }
    lemma_find_unique(entry, '\n', header.len() as int);
    assert(entry.take(header.len() as int) =~= header);
}

/// The tags that an entry was written with are read back from its text, without the white
/// space around their values.
pub proof fn law_tags_read_back(
    date: Seq<char>,
    description: Seq<char>,
    postings: Seq<EntryPostingView>,
    tags: Seq<(Seq<char>, Seq<char>)>,
)
    requires
        is_safe_text(date),
        is_safe_text(description),
        forall|i: int| 0 <= i < tags.len() ==> is_written_tag(#[trigger] tags[i]),
    ensures
        header_tags(entry_text(date, description, postings, tags)) == trimmed_tags(tags),
{
    let header = entry_header(date, description, tags);
    lemma_header_line(date, description, postings, tags);
    let described = if description.len() == 0 {
        date
    } else {
        date + seq![' '] + description
    };
    reveal_strlit("  ; ");
    let n = described.len() as int;
    assert forall|i: int| 0 <= i < n implies described[i] != ';' by {
        if i < date.len() {
            assert(date.contains(date[i]));
        } else if i > date.len() {
            assert(description.contains(description[i - date.len() - 1]));
        }
    }
    if tags.len() == 0 {
        lemma_find_unique(header, ';', n);
        assert(trimmed_tags(tags) =~= Seq::empty());
    } else {
        let parts = Seq::new(tags.len(), |i: int| tag_text(tags[i]));
        assert(header[n + 2] == ';');
        assert forall|i: int| 0 <= i < n + 2 implies header[i] != ';' by {
            if i < n {
                assert(header[i] == described[i]);
            }
        }
        lemma_find_unique(header, ';', n + 2);
        assert(header.skip(n + 3) =~= seq![' '] + join(parts, ", "@));
        lemma_comment(tags);
    }
}

// ---------------------------------------------------------------------------
// Date and description
// ---------------------------------------------------------------------------

/// The first line of an entry up to its comment.
pub open spec fn entry_title(entry: Seq<char>) -> Seq<char> {
    let header = entry.take(find(entry, '\n'));
    trim_end(header.take(find(header, ';')))
}

/// The date of an entry, as it is written: what its first line holds up to the first space.
pub open spec fn entry_date(entry: Seq<char>) -> Seq<char> {
    entry_title(entry).take(find(entry_title(entry), ' '))
}

/// The description of an entry: what its first line holds behind the date and before the
/// comment.
pub open spec fn entry_description(entry: Seq<char>) -> Seq<char> {
    let title = entry_title(entry);
    let k = find(title, ' ');
    if k < title.len() {
        trim(title.skip(k + 1))
    } else {
        Seq::empty()
    }
}

proof fn lemma_trim_end_blanks(s: Seq<char>)
    requires
        s.len() > 0 ==> !is_white(s.last()),
    ensures
        trim_end(s) == s,
        trim_end(s + "  "@) == s,
{
    reveal_strlit("  ");
    let two = s + "  "@;
    let one = s + seq![' '];
    assert(two.last() == ' ');
    assert(two.drop_last() =~= one);
    assert(one.last() == ' ');
    assert(one.drop_last() =~= s);
    assert(trim_end(one) == trim_end(s));
    assert(trim_end(two) == trim_end(one));
}

/// The date and the description that an entry was written with are read back from its text,
/// provided that the description has no white space at its ends.
pub proof fn law_title_reads_back(
    date: Civil,
    description: Seq<char>,
    postings: Seq<EntryPostingView>,
    tags: Seq<(Seq<char>, Seq<char>)>,
)
    requires
        is_safe_text(description),
        trim(description) == description,
        forall|i: int| 0 <= i < tags.len() ==> is_written_tag(#[trigger] tags[i]),
    ensures
        entry_date(entry_text(civil_text(date), description, postings, tags)) == civil_text(date),
        entry_description(entry_text(civil_text(date), description, postings, tags)) == description,
{
    let day = civil_text(date);
    let entry = entry_text(day, description, postings, tags);
    let header = entry_header(day, description, tags);
    lemma_date_is_safe(date);
    lemma_header_line(day, description, postings, tags);
    let described = if description.len() == 0 {
        day
    } else {
        day + seq![' '] + description
    };
    let n = described.len() as int;
    reveal_strlit("  ; ");
    reveal_strlit("  ");
    assert forall|i: int| 0 <= i < n implies described[i] != ';' by {
        if i < day.len() {
            assert(day.contains(day[i]));
        } else if i > day.len() {
            assert(description.contains(description[i - day.len() - 1]));
        }
    }
    lemma_trim_end_within(trim_start(description));
    assert(!is_white(described.last()));
    lemma_trim_end_blanks(described);
    if tags.len() == 0 {
        lemma_find_unique(header, ';', n);
        assert(header.take(n) =~= described);
    } else {
        assert(header[n + 2] == ';');
        assert forall|i: int| 0 <= i < n + 2 implies header[i] != ';' by {
            if i < n {
                assert(header[i] == described[i]);
            }
        }
        lemma_find_unique(header, ';', n + 2);
        assert(header.take(n + 2) =~= described + "  "@);
    }
    assert(entry_title(entry) == described);
    let k = day.len() as int;
    assert forall|i: int| 0 <= i < k implies described[i] != ' ' by {
        assert(described[i] == day[i]);
        assert(!is_white(day[i]));
    }
    lemma_find_unique(described, ' ', k);
    assert(described.take(k) =~= day);
    if description.len() > 0 {
        assert(described.skip(k + 1) =~= description);
    } else {
        assert(description =~= Seq::empty());
    }
}

// ---------------------------------------------------------------------------
// Postings
// ---------------------------------------------------------------------------

/// Where two spaces first stand next to each other in `s`, or the length of `s` where none do.
pub open spec fn gap(s: Seq<char>) -> int
    decreases s.len(),
{
    if s.len() == 0 || (s.len() > 1 && s[0] == ' ' && s[1] == ' ') {
        0
    } else {
        1 + gap(s.skip(1))
    }
}

/// The posting in a line of an entry: behind four spaces, the account up to two spaces, and
/// behind them a quantity and a commodity with a space between them.
pub open spec fn line_posting(line: Seq<char>) -> EntryPostingView {
    let body = line.skip(4);
    let k = gap(body);
    if k < body.len() {
        let amount = body.skip(k + 2);
        let m = find(amount, ' ');
        (
            body.take(k),
            match quantity_of(amount.take(m)) {
                Some(q) => Some((q, amount.skip(m + 1))),
                None => None,
            },
        )
    } else {
        (body, None)
    }
}

/// The postings of an entry: those in the lines behind the first one.
pub open spec fn entry_postings(entry: Seq<char>) -> Seq<EntryPostingView> {
    Seq::new((lines(entry).len() - 1) as nat, |i: int| line_posting(lines(entry)[i + 1]))
}

/// Can the name of an account be read back: does it stay on its line, with no two spaces next
/// to each other, and none at its end?
pub open spec fn is_readable_account(s: Seq<char>) -> bool {
    &&& !s.contains('\n')
    &&& s.len() > 0 ==> s.last() != ' '
    &&& forall|i: int| 0 <= i < s.len() - 1 ==> !(#[trigger] s[i] == ' ' && s[i + 1] == ' ')
}

/// Can the posting be read back: is it on an account that can be read back, and does the line
/// end with it?
pub open spec fn is_readable_posting(p: EntryPostingView) -> bool {
    is_readable_account(p.0) && match p.1 {
        Some(a) => is_line(a.1),
        None => is_line(p.0),
    }
}

proof fn lemma_gap(s: Seq<char>, k: int)
    requires
        0 <= k,
        k + 2 <= s.len(),
        s[k] == ' ',
        s[k + 1] == ' ',
        forall|i: int| 0 <= i < k ==> !(#[trigger] s[i] == ' ' && s[i + 1] == ' '),
    ensures
        gap(s) == k,
    decreases k,
{
    if k > 0 {
        assert(!(s[0] == ' ' && s[1] == ' '));
        assert forall|i: int| 0 <= i < k - 1 implies !(#[trigger] s.skip(1)[i] == ' ' && s.skip(1)[i + 1] == ' ') by {
            assert(!(s[i + 1] == ' ' && s[i + 2] == ' '));
        }
        lemma_gap(s.skip(1), k - 1);
    }
}

proof fn lemma_no_gap(s: Seq<char>)
    requires
        forall|i: int| 0 <= i < s.len() - 1 ==> !(#[trigger] s[i] == ' ' && s[i + 1] == ' '),
    ensures
        gap(s) == s.len(),
    decreases s.len(),
{
    if s.len() > 0 {
        if s.len() > 1 {
            assert(!(s[0] == ' ' && s[1] == ' '));
        }
        let t = s.skip(1);
        assert forall|i: int| 0 <= i < t.len() - 1 implies !(#[trigger] t[i] == ' ' && t[i + 1] == ' ') by {
            assert(!(s[i + 1] == ' ' && s[i + 2] == ' '));
        }
        lemma_no_gap(t);
    }
}

proof fn lemma_amount_line(p: EntryPostingView)
    requires
        is_readable_posting(p),
        p.1 is Some,
    ensures
        line_posting(posting_line(p)) == p,
        is_line(posting_line(p)),
{
    let a = p.1->0;
    let q = quantity_text(a.0);
    let line = posting_line(p);
    reveal_strlit("    ");
    reveal_strlit("  ");
    reveal_strlit(" ");
    lemma_quantity_chars(a.0);
    law_quantity_text_is_lossless(a.0);
    let body = line.skip(4);
    assert(body =~= p.0 + "  "@ + q + " "@ + a.1);
    let k = p.0.len() as int;
    assert forall|i: int| 0 <= i < k implies !(#[trigger] body[i] == ' ' && body[i + 1] == ' ') by {
        assert(body[i] == p.0[i]);
        if i + 1 < k {
            assert(body[i + 1] == p.0[i + 1]);
        }
    }
    lemma_gap(body, k);
    let amount = body.skip(k + 2);
    assert(amount =~= q + " "@ + a.1);
    assert forall|i: int| 0 <= i < q.len() implies amount[i] != ' ' by {
        assert(amount[i] == q[i]);
    }
    assert(amount[q.len() as int] == ' ');
    lemma_find_unique(amount, ' ', q.len() as int);
    assert(amount.take(q.len() as int) =~= q);
    assert(amount.skip(q.len() as int + 1) =~= a.1);
    assert(body.take(k) =~= p.0);
    assert forall|i: int| 0 <= i < line.len() implies line[i] != '\n' by {
        let n = 4 + k + 2 + q.len() as int;
        if 4 <= i < 4 + k {
            assert(line[i] == p.0[i - 4]);
            assert(p.0.contains(line[i]));
        } else if 4 + k + 2 <= i < n {
            assert(line[i] == q[i - k - 6]);
        } else if i > n {
            assert(line[i] == a.1[i - n - 1]);
            assert(a.1.contains(line[i]));
        }
    }
    if a.1.len() > 0 {
        assert(line.last() == a.1.last());
    } else {
        assert(line.last() == ' ');
    }
}

proof fn lemma_posting_line(p: EntryPostingView)
    requires
        is_readable_posting(p),
    ensures
        line_posting(posting_line(p)) == p,
        is_line(posting_line(p)),
{
    if p.1 is Some {
        lemma_amount_line(p);
    } else {
        let line = posting_line(p);
        reveal_strlit("    ");
        assert(line.skip(4) =~= p.0);
        lemma_no_gap(p.0);
        assert forall|i: int| 0 <= i < line.len() implies line[i] != '\n' by {
            if i >= 4 {
                assert(p.0.contains(p.0[i - 4]));
            }
        }
        if p.0.len() > 0 {
            assert(line.last() == p.0.last());
        } else {
            assert(line.last() == ' ');
        }
    }
}

/// The postings that an entry was written with are read back from its text.
pub proof fn law_postings_read_back(
    date: Seq<char>,
    description: Seq<char>,
    postings: Seq<EntryPostingView>,
    tags: Seq<(Seq<char>, Seq<char>)>,
)
    requires
        is_line(entry_header(date, description, tags)),
        forall|i: int| 0 <= i < postings.len() ==> is_readable_posting(#[trigger] postings[i]),
    ensures
        entry_postings(entry_text(date, description, postings, tags)) == postings,
{
    let all = entry_lines(date, description, postings, tags);
    assert forall|i: int| 0 <= i < all.len() implies is_line(#[trigger] all[i]) by {
        if i > 0 {
            assert(is_readable_posting(postings[i - 1]));
            lemma_posting_line(postings[i - 1]);
        }
    }
    lemma_lines_of_terminated(all);
    let read = entry_postings(terminated(all));
    assert forall|i: int| 0 <= i < postings.len() implies #[trigger] read[i] == postings[i] by {
        assert(is_readable_posting(postings[i]));
        lemma_posting_line(postings[i]);
        assert(all[i + 1] == posting_line(postings[i]));
    }
    assert(read =~= postings);
}

// ---------------------------------------------------------------------------
// Entries
// ---------------------------------------------------------------------------

/// Is `t` what the ledger holds of this entry: does it carry the tags that the text spells,
/// and, where the text leaves no amount out, the amounts that it spells?
pub open spec fn is_read_from(t: TransactionView, entry: Seq<char>) -> bool {
    &&& t.tags == header_tags(entry)
    &&& (forall|i: int| 0 <= i < entry_postings(entry).len() ==> (#[trigger] entry_postings(entry)[i]).1 is Some)
        ==> posted_lines(t.postings) == entry_postings(entry)
}

/// Is it what an action leaves of the ledger, by its reply? A search gives what is in it and
/// leaves it as it is. An entry that was appended is in it, behind what was there.
pub open spec fn ledger_after(
    ledger: Seq<TransactionView>,
    action: Action,
    reply: Reply,
    after: Seq<TransactionView>,
) -> bool {
    match (action, reply) {
        (Action::Append { addition, .. }, Reply::Committed(Ok(_))) => after.len() == ledger.len() + 1
            && after.drop_last() == ledger && is_read_from(after.last(), addition@),
        (Action::Print { query }, Reply::Transactions(Ok(_))) => after == ledger && answers(
            query@,
            listed_txns(reply),
            ledger,
        ),
        _ => after == ledger,
    }
}

proof fn lemma_digits_are_safe(s: Seq<char>)
    requires
        all_digits(s),
    ensures
        is_safe_text(s),
{
    assert forall|i: int| 0 <= i < s.len() implies s[i] != '\n' && s[i] != ';' by {}
}

proof fn lemma_safe_concat(a: Seq<char>, b: Seq<char>)
    requires
        is_safe_text(a),
        is_safe_text(b),
    ensures
        is_safe_text(a + b),
{
    let s = a + b;
    assert forall|i: int| 0 <= i < s.len() implies s[i] != '\n' && s[i] != ';' by {
        if i < a.len() {
            assert(a.contains(a[i]));
        } else {
            assert(b.contains(b[i - a.len()]));
        }
    }
}

proof fn lemma_date_is_safe(c: Civil)
    ensures
        is_safe_text(civil_text(c)),
        civil_text(c).len() > 0,
        forall|i: int| 0 <= i < civil_text(c).len() ==> !is_white(#[trigger] civil_text(c)[i]),
{
    let year = if 0 <= c.year <= 9999 {
        padded(c.year as nat, 4)
    } else if c.year < 0 {
        seq!['-'] + if c.year > -1000 {
            padded((-c.year) as nat, 4)
        } else {
            decimal((-c.year) as nat)
        }
    } else {
        seq!['+'] + decimal(c.year as nat)
    };
    let up = c.year as nat;
    let down = (-c.year) as nat;
    lemma_padded_digits(up, 4);
    lemma_padded_digits(down, 4);
    lemma_decimal_value(up);
    lemma_decimal_value(down);
    lemma_digits_are_safe(padded(up, 4));
    lemma_digits_are_safe(padded(down, 4));
    lemma_digits_are_safe(decimal(up));
    lemma_digits_are_safe(decimal(down));
    assert(is_safe_text(seq!['-']));
    assert(is_safe_text(seq!['+']));
    lemma_safe_concat(seq!['-'], padded(down, 4));
    lemma_safe_concat(seq!['-'], decimal(down));
    lemma_safe_concat(seq!['+'], decimal(up));
    assert(is_safe_text(year));
    let month = padded(c.month as nat, 2);
    let day = padded(c.day as nat, 2);
    lemma_padded_digits(c.month as nat, 2);
    lemma_padded_digits(c.day as nat, 2);
    lemma_digits_are_safe(month);
    lemma_digits_are_safe(day);
    lemma_safe_concat(year, seq!['-']);
    lemma_safe_concat(year + seq!['-'], month);
    lemma_safe_concat(year + seq!['-'] + month, seq!['-']);
    lemma_safe_concat(year + seq!['-'] + month + seq!['-'], day);
    assert forall|i: int| 0 <= i < year.len() implies !is_white(#[trigger] year[i]) by {
        if c.year < 0 && i > 0 {
            assert(year[i] == if c.year > -1000 {
                padded(down, 4)[i - 1]
            } else {
                decimal(down)[i - 1]
            });
        } else if c.year > 9999 && i > 0 {
            assert(year[i] == decimal(up)[i - 1]);
        }
    }
    let all = civil_text(c);
    assert forall|i: int| 0 <= i < all.len() implies !is_white(#[trigger] all[i]) by {
        let n = year.len() as int;
        if i < n {
            assert(all[i] == year[i]);
        } else if n < i < n + 3 {
            assert(all[i] == month[i - n - 1]);
        } else if i > n + 3 {
            assert(all[i] == day[i - n - 4]);
        }
    }
}

proof fn lemma_uuid_is_tag_value(id: Seq<char>)
    requires
        is_uuid_text(id),
    ensures
        is_tag_value(id),
{
    assert forall|i: int| 0 <= i < id.len() implies !is_white(#[trigger] id[i]) && id[i] != ',' by {}
    lemma_trim_word(id);
    assert(!id.contains('\n'));
}

/// Every entry that posting writes can be found again by its identifier and by its key: read
/// back from the text, its tags are the two and those that were asked for, these without white
/// space around their values.
pub proof fn law_posted_entry_is_found(
    input: TransactionInputView,
    accounts: Seq<Seq<char>>,
    commodities: Seq<Seq<char>>,
    id: Seq<char>,
    key: Seq<char>,
)
    requires
        validation(input, accounts, commodities) is Ok,
        is_uuid_text(id),
        is_key_for(input, key),
    ensures
        ({
            let v = validation(input, accounts, commodities)->Ok_0;
            let tags = header_tags(post_text(v, id, key));
            &&& tags == stamped(id, key, trimmed_tags(v.tags))
            &&& tag_of(tags, "id"@) == Some(id)
            &&& tag_of(tags, "idem"@) == Some(key)
        }),
{
    let v = validation(input, accounts, commodities)->Ok_0;
    law_validation_accepts_exactly(input, accounts, commodities);
    let tags = stamped(id, key, v.tags);
    lemma_date_is_safe(v.date);
    lemma_uuid_is_tag_value(id);
    match input.idem {
        Some(given) => {
            lemma_trim_clean(given);
        },
        None => {
            lemma_uuid_is_tag_value(key);
        },
    }
    assert(is_tag_value(key));
    reveal_strlit("id");
    reveal_strlit("idem");
    assert forall|i: int| 0 <= i < tags.len() implies is_written_tag(#[trigger] tags[i]) by {
        if i >= 2 {
            assert(tags[i] == input.tags[i - 2]);
        }
    }
    law_tags_read_back(civil_text(v.date), v.description, v.postings, tags);
    assert(trimmed_tags(tags) =~= stamped(id, key, trimmed_tags(v.tags)));
    law_stamps_are_found(id, key, trimmed_tags(v.tags));
}

proof fn lemma_posted_amounts(postings: Seq<PostingView>)
    ensures
        forall|i: int| 0 <= i < posted_lines(postings).len() ==> (#[trigger] posted_lines(postings)[i]).1 is Some,
    decreases postings.len(),
{
    if postings.len() > 0 {
        lemma_posted_amounts(postings.drop_last());
    }
}

/// Can the entry that reverses the transaction be read back: can its accounts and commodities?
pub open spec fn is_readable(t: TransactionView) -> bool {
    forall|i: int| 0 <= i < posted_lines(t.postings).len() ==> is_readable_posting(#[trigger] posted_lines(t.postings)[i])
}

/// Every reversing entry is read back as what it was written as: its tags are its identifier,
/// its key and the identifier of the transaction, and it posts the amounts of the transaction,
/// each with the opposite sign.
pub proof fn law_reversal_is_found(target: TransactionView, target_id: Seq<char>, id: Seq<char>, idem: Seq<char>)
    requires
        is_tag_value(target_id),
        is_readable(target),
        is_uuid_text(id),
        is_uuid_text(idem),
    ensures
        header_tags(void_text(target, target_id, id, idem)) == reversal_tags(target_id, id, idem),
        entry_postings(void_text(target, target_id, id, idem)) == negated_lines(posted_lines(target.postings)),
        forall|t: TransactionView| #[trigger]
            is_read_from(t, void_text(target, target_id, id, idem)) ==> t.tags == reversal_tags(target_id, id, idem)
                && posted_lines(t.postings) == negated_lines(posted_lines(target.postings)),
{
    let tags = reversal_tags(target_id, id, idem);
    lemma_date_is_safe(target.date);
    lemma_uuid_is_tag_value(id);
    lemma_uuid_is_tag_value(idem);
    let date = civil_text(target.date);
    let description = sanitized("reversal of "@ + target.description);
    let lines_of = posted_lines(target.postings);
    let postings = negated_lines(lines_of);
    law_sanitized_text_is_safe("reversal of "@ + target.description);
    reveal_strlit("id");
    reveal_strlit("idem");
    reveal_strlit("reverses");
    law_tags_read_back(date, description, postings, tags);
    assert(trimmed_tags(tags) =~= tags);
    assert forall|i: int| 0 <= i < tags.len() implies !(#[trigger] tags[i]).0.contains('\n') && !tags[i].1.contains(
        '\n',
    ) by {}
    let header = entry_header(date, description, tags);
    lemma_header_is_one_line(date, description, tags);
    let parts = Seq::new(tags.len(), |i: int| tag_text(tags[i]));
    assert(join(parts, ", "@) == join(parts.drop_last(), ", "@) + ", "@ + parts.last());
    assert(parts.last() == "reverses"@ + seq![':'] + target_id);
    assert(header.last() != '\r') by {
        lemma_trim_end_within(trim_start(target_id));
        if target_id.len() > 0 {
            assert(header.last() == target_id.last());
        } else {
            assert(header.last() == ':');
        }
    }
    assert forall|i: int| 0 <= i < postings.len() implies is_readable_posting(#[trigger] postings[i]) by {
        assert(is_readable_posting(lines_of[i]));
    }
    law_postings_read_back(date, description, postings, tags);
    lemma_posted_amounts(target.postings);
}

/// What is posted is what was asked for: read back from its text, the entry has the date, the
/// description, and each of the postings that passed the checks, in their order, with its account
/// and its amount. Names that no line could be read back from are left out, and a description
/// with white space at its ends.
pub proof fn law_posted_entry_reads_back(v: ValidatedView, id: Seq<char>, key: Seq<char>)
    requires
        is_uuid_text(id),
        is_tag_value(key),
        is_safe_text(v.description),
        trim(v.description) == v.description,
        forall|i: int| 0 <= i < v.tags.len() ==> is_written_tag(#[trigger] v.tags[i]),
        v.tags.len() > 0 ==> trim(v.tags.last().1) == v.tags.last().1,
        forall|i: int| 0 <= i < v.postings.len() ==> is_readable_posting(#[trigger] v.postings[i]),
    ensures
        entry_date(post_text(v, id, key)) == civil_text(v.date),
        entry_description(post_text(v, id, key)) == v.description,
        entry_postings(post_text(v, id, key)) == v.postings,
        header_tags(post_text(v, id, key)) == seq![("id"@, id), ("idem"@, key)] + trimmed_tags(v.tags),
{
    let tags = stamped(id, key, v.tags);
    lemma_date_is_safe(v.date);
    lemma_uuid_is_tag_value(id);
    reveal_strlit("id");
    reveal_strlit("idem");
    assert forall|i: int| 0 <= i < tags.len() implies is_written_tag(#[trigger] tags[i]) by {
        if i >= 2 {
            assert(tags[i] == v.tags[i - 2]);
        }
    }
    let day = civil_text(v.date);
    law_title_reads_back(v.date, v.description, v.postings, tags);
    law_tags_read_back(day, v.description, v.postings, tags);
    assert(trimmed_tags(tags) =~= seq![("id"@, id), ("idem"@, key)] + trimmed_tags(v.tags));
    assert(trim(tags.last().1) == tags.last().1) by {
        if v.tags.len() == 0 {
            assert(tags.last() == ("idem"@, key));
        } else {
            assert(tags.last() == v.tags.last());
        }
    }
    lemma_header_is_a_line(day, v.description, tags);
    law_postings_read_back(day, v.description, v.postings, tags);
}

proof fn lemma_header_is_a_line(date: Seq<char>, description: Seq<char>, tags: Seq<(Seq<char>, Seq<char>)>)
    requires
        is_safe_text(date),
        is_safe_text(description),
        tags.len() > 1,
        forall|i: int| 0 <= i < tags.len() ==> is_written_tag(#[trigger] tags[i]),
        trim(tags.last().1) == tags.last().1,
    ensures
        is_line(entry_header(date, description, tags)),
{
    let header = entry_header(date, description, tags);
    assert forall|i: int| 0 <= i < tags.len() implies !(#[trigger] tags[i]).0.contains('\n') && !tags[i].1.contains(
        '\n',
    ) by {
        assert(is_written_tag(tags[i]));
        assert(forall|j: int| 0 <= j < tags[i].0.len() ==> !is_white(#[trigger] tags[i].0[j]));
    }
    lemma_header_is_one_line(date, description, tags);
    let parts = Seq::new(tags.len(), |i: int| tag_text(tags[i]));
    let last = tags.last();
    assert(join(parts, ", "@) == join(parts.drop_last(), ", "@) + ", "@ + parts.last());
    assert(parts.last() == last.0 + seq![':'] + last.1);
    lemma_trim_end_within(trim_start(last.1));
    if last.1.len() > 0 {
        assert(header.last() == last.1.last());
    } else {
        assert(header.last() == ':');
    }
}

/// A reversing entry is on the date of what it reverses, says so, names it, and undoes each of its
/// amounts: read back from the text, it posts to every account the opposite of what the
/// transaction posted there.
pub proof fn law_reversing_entry_undoes_the_transaction(
    target: TransactionView,
    target_id: Seq<char>,
    id: Seq<char>,
    idem: Seq<char>,
    account: Seq<char>,
    commodity: Seq<char>,
    places: nat,
)
    requires
        is_tag_value(target_id),
        is_readable(target),
        reversible(target.postings),
        is_uuid_text(id),
        is_uuid_text(idem),
    ensures
        ({
            let entry = void_text(target, target_id, id, idem);
            &&& header_tags(entry) == seq![("id"@, id), ("idem"@, idem), ("reverses"@, target_id)]
            &&& total(line_shares(entry_postings(entry), account, commodity, places)) + total(
                posting_shares(target.postings, account, commodity, places),
            ) == 0
            &&& target.description == trim(target.description) && target.description.len() > 0 && !target.description.contains(
                '\n',
            ) && !target.description.contains(';') ==> entry_date(entry) == civil_text(target.date) && entry_description(
                entry,
            ) == "reversal of "@ + target.description
        }),
{
    law_reversal_is_found(target, target_id, id, idem);
    law_reversal_takes_back_each_account(target.postings, account, commodity, places);
    let told = target.description;
    if told == trim(told) && told.len() > 0 && !told.contains('\n') && !told.contains(';') {
        let all = "reversal of "@ + told;
        reveal_strlit("reversal of ");
        reveal_strlit("id");
        reveal_strlit("idem");
        reveal_strlit("reverses");
        lemma_safe_concat("reversal of "@, told);
        law_sanitized_text_is_safe(all);
        lemma_trim_end_within(trim_start(told));
        assert(!is_white(told.last()));
        assert(all[0] == 'r');
        assert(trim_start(all) == all);
        assert(all.last() == told.last());
        assert(trim(all) == all);
        let tags = reversal_tags(target_id, id, idem);
        lemma_uuid_is_tag_value(id);
        lemma_uuid_is_tag_value(idem);
        assert forall|i: int| 0 <= i < tags.len() implies is_written_tag(#[trigger] tags[i]) by {}
        law_title_reads_back(target.date, all, negated_lines(posted_lines(target.postings)), tags);
    }
}

} // verus!
