//! The text of a journal entry.
//!
//! ```text
//! <date> <description>  ; <k1>:<v1>, <k2>:<v2>, …
//!     <account>  <quantity> <commodity>
//!     <account>
//! ```
//!
//! An amount is written as quantity, space, commodity (`100.00 $`, `-44.00 EUR`), which
//! hledger reads whatever style the commodity was declared with.

use vstd::prelude::*;

use crate::hledger::tags_view;
use crate::hledger::amount::{Quantity, lemma_quantity_chars, quantity_text};
use crate::text::{
    ends_with, is_blank, is_line, join, join_texts, lemma_lines_of_terminated, lines, starts_with,
    terminated, texts,
};

verus! {

/// A posting to write: the account, and the quantity and commodity, left out on the
/// posting that balances the others.
pub type EntryPosting = (String, Option<(Quantity, String)>);

/// What an [`EntryPosting`] holds.
pub type EntryPostingView = (Seq<char>, Option<(Quantity, Seq<char>)>);

/// What an [`EntryPosting`] holds.
pub open spec fn entry_posting_view(p: EntryPosting) -> EntryPostingView {
    (
        p.0@,
        match p.1 {
            Some(a) => Some((a.0, a.1@)),
            None => None,
        },
    )
}

/// What a list of postings to write holds.
pub open spec fn entry_postings_view(v: Seq<EntryPosting>) -> Seq<EntryPostingView> {
    Seq::new(v.len(), |i: int| entry_posting_view(v[i]))
}

/// The text of one tag.
pub open spec fn tag_text(tag: (Seq<char>, Seq<char>)) -> Seq<char> {
    tag.0 + seq![':'] + tag.1
}

/// The first line of an entry: the date, the description unless it is empty, and the tags
/// in a comment unless there are none.
pub open spec fn entry_header(date: Seq<char>, description: Seq<char>, tags: Seq<(Seq<char>, Seq<char>)>) -> Seq<
    char,
> {
    let described = if description.len() == 0 {
        date
    } else {
        date + seq![' '] + description
    };
    if tags.len() == 0 {
        described
    } else {
        described + "  ; "@ + join(Seq::new(tags.len(), |i: int| tag_text(tags[i])), ", "@)
    }
}

/// The line of one posting.
pub open spec fn posting_line(p: EntryPostingView) -> Seq<char> {
    match p.1 {
        Some(a) => "    "@ + p.0 + "  "@ + quantity_text(a.0) + " "@ + a.1,
        None => "    "@ + p.0,
    }
}

/// The lines of an entry: the header, and one line for each posting.
pub open spec fn entry_lines(
    date: Seq<char>,
    description: Seq<char>,
    postings: Seq<EntryPostingView>,
    tags: Seq<(Seq<char>, Seq<char>)>,
) -> Seq<Seq<char>> {
    seq![entry_header(date, description, tags)] + Seq::new(postings.len(), |i: int| posting_line(postings[i]))
}

/// The text of an entry: its lines, each with a line feed behind it.
pub open spec fn entry_text(
    date: Seq<char>,
    description: Seq<char>,
    postings: Seq<EntryPostingView>,
    tags: Seq<(Seq<char>, Seq<char>)>,
) -> Seq<char> {
    terminated(entry_lines(date, description, postings, tags))
}

/// The text of an entry.
pub fn render_entry(date: &str, description: &str, postings: &[EntryPosting], tags: &[(String, String)]) -> (r:
    String)
    ensures
        r@ == entry_text(date@, description@, entry_postings_view(postings@), tags_view(tags@)),
{
    let mut out: String = date.to_owned();
    if !is_blank(description) {
        out.push(' ');
        out.append(description);
        assert(out@ =~= date@ + seq![' '] + description@);
    }
    if tags.len() > 0 {
        let mut parts: Vec<String> = Vec::new();
        let mut i: usize = 0;
        while i < tags.len()
            invariant
                i <= tags.len(),
                parts.len() == i,
                forall|j: int| 0 <= j < i ==> (#[trigger] parts@[j])@ == tag_text(tags_view(tags@)[j]),
            decreases tags.len() - i,
        {
            let mut part: String = tags[i].0.clone();
            part.push(':');
            part.append(&tags[i].1);
            assert(part@ =~= tag_text(tags_view(tags@)[i as int]));
            parts.push(part);
            i += 1;
        }
        out.append("  ; ");
        out.append(&join_texts(&parts, ", "));
        proof {
            let ts = tags_view(tags@);
            assert(texts(parts@) =~= Seq::new(ts.len(), |i: int| tag_text(ts[i])));
        }
    }
    let ghost header = out@;
    let ghost all = entry_lines(date@, description@, entry_postings_view(postings@), tags_view(tags@));
    out.push('\n');
    proof {
        assert(header == entry_header(date@, description@, tags_view(tags@)));
        assert(all.take(1).drop_last() =~= Seq::<Seq<char>>::empty());
        assert(terminated(Seq::<Seq<char>>::empty()).len() == 0);
        assert(all.take(1).last() == header);
        assert(out@ =~= terminated(all.take(1)));
    }
    let mut i: usize = 0;
    while i < postings.len()
        invariant
            i <= postings.len(),
            all == entry_lines(date@, description@, entry_postings_view(postings@), tags_view(tags@)),
            out@ == terminated(all.take(i + 1)),
        decreases postings.len() - i,
    {
        let ghost before = out@;
        let ghost view = entry_posting_view(postings@[i as int]);
        out.append("    ");
        out.append(&postings[i].0);
        match &postings[i].1 {
            Some((quantity, commodity)) => {
                out.append("  ");
                out.append(&quantity.render());
                out.append(" ");
                out.append(commodity);
            },
            None => {},
        }
        out.push('\n');
        proof {
            assert(out@ =~= before + posting_line(view) + seq!['\n']);
            assert(all.take(i + 2).drop_last() =~= all.take(i + 1));
            assert(all.take(i + 2).last() == posting_line(entry_postings_view(postings@)[i as int]));
        }
        i += 1;
    }
    assert(all.take(i + 1) =~= all);
    out
}

proof fn lemma_no_feed_concat(a: Seq<char>, b: Seq<char>)
    requires
        !a.contains('\n'),
        !b.contains('\n'),
    ensures
        !(a + b).contains('\n'),
{
    let s = a + b;
    assert forall|i: int| 0 <= i < s.len() implies s[i] != '\n' by {
        if i < a.len() {
            assert(a.contains(a[i]));
        } else {
            assert(b.contains(b[i - a.len()]));
        }
    }
}

proof fn lemma_no_feed_join(parts: Seq<Seq<char>>, sep: Seq<char>)
    requires
        !sep.contains('\n'),
        forall|i: int| 0 <= i < parts.len() ==> !(#[trigger] parts[i]).contains('\n'),
    ensures
        !join(parts, sep).contains('\n'),
    decreases parts.len(),
{
    if parts.len() > 1 {
        lemma_no_feed_join(parts.drop_last(), sep);
        lemma_no_feed_concat(join(parts.drop_last(), sep), sep);
        lemma_no_feed_concat(join(parts.drop_last(), sep) + sep, parts.last());
    }
}

pub proof fn lemma_header_is_one_line(date: Seq<char>, description: Seq<char>, tags: Seq<(Seq<char>, Seq<char>)>)
    requires
        !date.contains('\n'),
        !description.contains('\n'),
        forall|i: int| 0 <= i < tags.len() ==> !(#[trigger] tags[i]).0.contains('\n') && !tags[i].1.contains('\n'),
    ensures
        !entry_header(date, description, tags).contains('\n'),
{
    reveal_strlit("  ; ");
    reveal_strlit(", ");
    let described = if description.len() == 0 {
        date
    } else {
        date + seq![' '] + description
    };
    lemma_no_feed_concat(date, seq![' ']);
    lemma_no_feed_concat(date + seq![' '], description);
    let parts = Seq::new(tags.len(), |i: int| tag_text(tags[i]));
    assert forall|i: int| 0 <= i < parts.len() implies !(#[trigger] parts[i]).contains('\n') by {
        let t = tags[i];
        lemma_no_feed_concat(t.0, seq![':']);
        lemma_no_feed_concat(t.0 + seq![':'], t.1);
    }
    lemma_no_feed_join(parts, ", "@);
    lemma_no_feed_concat(described, "  ; "@);
    lemma_no_feed_concat(described + "  ; "@, join(parts, ", "@));
}

/// An entry whose parts hold no line feed, and of which no line ends in a carriage return, has
/// exactly one line more than it has postings: the header, which begins with the date, and
/// each posting, indented by four spaces.
pub proof fn law_entry_has_a_line_for_each_posting(
    date: Seq<char>,
    description: Seq<char>,
    postings: Seq<EntryPostingView>,
    tags: Seq<(Seq<char>, Seq<char>)>,
)
    requires
        !date.contains('\n'),
        !description.contains('\n'),
        forall|i: int|
            0 <= i < postings.len() ==> !(#[trigger] postings[i]).0.contains('\n') && (postings[i].1 matches Some(a)
                ==> !a.1.contains('\n')),
        forall|i: int| 0 <= i < tags.len() ==> !(#[trigger] tags[i]).0.contains('\n') && !tags[i].1.contains('\n'),
        forall|i: int|
            0 <= i <= postings.len() ==> !ends_with(
                #[trigger] entry_lines(date, description, postings, tags)[i],
                seq!['\r'],
            ),
    ensures
        lines(entry_text(date, description, postings, tags)) == entry_lines(date, description, postings, tags),
        lines(entry_text(date, description, postings, tags)).len() == postings.len() + 1,
        starts_with(lines(entry_text(date, description, postings, tags))[0], date),
        forall|i: int|
            1 <= i <= postings.len() ==> starts_with(
                #[trigger] lines(entry_text(date, description, postings, tags))[i],
                "    "@ + postings[i - 1].0,
            ),
{
    let all = entry_lines(date, description, postings, tags);
    reveal_strlit("    ");
    reveal_strlit("  ");
    reveal_strlit(" ");
    let header = entry_header(date, description, tags);
    lemma_header_is_one_line(date, description, tags);
    assert forall|i: int| 0 <= i < all.len() implies is_line(#[trigger] all[i]) by {
        assert(!all[i].contains('\n')) by {
            if i > 0 {
                let p = postings[i - 1];
                lemma_no_feed_concat("    "@, p.0);
                if let Some(a) = p.1 {
                    let q = quantity_text(a.0);
                    lemma_quantity_chars(a.0);
                    lemma_no_feed_concat("    "@ + p.0, "  "@);
                    lemma_no_feed_concat("    "@ + p.0 + "  "@, q);
                    lemma_no_feed_concat("    "@ + p.0 + "  "@ + q, " "@);
                    lemma_no_feed_concat("    "@ + p.0 + "  "@ + q + " "@, a.1);
                }
            }
        }
        assert(!ends_with(all[i], seq!['\r']));
        if all[i].len() > 0 && all[i].last() == '\r' {
            assert(all[i].skip(all[i].len() - 1) =~= seq!['\r']);
        }
    }
    lemma_lines_of_terminated(all);
    assert(header.take(date.len() as int) =~= date);
    assert forall|i: int| 1 <= i <= postings.len() implies starts_with(
        #[trigger] lines(entry_text(date, description, postings, tags))[i],
        "    "@ + postings[i - 1].0,
    ) by {
        let p = postings[i - 1];
        assert(posting_line(p).take(4 + p.0.len() as int) =~= "    "@ + p.0);
    }
}

} // verus!
