//! Writing to the journal.
//!
//! - The live journal is replaced only after a candidate beside it passed hledger's strict
//!   check; on any failure it stays as it is, or is put back, and nothing is committed.
//! - What a caller asks for is checked before it is written out, so a candidate that fails
//!   the strict check is a fault of this server.
//! - Accounts and commodities have to be declared first.
//! - Nothing is edited in place: a correction is a reversing entry.

use vstd::prelude::*;

use crate::decimal::{decimal, decimal_text, is_digit, pow10, value};
use crate::epoch::{CommitOid, Epoch, Stale, first_twelve, oid_view, seen_view, stale_text};
use crate::sums::{law_total_is_additive, lemma_total_negated, total};
use crate::hledger::{
    HledgerError, Posting, PostingView, Transaction, TransactionView, Version, hledger_error_text,
    postings_view, tags_view, transactions_view,
};
use crate::hledger::amount::{Amount, Quantity, scaled};
use crate::path::{
    file_name_of, law_join_then_split, parent_of, path_file_name, path_join, path_parent, tidy,
};
use crate::text::{
    cat, cat3, chars_of, ends_with, has_char, has_prefix, has_suffix, is_blank, lines, same,
    starts_with, trim, trimmed,
};
use crate::write::format::{EntryPosting, EntryPostingView, entry_posting_view, entry_postings_view};
use crate::write::input::option_view;

pub mod append;
pub mod budget;
pub mod budgeting;
pub mod format;
pub mod guard;
pub mod input;
pub mod plan;
pub mod readback;
pub mod reconcile;
pub mod retry;
pub mod update;
pub mod validate;
pub mod view;

verus! {

// ---------------------------------------------------------------------------
// Outcomes and errors
// ---------------------------------------------------------------------------

/// What was written, and in which commit.
#[derive(Debug, Clone)]
pub struct CommitOutcome {
    /// The identifier of the transaction, or the name of the account or commodity.
    pub id: String,
    /// The commit at the head.
    pub commit: CommitOid,
}

/// The outcome of writing a transaction.
#[derive(Debug, Clone)]
pub struct WriteOutcome {
    pub base: CommitOutcome,
    /// Was it a repeated request for a transaction that is there already?
    pub deduped: bool,
}

/// The outcome of a write that took place.
impl From<CommitOutcome> for WriteOutcome {
    fn from(base: CommitOutcome) -> (r: Self) {
        WriteOutcome { base, deduped: false }
    }
}

impl vstd::std_specs::convert::FromSpecImpl<CommitOutcome> for WriteOutcome {
    open spec fn obeys_from_spec() -> bool {
        true
    }

    open spec fn from_spec(base: CommitOutcome) -> Self {
        WriteOutcome { base, deduped: false }
    }
}

/// Why nothing was written, by what the caller can do about it.
#[derive(Debug)]
pub enum WriteError {
    /// The request is wrong and can be corrected.
    Input(String),
    /// The surroundings do not allow a write; no other request would help.
    Refused(String),
    /// A decision on a stale read: read again, then retry.
    StaleEpoch(Stale),
    /// An unexpected failure.
    Internal(String),
}

/// The message of a write error.
pub open spec fn write_error_text(e: WriteError) -> Seq<char> {
    match e {
        WriteError::Input(m) => "input error: "@ + m@,
        WriteError::Refused(m) => "refused: "@ + m@,
        WriteError::StaleEpoch(stale) => stale_text(seen_view(stale.seen), stale.head@),
        WriteError::Internal(m) => "internal error: "@ + m@,
    }
}

/// Is it an input error with this message?
pub open spec fn is_input_error(e: WriteError, message: Seq<char>) -> bool {
    e matches WriteError::Input(m) && m@ == message
}

/// Is it a refusal with this message?
pub open spec fn is_refusal(e: WriteError, message: Seq<char>) -> bool {
    e matches WriteError::Refused(m) && m@ == message
}

/// Is it an internal error with this message?
pub open spec fn is_internal_error(e: WriteError, message: Seq<char>) -> bool {
    e matches WriteError::Internal(m) && m@ == message
}

impl WriteError {
    /// The message.
    pub fn to_string(&self) -> (r: String)
        ensures
            r@ == write_error_text(*self),
    {
        match self {
            WriteError::Input(m) => cat("input error: ", m),
            WriteError::Refused(m) => cat("refused: ", m),
            WriteError::StaleEpoch(stale) => stale.to_string(),
            WriteError::Internal(m) => cat("internal error: ", m),
        }
    }

    /// A file operation failed.
    pub fn io(context: &str, detail: &str) -> (r: WriteError)
        ensures
            is_internal_error(r, context@ + ": "@ + detail@),
    {
        WriteError::Internal(cat3(context, ": ", detail))
    }

    /// A repository operation failed.
    pub fn git(detail: &str) -> (r: WriteError)
        ensures
            is_internal_error(r, "git: "@ + detail@),
    {
        WriteError::Internal(cat("git: ", detail))
    }
}

// ---------------------------------------------------------------------------
// Outside helpers
// ---------------------------------------------------------------------------

/// What `{:?}` writes for a text.
pub uninterp spec fn debug_text(s: Seq<char>) -> Seq<char>;

/// `format!` with `{:?}`: the text in double quotes, with its special characters escaped.
/// The result depends on the text alone, and is named [`debug_text`].
#[verifier::external_body]
pub(crate) fn quoted(s: &str) -> (r: String)
    ensures
        r@ == debug_text(s@),
{
    format!("{s:?}")
}

/// Is it the text of a random UUID: 36 characters, hyphens at four of them, lower-case
/// hexadecimal digits at the others, with those that mark it as random?
pub open spec fn is_uuid_text(s: Seq<char>) -> bool {
    s.len() == 36 && s[14] == '4' && (s[19] == '8' || s[19] == '9' || s[19] == 'a' || s[19] == 'b') && forall|i: int|
        0 <= i < 36 ==> if i == 8 || i == 13 || i == 18 || i == 23 {
            #[trigger] s[i] == '-'
        } else {
            '0' <= s[i] <= '9' || 'a' <= s[i] <= 'f'
        }
}

/// `uuid::Uuid::new_v4`, as text: a random UUID. Which one it is rests on chance; its form
/// is always the hyphenated one in lower case.
#[verifier::external_body]
pub(crate) fn fresh_uuid() -> (r: String)
    ensures
        is_uuid_text(r@),
{
    uuid::Uuid::new_v4().to_string()
}

// ---------------------------------------------------------------------------
// The journal and its directory
// ---------------------------------------------------------------------------

/// The directory of the journal: its parent, or the current directory where it has none.
pub open spec fn journal_dir(journal: Seq<char>) -> Seq<char> {
    match path_parent(journal) {
        Some(p) => if p.len() > 0 {
            p
        } else {
            "."@
        },
        None => "."@,
    }
}

/// The directory of the journal: its parent, or `.` where it has none.
pub fn repo_dir(journal: &str) -> (r: String)
    ensures
        r@ == journal_dir(journal@),
{
    match parent_of(journal) {
        Some(p) => if is_blank(&p) {
            ".".to_owned()
        } else {
            p
        },
        None => ".".to_owned(),
    }
}

/// The path of the journal relative to its directory: its file name.
pub fn journal_relpath(journal: &str) -> (r: Result<String, WriteError>)
    ensures
        match r {
            Ok(name) => path_file_name(journal@) == Some(name@),
            Err(e) => path_file_name(journal@) is None && is_internal_error(
                e,
                "journal path has no file name: "@ + debug_text(journal@),
            ),
        },
{
    match file_name_of(journal) {
        Some(name) => Ok(name),
        None => Err(WriteError::Internal(cat("journal path has no file name: ", &quoted(journal)))),
    }
}

/// The name of the file that is locked while a process writes.
pub const LOCK_FILE: &'static str = ".hledger-mcp.lock";

/// What a new journal holds.
pub const NEW_JOURNAL: &'static str = "; hledger-mcp ledger\n";

/// The first part of the name of a candidate file.
pub const CANDIDATE_PREFIX: &'static str = ".hledger-mcp-candidate-";

/// Is it the name of a candidate file?
pub open spec fn is_candidate_name(name: Seq<char>) -> bool {
    starts_with(name, ".hledger-mcp-candidate-"@) && ends_with(name, ".journal"@)
}

/// Is it the name of a candidate file, which may be removed where no write is under way?
pub fn is_candidate_temp(name: &str) -> (r: bool)
    ensures
        r == is_candidate_name(name@),
{
    has_prefix(name, ".hledger-mcp-candidate-") && has_suffix(name, ".journal")
}

/// The name of a new candidate file.
pub fn candidate_name() -> (r: String)
    ensures
        exists|id: Seq<char>| is_uuid_text(id) && r@ == #[trigger] candidate_name_of(id),
        is_candidate_name(r@),
        !r@.contains('/'),
{
    let id: String = fresh_uuid();
    let r: String = cat3(".hledger-mcp-candidate-", &id, ".journal");
    proof {
        assert(r@ == candidate_name_of(id@));
        reveal_strlit(".hledger-mcp-candidate-");
        reveal_strlit(".journal");
        let n = ".hledger-mcp-candidate-"@.len() as int;
        assert(r@.take(n) =~= ".hledger-mcp-candidate-"@);
        assert(r@.skip(r@.len() - ".journal"@.len()) =~= ".journal"@);
        assert forall|i: int| 0 <= i < r@.len() implies r@[i] != '/' by {
            if i < n {
            } else if i < n + 36 {
                assert(r@[i] == id@[i - n]);
            } else {
                assert(r@[i] == ".journal"@[i - n - 36]);
            }
        }
    }
    r
}

/// The name of the candidate file with this identifier.
pub open spec fn candidate_name_of(id: Seq<char>) -> Seq<char> {
    ".hledger-mcp-candidate-"@ + id + ".journal"@
}

/// The journal with `addition` behind it: a line feed where its last line has none, an
/// empty line, then the addition.
pub open spec fn candidate(live: Seq<char>, addition: Seq<char>) -> Seq<char> {
    if live.len() > 0 && live.last() != '\n' {
        live + seq!['\n', '\n'] + addition
    } else {
        live + seq!['\n'] + addition
    }
}

/// The journal with `addition` behind it, separated by an empty line.
pub fn build_candidate(live: &str, addition: &str) -> (r: String)
    ensures
        r@ == candidate(live@, addition@),
{
    let cs: Vec<char> = chars_of(live);
    let mut out: String = live.to_owned();
    if cs.len() > 0 && cs[cs.len() - 1] != '\n' {
        out.push('\n');
    }
    out.push('\n');
    out.append(addition);
    assert(out@ =~= candidate(live@, addition@));
    out
}

/// A write only appends: everything that the journal held is still at its start, the
/// addition is at its end, and nothing but one or two line feeds stands between them.
pub proof fn law_candidate_is_append_only(live: Seq<char>, addition: Seq<char>)
    ensures
        starts_with(candidate(live, addition), live),
        ends_with(candidate(live, addition), addition),
        forall|i: int|
            live.len() <= i < candidate(live, addition).len() - addition.len() ==> #[trigger] candidate(live, addition)[i]
                == '\n',
        1 <= candidate(live, addition).len() - live.len() - addition.len() <= 2,
{
    let c = candidate(live, addition);
    assert(c.take(live.len() as int) =~= live);
    assert(c.skip(c.len() - addition.len()) =~= addition);
}

/// What was written stays: after a second write the first journal is still a prefix.
pub proof fn law_writes_accumulate(live: Seq<char>, first: Seq<char>, second: Seq<char>)
    ensures
        starts_with(candidate(candidate(live, first), second), live),
        starts_with(candidate(candidate(live, first), second), candidate(live, first)),
{
    law_candidate_is_append_only(live, first);
    law_candidate_is_append_only(candidate(live, first), second);
    let c = candidate(candidate(live, first), second);
    assert(c.take(live.len() as int) =~= live) by {
        let mid = candidate(live, first);
        assert(c.take(mid.len() as int) == mid);
        assert forall|i: int| 0 <= i < live.len() implies c[i] == live[i] by {
            assert(c[i] == c.take(mid.len() as int)[i]);
            assert(mid[i] == mid.take(live.len() as int)[i]);
        }
    }
}

// ---------------------------------------------------------------------------
// When writes are allowed, and the state of the repository
// ---------------------------------------------------------------------------

/// The message for a version other than the one that writes are made for.
pub open spec fn version_refusal(major: u32, minor: u32) -> Seq<char> {
    "refusing to write against hledger "@ + decimal(major as nat) + "."@ + decimal(minor as nat)
        + " (write path requires the pinned 1.52)"@
}

/// The journal to write to, where one is configured and hledger is the version that writes
/// are made for.
pub fn gate(journal: Option<&str>, version: &Result<Version, HledgerError>) -> (r: Result<String, WriteError>)
    ensures
        match journal {
            None => r matches Err(e) && is_refusal(e, "no journal configured"@),
            Some(journal) => match *version {
                Err(err) => r matches Err(e) && is_refusal(e, "hledger unavailable: "@ + hledger_error_text(err)),
                Ok(v) => if v.major == 1 && v.minor == 52 {
                    r matches Ok(path) && path@ == journal@
                } else {
                    r matches Err(e) && is_refusal(e, version_refusal(v.major, v.minor))
                },
            },
        },
{
    match journal {
        None => Err(WriteError::Refused("no journal configured".to_owned())),
        Some(journal) => match version {
            Err(err) => Err(WriteError::Refused(cat("hledger unavailable: ", &err.to_string()))),
            Ok(v) => if v.pin_matches() {
                Ok(journal.to_owned())
            } else {
                let mut m: String = "refusing to write against hledger ".to_owned();
                m.append(&decimal_text(v.major as u128));
                m.append(".");
                m.append(&decimal_text(v.minor as u128));
                m.append(" (write path requires the pinned 1.52)");
                Err(WriteError::Refused(m))
            },
        },
    }
}

/// What was found where the repository of the journal is looked for.
#[derive(Debug)]
pub enum RepoSample {
    /// There is no repository.
    NoRepo,
    /// It could not be opened; why.
    Failed(String),
    /// There is one.
    Repo {
        /// Is the journal uncommitted, where that could be told?
        dirty: Option<bool>,
        /// The commit at the head, or why it could not be read.
        head: Result<Option<CommitOid>, String>,
    },
}

/// The epoch: the commit at the head, none where there is no repository or no commit.
pub fn current_epoch(sample: RepoSample) -> (r: Result<Epoch, WriteError>)
    ensures
        match sample {
            RepoSample::NoRepo => r matches Ok(e) && e@ is None,
            RepoSample::Failed(why) => r matches Err(e) && is_internal_error(e, "git: "@ + why@),
            RepoSample::Repo { head: Ok(oid), .. } => r matches Ok(e) && e@ == oid_view(oid),
            RepoSample::Repo { head: Err(why), .. } => r matches Err(e) && is_internal_error(e, "git: "@ + why@),
        },
{
    match sample {
        RepoSample::NoRepo => Ok(Epoch::new(None)),
        RepoSample::Failed(why) => Err(WriteError::git(&why)),
        RepoSample::Repo { head, .. } => match head {
            Ok(oid) => Ok(Epoch::new(oid)),
            Err(why) => Err(WriteError::git(&why)),
        },
    }
}

/// The line that tells the state of the repository.
pub open spec fn git_line(exists_already: bool, sample: RepoSample) -> Seq<char> {
    if !exists_already {
        "git: (no journal yet — first write bootstraps it)"@
    } else {
        match sample {
            RepoSample::NoRepo => "git: (journal directory is not a git repo)"@,
            RepoSample::Failed(why) => "git: error ("@ + why@ + ")"@,
            RepoSample::Repo { dirty, head } => {
                let state = if dirty == Some(true) {
                    "dirty"@
                } else {
                    "clean"@
                };
                match head {
                    Ok(Some(oid)) => "git: "@ + first_twelve(oid@) + " ("@ + state + ")"@,
                    Ok(None) => "git: (no commits yet, "@ + state + ")"@,
                    Err(why) => "git: error ("@ + why@ + ")"@,
                }
            },
        }
    }
}

/// The line that tells the state of the repository: dirty means that the journal itself is
/// uncommitted.
pub fn git_status_line(exists_already: bool, sample: &RepoSample) -> (r: String)
    ensures
        r@ == git_line(exists_already, *sample),
{
    if !exists_already {
        return "git: (no journal yet — first write bootstraps it)".to_owned();
    }
    match sample {
        RepoSample::NoRepo => "git: (journal directory is not a git repo)".to_owned(),
        RepoSample::Failed(why) => cat3("git: error (", why, ")"),
        RepoSample::Repo { dirty, head } => {
            let state: &str = match dirty {
                Some(true) => "dirty",
                _ => "clean",
            };
            match head {
                Ok(Some(oid)) => {
                    let mut out: String = cat3("git: ", oid.short(), " (");
                    out.append(state);
                    out.append(")");
                    out
                },
                Ok(None) => cat3("git: (no commits yet, ", state, ")"),
                Err(why) => cat3("git: error (", why, ")"),
            }
        },
    }
}

// ---------------------------------------------------------------------------
// Tags
// ---------------------------------------------------------------------------

/// The value of the first tag `key`.
pub open spec fn tag_of(tags: Seq<(Seq<char>, Seq<char>)>, key: Seq<char>) -> Option<Seq<char>>
    decreases tags.len(),
{
    if tags.len() == 0 {
        None
    } else if tags[0].0 == key {
        Some(tags[0].1)
    } else {
        tag_of(tags.skip(1), key)
    }
}

/// The value of the first tag `key` of the transaction.
pub fn tag_value(txn: &Transaction, key: &str) -> (r: Option<String>)
    ensures
        option_view(r) == tag_of(txn@.tags, key@),
{
    let ghost all = tags_view(txn.tags@);
    let mut i: usize = 0;
    assert(all.skip(0) =~= all);
    while i < txn.tags.len()
        invariant
            i <= txn.tags.len(),
            all == tags_view(txn.tags@),
            tag_of(all, key@) == tag_of(all.skip(i as int), key@),
        decreases txn.tags.len() - i,
    {
        if same(&txn.tags[i].0, key) {
            return Some(txn.tags[i].1.clone());
        }
        proof {
            assert(all.skip(i as int).skip(1) =~= all.skip(i + 1));
        }
        i += 1;
    }
    None
}

/// Has the character a meaning of its own in a regular expression?
pub open spec fn is_meta(c: char) -> bool {
    c == '.' || c == '^' || c == '$' || c == '*' || c == '+' || c == '?' || c == '(' || c == ')' || c == '[' || c == ']'
        || c == '{' || c == '}' || c == '|' || c == '\\'
}

/// The text with a backslash before each such character.
pub open spec fn escaped(s: Seq<char>) -> Seq<char>
    decreases s.len(),
{
    if s.len() == 0 {
        Seq::empty()
    } else if is_meta(s.last()) {
        escaped(s.drop_last()).push('\\').push(s.last())
    } else {
        escaped(s.drop_last()).push(s.last())
    }
}

/// The regular expression that matches `s` and nothing else, but for anchors.
pub fn regex_escape(s: &str) -> (r: String)
    ensures
        r@ == escaped(s@),
{
    let cs: Vec<char> = chars_of(s);
    let mut out: String = String::new();
    let mut i: usize = 0;
    assert(out@ =~= escaped(s@.take(0)));
    while i < cs.len()
        invariant
            i <= cs.len(),
            cs@ == s@,
            out@ == escaped(s@.take(i as int)),
        decreases cs.len() - i,
    {
        let c: char = cs[i];
        proof {
            assert(s@.take(i + 1).drop_last() =~= s@.take(i as int));
        }
        if c == '.' || c == '^' || c == '$' || c == '*' || c == '+' || c == '?' || c == '(' || c == ')' || c == '['
            || c == ']' || c == '{' || c == '}' || c == '|' || c == '\\' {
            out.push('\\');
        }
        out.push(c);
        i += 1;
    }
    assert(s@.take(i as int) =~= s@);
    out
}

/// What a text of literal characters and escaped characters stands for.
pub open spec fn unescaped(s: Seq<char>) -> Seq<char>
    decreases s.len(),
{
    if s.len() == 0 {
        Seq::empty()
    } else if s[0] == '\\' && s.len() > 1 {
        seq![s[1]] + unescaped(s.skip(2))
    } else {
        seq![s[0]] + unescaped(s.skip(1))
    }
}

proof fn lemma_escaped_front(s: Seq<char>)
    requires
        s.len() > 0,
    ensures
        escaped(s) == (if is_meta(s[0]) {
            seq!['\\', s[0]]
        } else {
            seq![s[0]]
        }) + escaped(s.skip(1)),
    decreases s.len(),
{
    if s.len() == 1 {
        assert(s.drop_last() =~= Seq::empty());
        assert(s.skip(1) =~= Seq::empty());
        assert(escaped(Seq::<char>::empty()).len() == 0);
        assert(escaped(s) =~= (if is_meta(s[0]) {
            seq!['\\', s[0]]
        } else {
            seq![s[0]]
        }) + escaped(s.skip(1)));
    } else {
        lemma_escaped_front(s.drop_last());
        assert(s.drop_last().skip(1) =~= s.skip(1).drop_last());
        assert(escaped(s) =~= (if is_meta(s[0]) {
            seq!['\\', s[0]]
        } else {
            seq![s[0]]
        }) + escaped(s.skip(1)));
    }
}

/// An escaped text stands for the text itself, so different texts have different escapes.
pub proof fn law_escape_is_reversible(s: Seq<char>)
    ensures
        unescaped(escaped(s)) == s,
    decreases s.len(),
{
    if s.len() > 0 {
        lemma_escaped_front(s);
        law_escape_is_reversible(s.skip(1));
        let e = escaped(s);
        if is_meta(s[0]) {
            assert(e.skip(2) =~= escaped(s.skip(1)));
        } else {
            assert(e.skip(1) =~= escaped(s.skip(1)));
        }
        assert(unescaped(e) =~= s);
    }
}

/// Is it a regular expression that is made of literal characters only: of characters without
/// a meaning of their own, and of such characters behind a backslash?
pub open spec fn is_literal_pattern(p: Seq<char>) -> bool
    decreases p.len(),
{
    if p.len() == 0 {
        true
    } else if p[0] == '\\' {
        p.len() > 1 && is_meta(p[1]) && is_literal_pattern(p.skip(2))
    } else {
        !is_meta(p[0]) && is_literal_pattern(p.skip(1))
    }
}

/// An escaped text is made of literal characters only, whatever the text holds, so as a
/// pattern between anchors it matches the text and nothing else.
pub proof fn law_escape_is_literal(s: Seq<char>)
    ensures
        is_literal_pattern(escaped(s)),
    decreases s.len(),
{
    if s.len() > 0 {
        lemma_escaped_front(s);
        law_escape_is_literal(s.skip(1));
        let e = escaped(s);
        if is_meta(s[0]) {
            assert(e.skip(2) =~= escaped(s.skip(1)));
        } else {
            assert(e.skip(1) =~= escaped(s.skip(1)));
        }
    }
}

/// The query for the transactions whose tag `name` has exactly this value: anchored and
/// escaped, because hledger takes the value for a regular expression that may match
/// anywhere.
pub open spec fn exact_tag_query(name: Seq<char>, value: Seq<char>) -> Seq<char> {
    "tag:"@ + name + "=^"@ + escaped(value) + "$"@
}

/// The query for the transactions whose tag `name` has exactly this value.
pub fn tag_query(name: &str, value: &str) -> (r: String)
    ensures
        r@ == exact_tag_query(name@, value@),
{
    let mut out: String = cat3("tag:", name, "=^");
    out.append(&regex_escape(value));
    out.append("$");
    out
}

/// Those of `txns` whose tag `name` has exactly this value, in order.
pub open spec fn with_tag(txns: Seq<TransactionView>, name: Seq<char>, value: Seq<char>) -> Seq<TransactionView>
    decreases txns.len(),
{
    if txns.len() == 0 {
        Seq::empty()
    } else if tag_of(txns.last().tags, name) == Some(value) {
        with_tag(txns.drop_last(), name, value).push(txns.last())
    } else {
        with_tag(txns.drop_last(), name, value)
    }
}

/// Those of `txns` whose tag `name` has exactly this value: what [`tag_query`] found, held
/// against the value itself.
pub fn keep_exact_tag(txns: Vec<Transaction>, name: &str, value: &str) -> (r: Vec<Transaction>)
    ensures
        transactions_view(r@) == with_tag(transactions_view(txns@), name@, value@),
{
    let ghost all = transactions_view(txns@);
    let mut kept: Vec<Transaction> = txns;
    let mut i: usize = 0;
    let ghost mut k: int = 0;
    proof {
        assert(transactions_view(kept@) =~= with_tag(all.take(0), name@, value@) + all.skip(0));
    }
    while i < kept.len()
        invariant
            0 <= k <= all.len(),
            i == with_tag(all.take(k), name@, value@).len(),
            transactions_view(kept@) == with_tag(all.take(k), name@, value@) + all.skip(k),
        decreases kept.len() - i,
    {
        let ghost before = transactions_view(kept@);
        let matching: bool = match tag_value(&kept[i], name) {
            Some(v) => same(&v, value),
            None => false,
        };
        proof {
            assert(k < all.len());
            assert(before[i as int] == all[k]);
            assert(all.take(k + 1).drop_last() =~= all.take(k));
            assert(all.take(k + 1).last() == all[k]);
        }
        if matching {
            i += 1;
            proof {
                assert(transactions_view(kept@) =~= with_tag(all.take(k + 1), name@, value@) + all.skip(k + 1));
            }
        } else {
            let _ = kept.remove(i);
            proof {
                assert(transactions_view(kept@) =~= before.remove(i as int));
                assert(transactions_view(kept@) =~= with_tag(all.take(k + 1), name@, value@) + all.skip(k + 1));
            }
        }
        proof {
            k = k + 1;
        }
    }
    proof {
        assert(all.skip(k).len() == 0);
        assert(all.take(k) =~= all);
        assert(transactions_view(kept@) =~= with_tag(all, name@, value@));
    }
    kept
}

/// Every transaction that is kept has the tag with exactly that value, whatever the query
/// returned: a key that another one only begins with or contains is no match.
pub proof fn law_kept_transactions_match_exactly(txns: Seq<TransactionView>, name: Seq<char>, value: Seq<char>)
    ensures
        forall|i: int|
            0 <= i < with_tag(txns, name, value).len() ==> tag_of(
                (#[trigger] with_tag(txns, name, value)[i]).tags,
                name,
            ) == Some(value),
        forall|j: int|
            0 <= j < txns.len() && tag_of((#[trigger] txns[j]).tags, name) == Some(value) ==> with_tag(
                txns,
                name,
                value,
            ).contains(txns[j]),
    decreases txns.len(),
{
    if txns.len() > 0 {
        law_kept_transactions_match_exactly(txns.drop_last(), name, value);
        let kept = with_tag(txns, name, value);
        let init = with_tag(txns.drop_last(), name, value);
        assert forall|j: int| 0 <= j < txns.len() && tag_of((#[trigger] txns[j]).tags, name) == Some(
            value,
        ) implies kept.contains(txns[j]) by {
            if j < txns.len() - 1 {
                assert(txns.drop_last()[j] == txns[j]);
                let w = choose|w: int| 0 <= w < init.len() && init[w] == txns[j];
                assert(kept[w] == txns[j]);
            } else {
                assert(kept[kept.len() - 1] == txns[j]);
            }
        }
    }
}

// ---------------------------------------------------------------------------
// Reversal
// ---------------------------------------------------------------------------

/// The amounts of the postings, one line for each.
pub open spec fn posted_lines(postings: Seq<PostingView>) -> Seq<EntryPostingView>
    decreases postings.len(),
{
    if postings.len() == 0 {
        Seq::empty()
    } else {
        let p = postings.last();
        posted_lines(postings.drop_last()) + Seq::new(
            p.amounts.len(),
            |i: int| (p.account, Some((p.amounts[i].quantity, p.amounts[i].commodity))),
        )
    }
}

/// The quantity with the opposite sign.
pub open spec fn negated(q: Quantity) -> Quantity {
    Quantity { mantissa: (-q.mantissa) as i128, places: q.places }
}

/// The lines with their quantities negated.
pub open spec fn negated_lines(s: Seq<EntryPostingView>) -> Seq<EntryPostingView> {
    Seq::new(
        s.len(),
        |i: int|
            (
                s[i].0,
                match s[i].1 {
                    Some(a) => Some((negated(a.0), a.1)),
                    None => None,
                },
            ),
    )
}

/// Can every quantity be negated?
pub open spec fn reversible(postings: Seq<PostingView>) -> bool {
    forall|i: int, j: int|
        0 <= i < postings.len() && 0 <= j < postings[i].amounts.len() ==> (#[trigger] postings[i].amounts[j]).quantity.mantissa
            != i128::MIN
}

/// Can every quantity of the transaction be negated?
pub fn is_reversible(target: &Transaction) -> (r: bool)
    ensures
        r == reversible(target@.postings),
{
    let mut i: usize = 0;
    while i < target.postings.len()
        invariant
            i <= target.postings.len(),
            forall|a: int, b: int|
                0 <= a < i && 0 <= b < target@.postings[a].amounts.len() ==> (
                #[trigger] target@.postings[a].amounts[b]).quantity.mantissa != i128::MIN,
        decreases target.postings.len() - i,
    {
        let amounts: &Vec<Amount> = &target.postings[i].amounts;
        let mut j: usize = 0;
        while j < amounts.len()
            invariant
                i < target.postings.len(),
                j <= amounts.len(),
                *amounts == target.postings@[i as int].amounts,
                forall|b: int| 0 <= b < j ==> (#[trigger] target@.postings[i as int].amounts[b]).quantity.mantissa
                    != i128::MIN,
            decreases amounts.len() - j,
        {
            if amounts[j].quantity.mantissa == i128::MIN {
                assert(target@.postings[i as int].amounts[j as int].quantity.mantissa == i128::MIN);
                return false;
            }
            j += 1;
        }
        i += 1;
    }
    true
}

/// The lines of the entry that reverses a transaction: each of its amounts, negated.
pub fn reversal_postings(target: &Transaction) -> (r: Vec<EntryPosting>)
    requires
        reversible(target@.postings),
    ensures
        entry_postings_view(r@) == negated_lines(posted_lines(target@.postings)),
{
    let ghost all = target@.postings;
    let mut out: Vec<EntryPosting> = Vec::new();
    let mut i: usize = 0;
    assert(entry_postings_view(out@) =~= negated_lines(posted_lines(all.take(0))));
    while i < target.postings.len()
        invariant
            i <= target.postings.len(),
            all == postings_view(target.postings@),
            reversible(all),
            entry_postings_view(out@) == negated_lines(posted_lines(all.take(i as int))),
        decreases target.postings.len() - i,
    {
        let posting: &Posting = &target.postings[i];
        let ghost before = entry_postings_view(out@);
        let ghost p = all[i as int];
        let mut j: usize = 0;
        assert(entry_postings_view(out@) =~= before + Seq::new(
            0,
            |k: int| (p.account, Some((negated(p.amounts[k].quantity), p.amounts[k].commodity))),
        ));
        while j < posting.amounts.len()
            invariant
                i < target.postings.len(),
                *posting == target.postings@[i as int],
                all == postings_view(target.postings@),
                p == all[i as int],
                reversible(all),
                j <= posting.amounts.len(),
                entry_postings_view(out@) == before + Seq::new(
                    j as nat,
                    |k: int| (p.account, Some((negated(p.amounts[k].quantity), p.amounts[k].commodity))),
                ),
            decreases posting.amounts.len() - j,
        {
            let ghost so_far = out@;
            let amount: &Amount = &posting.amounts[j];
            assert(all[i as int].amounts[j as int] == amount@);
            let quantity: Quantity = Quantity::new(-amount.quantity.mantissa, amount.quantity.places);
            out.push((posting.account.clone(), Some((quantity, amount.commodity.clone()))));
            proof {
                assert(entry_postings_view(out@) =~= entry_postings_view(so_far).push(entry_posting_view(out@.last())));
                assert(entry_postings_view(out@) =~= before + Seq::new(
                    (j + 1) as nat,
                    |k: int| (p.account, Some((negated(p.amounts[k].quantity), p.amounts[k].commodity))),
                ));
            }
            j += 1;
        }
        proof {
            assert(all.take(i + 1).drop_last() =~= all.take(i as int));
            assert(all.take(i + 1).last() == p);
            assert(entry_postings_view(out@) =~= negated_lines(posted_lines(all.take(i + 1))));
        }
        i += 1;
    }
    assert(all.take(i as int) =~= all);
    out
}

/// How many amounts each of the postings has.
pub open spec fn amount_counts(postings: Seq<PostingView>) -> Seq<int> {
    Seq::new(postings.len(), |i: int| postings[i].amounts.len() as int)
}

/// What an amount posts in `commodity`, counted in units of the last of `places` decimal places.
pub open spec fn amount_share(quantity: Quantity, of: Seq<char>, commodity: Seq<char>, places: nat) -> int {
    if of == commodity {
        quantity.mantissa * pow10((places - quantity.places) as nat)
    } else {
        0
    }
}

/// What each of the postings of a transaction posts in `commodity` to `account`.
pub open spec fn posting_shares(
    postings: Seq<PostingView>,
    account: Seq<char>,
    commodity: Seq<char>,
    places: nat,
) -> Seq<int> {
    Seq::new(
        postings.len(),
        |i: int|
            if postings[i].account == account {
                total(
                    Seq::new(
                        postings[i].amounts.len(),
                        |j: int|
                            amount_share(
                                postings[i].amounts[j].quantity,
                                postings[i].amounts[j].commodity,
                                commodity,
                                places,
                            ),
                    ),
                )
            } else {
                0
            },
    )
}

/// What each of the lines of an entry posts in `commodity` to `account`.
pub open spec fn line_shares(
    lines: Seq<EntryPostingView>,
    account: Seq<char>,
    commodity: Seq<char>,
    places: nat,
) -> Seq<int> {
    Seq::new(
        lines.len(),
        |k: int|
            match lines[k].1 {
                Some(a) => if lines[k].0 == account {
                    amount_share(a.0, a.1, commodity, places)
                } else {
                    0
                },
                None => 0,
            },
    )
}

proof fn lemma_posted_at(postings: Seq<PostingView>, i: int, j: int)
    requires
        0 <= i < postings.len(),
        0 <= j < postings[i].amounts.len(),
    ensures
        0 <= total(amount_counts(postings.take(i))) + j < posted_lines(postings).len(),
        posted_lines(postings)[total(amount_counts(postings.take(i))) + j] == (
            postings[i].account,
            Some((postings[i].amounts[j].quantity, postings[i].amounts[j].commodity)),
        ),
    decreases postings.len(),
{
    let init = postings.drop_last();
    lemma_posted_count(init);
    lemma_posted_count(postings.take(i));
    if i < init.len() {
        lemma_posted_at(init, i, j);
        assert(init.take(i) =~= postings.take(i));
    } else {
        assert(postings.take(i) =~= init);
    }
}

proof fn lemma_posted_count(postings: Seq<PostingView>)
    ensures
        posted_lines(postings).len() == total(amount_counts(postings)),
    decreases postings.len(),
{
    if postings.len() > 0 {
        let init = postings.drop_last();
        lemma_posted_count(init);
        assert(amount_counts(postings).drop_last() =~= amount_counts(init));
    }
}

/// A reversing entry has a line for each amount of the transaction and no other, in their order:
/// the one for an amount is on the account of its posting, in its commodity, with the quantity
/// negated. Where each posting has one amount, the line in the place of a posting is its own.
pub proof fn law_reversal_negates_each_amount(postings: Seq<PostingView>, i: int, j: int)
    requires
        reversible(postings),
        0 <= i < postings.len(),
        0 <= j < postings[i].amounts.len(),
    ensures
        ({
            let lines = negated_lines(posted_lines(postings));
            let at = total(amount_counts(postings.take(i))) + j;
            &&& lines.len() == total(amount_counts(postings))
            &&& 0 <= at < lines.len()
            &&& lines[at].0 == postings[i].account
            &&& lines[at].1 matches Some(a) && a.0.mantissa == -postings[i].amounts[j].quantity.mantissa && a.0.places
                == postings[i].amounts[j].quantity.places && a.1 == postings[i].amounts[j].commodity
            &&& (forall|k: int| 0 <= k < i ==> (#[trigger] postings[k]).amounts.len() == 1) ==> at == i + j
        }),
{
    lemma_posted_count(postings);
    lemma_posted_at(postings, i, j);
    if forall|k: int| 0 <= k < i ==> (#[trigger] postings[k]).amounts.len() == 1 {
        lemma_counts_of_one(postings.take(i));
    }
}

proof fn lemma_counts_of_one(postings: Seq<PostingView>)
    requires
        forall|k: int| 0 <= k < postings.len() ==> (#[trigger] postings[k]).amounts.len() == 1,
    ensures
        total(amount_counts(postings)) == postings.len(),
    decreases postings.len(),
{
    if postings.len() > 0 {
        let init = postings.drop_last();
        assert forall|k: int| 0 <= k < init.len() implies (#[trigger] init[k]).amounts.len() == 1 by {
            assert(init[k] == postings[k]);
        }
        assert(postings[postings.len() - 1].amounts.len() == 1);
        lemma_counts_of_one(init);
        assert(amount_counts(postings).drop_last() =~= amount_counts(init));
    }
}

/// A reversing entry takes back what the transaction did to every account: what it posts to an
/// account in a commodity, and what the postings of the transaction post there, add up to zero.
pub proof fn law_reversal_takes_back_each_account(
    postings: Seq<PostingView>,
    account: Seq<char>,
    commodity: Seq<char>,
    places: nat,
)
    requires
        reversible(postings),
    ensures
        total(line_shares(negated_lines(posted_lines(postings)), account, commodity, places)) + total(
            posting_shares(postings, account, commodity, places),
        ) == 0,
    decreases postings.len(),
{
    let lines = negated_lines(posted_lines(postings));
    let sums = posting_shares(postings, account, commodity, places);
    if postings.len() > 0 {
        let init = postings.drop_last();
        let p = postings.last();
        assert forall|i: int, j: int| 0 <= i < init.len() && 0 <= j < init[i].amounts.len() implies (
        #[trigger] init[i].amounts[j]).quantity.mantissa != i128::MIN by {
            assert(postings[i].amounts[j].quantity.mantissa != i128::MIN);
        }
        law_reversal_takes_back_each_account(init, account, commodity, places);
        let before = negated_lines(posted_lines(init));
        let own = Seq::new(
            p.amounts.len(),
            |j: int| (p.account, Some((negated(p.amounts[j].quantity), p.amounts[j].commodity))),
        );
        assert(lines =~= before + own);
        let a = line_shares(before, account, commodity, places);
        let b = line_shares(own, account, commodity, places);
        assert(line_shares(lines, account, commodity, places) =~= a + b);
        law_total_is_additive(a, b, 0);
        assert(sums.drop_last() =~= posting_shares(init, account, commodity, places));
        let c = Seq::new(
            p.amounts.len(),
            |j: int| amount_share(p.amounts[j].quantity, p.amounts[j].commodity, commodity, places),
        );
        let n = postings.len() - 1;
        assert(postings[n] == p);
        if p.account == account {
            assert forall|j: int| 0 <= j < b.len() implies #[trigger] b[j] + c[j] == 0 by {
                assert(postings[n].amounts[j].quantity.mantissa != i128::MIN);
                let q = p.amounts[j].quantity;
                let k = pow10((places - q.places) as nat);
                assert((-q.mantissa) * k + q.mantissa * k == 0) by (nonlinear_arith);
            }
            lemma_total_negated(b, c);
            assert(sums.last() == total(c)) by {
                assert(c =~= Seq::new(
                    postings[n].amounts.len(),
                    |j: int|
                        amount_share(
                            postings[n].amounts[j].quantity,
                            postings[n].amounts[j].commodity,
                            commodity,
                            places,
                        ),
                ));
            }
        } else {
            let zeros = Seq::new(b.len(), |j: int| 0int);
            assert forall|j: int| 0 <= j < b.len() implies #[trigger] b[j] + zeros[j] == 0 by {}
            lemma_total_negated(b, zeros);
            assert forall|j: int| 0 <= j < zeros.len() implies #[trigger] zeros[j] + zeros[j] == 0 by {}
            lemma_total_negated(zeros, zeros);
        }
    }
}

/// The sum of what the lines post in `commodity` to `account`, counted in units of the
/// last of `places` decimal places.
pub open spec fn net(lines: Seq<EntryPostingView>, account: Seq<char>, commodity: Seq<char>, places: nat) -> int
    decreases lines.len(),
{
    if lines.len() == 0 {
        0
    } else {
        net(lines.drop_last(), account, commodity, places) + match lines.last().1 {
            Some(a) => if lines.last().0 == account && a.1 == commodity {
                scaled(a.0, places)
            } else {
                0
            },
            None => 0,
        }
    }
}

/// Negating a line twice gives the line again; and for every account and commodity, what the
/// lines and their negation post together is zero.
pub proof fn law_reversal_cancels(lines: Seq<EntryPostingView>, account: Seq<char>, commodity: Seq<char>, places: nat)
    requires
        forall|i: int|
            0 <= i < lines.len() ==> ((#[trigger] lines[i]).1 matches Some(a) ==> a.0.mantissa != i128::MIN && a.0.places
                <= places),
    ensures
        net(lines, account, commodity, places) + net(negated_lines(lines), account, commodity, places) == 0,
        negated_lines(negated_lines(lines)) == lines,
    decreases lines.len(),
{
    assert(negated_lines(negated_lines(lines)) =~= lines) by {
        assert forall|i: int| 0 <= i < lines.len() implies negated_lines(negated_lines(lines))[i] == lines[i] by {
            match lines[i].1 {
                Some(a) => {
                    assert(negated(negated(a.0)) == a.0);
                },
                None => {},
            }
        }
    }
    if lines.len() > 0 {
        let init = lines.drop_last();
        law_reversal_cancels(init, account, commodity, places);
        assert(negated_lines(lines).drop_last() =~= negated_lines(init));
        match lines.last().1 {
            Some(a) => {
                let k = pow10((places - a.0.places) as nat);
                assert(scaled(negated(a.0), places) == -scaled(a.0, places)) by (nonlinear_arith)
                    requires
                        scaled(negated(a.0), places) == (-a.0.mantissa) * k,
                        scaled(a.0, places) == a.0.mantissa * k,
                ;
            },
            None => {},
        }
    }
}

/// The lines of a reversible transaction can all be negated, so a transaction and the entry
/// that reverses it leave every account as it was.
pub proof fn law_void_leaves_nothing(postings: Seq<PostingView>, account: Seq<char>, commodity: Seq<char>, places: nat)
    requires
        reversible(postings),
        forall|i: int, j: int|
            0 <= i < postings.len() && 0 <= j < postings[i].amounts.len() ==> (
            #[trigger] postings[i].amounts[j]).quantity.places <= places,
    ensures
        net(posted_lines(postings), account, commodity, places) + net(
            negated_lines(posted_lines(postings)),
            account,
            commodity,
            places,
        ) == 0,
{
    lemma_posted_lines(postings, places);
    law_reversal_cancels(posted_lines(postings), account, commodity, places);
}

proof fn lemma_posted_lines(postings: Seq<PostingView>, places: nat)
    requires
        reversible(postings),
        forall|i: int, j: int|
            0 <= i < postings.len() && 0 <= j < postings[i].amounts.len() ==> (
            #[trigger] postings[i].amounts[j]).quantity.places <= places,
    ensures
        forall|k: int|
            0 <= k < posted_lines(postings).len() ==> ((#[trigger] posted_lines(postings)[k]).1 matches Some(a)
                ==> a.0.mantissa != i128::MIN && a.0.places <= places),
    decreases postings.len(),
{
    if postings.len() > 0 {
        let init = postings.drop_last();
        assert forall|i: int, j: int| 0 <= i < init.len() && 0 <= j < init[i].amounts.len() implies (
        #[trigger] init[i].amounts[j]).quantity.places <= places && init[i].amounts[j].quantity.mantissa != i128::MIN by {
            assert(init[i].amounts[j] == postings[i].amounts[j]);
        }
        lemma_posted_lines(init, places);
        let all = posted_lines(postings);
        let head = posted_lines(init);
        let p = postings.last();
        assert forall|k: int| 0 <= k < all.len() implies ((#[trigger] all[k]).1 matches Some(a) ==> a.0.mantissa
            != i128::MIN && a.0.places <= places) by {
            if k < head.len() {
                assert(all[k] == head[k]);
            } else {
                let j = k - head.len();
                assert(all[k] == (p.account, Some((p.amounts[j].quantity, p.amounts[j].commodity))));
                assert(postings[postings.len() - 1].amounts[j].quantity.places <= places);
            }
        }
    }
}

// ---------------------------------------------------------------------------
// Descriptions and directives
// ---------------------------------------------------------------------------

/// The text with a space in place of each line feed and semicolon.
pub open spec fn sanitized(s: Seq<char>) -> Seq<char> {
    Seq::new(
        s.len(),
        |i: int|
            if s[i] == '\n' || s[i] == ';' {
                ' '
            } else {
                s[i]
            },
    )
}

/// The text with a space in place of each line feed and semicolon.
pub fn sanitize(text: &str) -> (r: String)
    ensures
        r@ == sanitized(text@),
{
    let cs: Vec<char> = chars_of(text);
    let mut out: String = String::new();
    let mut i: usize = 0;
    while i < cs.len()
        invariant
            i <= cs.len(),
            cs@ == text@,
            out@ == sanitized(text@).take(i as int),
        decreases cs.len() - i,
    {
        if cs[i] == '\n' || cs[i] == ';' {
            out.push(' ');
        } else {
            out.push(cs[i]);
        }
        proof {
            assert(out@ =~= sanitized(text@).take(i + 1));
        }
        i += 1;
    }
    assert(out@ =~= sanitized(text@));
    out
}

/// Sanitized text is safe in a description, has the length of the text, and is the text
/// itself where that was safe already.
pub proof fn law_sanitized_text_is_safe(s: Seq<char>)
    ensures
        crate::write::validate::is_safe_text(sanitized(s)),
        sanitized(s).len() == s.len(),
        crate::write::validate::is_safe_text(s) ==> sanitized(s) == s,
        sanitized(sanitized(s)) == sanitized(s),
{
    if crate::write::validate::is_safe_text(s) {
        assert forall|i: int| 0 <= i < s.len() implies sanitized(s)[i] == s[i] by {
            assert(s.contains(s[i]));
        }
        assert(sanitized(s) =~= s);
    }
    assert(sanitized(sanitized(s)) =~= sanitized(s));
}

/// Can it be the name of an account: not empty, on one line, without a comment, and not
/// beginning or ending with a colon?
pub open spec fn is_account_name(s: Seq<char>) -> bool {
    s.len() > 0 && !s.contains('\n') && !s.contains(';') && s[0] != ':' && s.last() != ':'
}

/// The directive that declares an account, and the account's name, trimmed.
pub fn account_directive(name: &str) -> (r: Result<(String, String), WriteError>)
    ensures
        ({
            let t = trim(name@);
            match r {
                Ok((n, directive)) => is_account_name(t) && n@ == t && directive@ == "account "@ + t + "\n"@,
                Err(e) => !is_account_name(t) && is_input_error(e, "invalid account name: '"@ + t + "'"@),
            }
        }),
{
    let t: String = trimmed(name);
    let cs: Vec<char> = chars_of(&t);
    if cs.len() == 0 || has_char(&t, '\n') || has_char(&t, ';') || cs[0] == ':' || cs[cs.len() - 1] == ':' {
        return Err(WriteError::Input(cat3("invalid account name: '", &t, "'")));
    }
    let directive: String = cat3("account ", &t, "\n");
    Ok((t, directive))
}

/// Is `c` an ASCII letter?
pub open spec fn is_letter(c: char) -> bool {
    'a' <= c <= 'z' || 'A' <= c <= 'Z'
}

/// Can it be a commodity symbol: not empty, without line feed, semicolon, space and digits?
pub open spec fn is_commodity_symbol(s: Seq<char>) -> bool {
    s.len() > 0 && forall|i: int|
        0 <= i < s.len() ==> #[trigger] s[i] != '\n' && s[i] != ';' && s[i] != ' ' && !is_digit(s[i])
}

/// The directive that declares a commodity, by an example of an amount: the symbol to the
/// left unless it begins with a letter.
pub open spec fn commodity_text(symbol: Seq<char>, places: nat) -> Seq<char> {
    let sample = if places == 0 {
        "1000"@
    } else {
        "1000."@ + Seq::new(places, |i: int| '0')
    };
    if is_letter(symbol[0]) {
        "commodity "@ + sample + " "@ + symbol + "\n"@
    } else {
        "commodity "@ + symbol + sample + "\n"@
    }
}

/// The directive that declares a commodity, and its symbol, trimmed.
pub fn commodity_directive(symbol: &str, places: u32) -> (r: Result<(String, String), WriteError>)
    ensures
        ({
            let t = trim(symbol@);
            match r {
                Ok((s, directive)) => is_commodity_symbol(t) && s@ == t && directive@ == commodity_text(t, places as nat),
                Err(e) => !is_commodity_symbol(t) && is_input_error(e, "invalid commodity symbol: '"@ + t + "'"@),
            }
        }),
{
    let t: String = trimmed(symbol);
    let cs: Vec<char> = chars_of(&t);
    let mut bad: bool = cs.len() == 0;
    let mut i: usize = 0;
    while i < cs.len()
        invariant
            i <= cs.len(),
            cs@ == t@,
            bad == (cs.len() == 0 || exists|j: int|
                0 <= j < i && (#[trigger] cs@[j] == '\n' || cs@[j] == ';' || cs@[j] == ' ' || is_digit(cs@[j]))),
        decreases cs.len() - i,
    {
        if cs[i] == '\n' || cs[i] == ';' || cs[i] == ' ' || ('0' <= cs[i] && cs[i] <= '9') {
            bad = true;
        }
        i += 1;
    }
    if bad {
        return Err(WriteError::Input(cat3("invalid commodity symbol: '", &t, "'")));
    }
    let mut sample: String = "1000".to_owned();
    if places > 0 {
        sample = "1000.".to_owned();
        let mut k: u32 = 0;
        assert(sample@ =~= "1000."@ + Seq::new(0, |i: int| '0'));
        while k < places
            invariant
                k <= places,
                sample@ == "1000."@ + Seq::new(k as nat, |i: int| '0'),
            decreases places - k,
        {
            sample.push('0');
            proof {
                assert(sample@ =~= "1000."@ + Seq::new((k + 1) as nat, |i: int| '0'));
            }
            k += 1;
        }
    }
    let first: char = cs[0];
    let directive: String = if ('a' <= first && first <= 'z') || ('A' <= first && first <= 'Z') {
        let mut d: String = cat3("commodity ", &sample, " ");
        d.append(&t);
        d.append("\n");
        d
    } else {
        let mut d: String = cat3("commodity ", &t, &sample);
        d.append("\n");
        d
    };
    Ok((t, directive))
}

// ---------------------------------------------------------------------------
// What is looked for, and what is written
// ---------------------------------------------------------------------------

/// The value of a tag is that of the first tag of its name: there is one exactly where a tag has
/// the name, and no tag before it has.
pub proof fn law_tag_is_the_first_of_its_name(tags: Seq<(Seq<char>, Seq<char>)>, key: Seq<char>)
    ensures
        match tag_of(tags, key) {
            Some(v) => exists|k: int|
                0 <= k < tags.len() && #[trigger] tags[k] == (key, v) && forall|m: int|
                    0 <= m < k ==> (#[trigger] tags[m]).0 != key,
            None => forall|m: int| 0 <= m < tags.len() ==> (#[trigger] tags[m]).0 != key,
        },
    decreases tags.len(),
{
    if tags.len() > 0 {
        if tags[0].0 == key {
            assert(tags[0] == (key, tags[0].1));
        } else {
            let rest = tags.skip(1);
            law_tag_is_the_first_of_its_name(rest, key);
            match tag_of(rest, key) {
                Some(v) => {
                    let k = choose|k: int|
                        0 <= k < rest.len() && #[trigger] rest[k] == (key, v) && forall|m: int|
                            0 <= m < k ==> (#[trigger] rest[m]).0 != key;
                    assert(tags[k + 1] == (key, v));
                    assert forall|m: int| 0 <= m < k + 1 implies (#[trigger] tags[m]).0 != key by {
                        if m > 0 {
                            assert(rest[m - 1] == tags[m]);
                        }
                    }
                },
                None => {
                    assert forall|m: int| 0 <= m < tags.len() implies (#[trigger] tags[m]).0 != key by {
                        if m > 0 {
                            assert(rest[m - 1] == tags[m]);
                        }
                    }
                },
            }
        }
    }
}

/// Of two lists of transactions, one behind the other, those with the tag are those of the one
/// and then those of the other; a transaction is kept exactly where its tag has the value.
pub proof fn law_tagged_transactions_are_kept_in_order(
    a: Seq<TransactionView>,
    b: Seq<TransactionView>,
    t: TransactionView,
    name: Seq<char>,
    value: Seq<char>,
)
    ensures
        with_tag(a + b, name, value) == with_tag(a, name, value) + with_tag(b, name, value),
        with_tag(Seq::empty(), name, value).len() == 0,
        with_tag(seq![t], name, value) == if tag_of(t.tags, name) == Some(value) {
            seq![t]
        } else {
            Seq::empty()
        },
    decreases b.len(),
{
    if b.len() == 0 {
        assert(a + b =~= a);
        assert(with_tag(a, name, value) + with_tag(b, name, value) =~= with_tag(a, name, value));
    } else {
        law_tagged_transactions_are_kept_in_order(a, b.drop_last(), t, name, value);
        assert((a + b).drop_last() =~= a + b.drop_last());
        assert(with_tag(a + b, name, value) =~= with_tag(a, name, value) + with_tag(b, name, value));
    }
    let one = seq![t];
    assert(one.drop_last() =~= Seq::<TransactionView>::empty());
    assert(with_tag(one.drop_last(), name, value) =~= Seq::<TransactionView>::empty());
    assert(one.last() == t);
    assert(with_tag(one, name, value) =~= if tag_of(t.tags, name) == Some(value) {
        seq![t]
    } else {
        Seq::empty()
    });
}

/// A query for a tag is its name and a pattern between anchors that is made of literal
/// characters and stands for the value; the characters with a meaning of their own are these.
pub proof fn law_tag_query_is_anchored_and_literal(name: Seq<char>, value: Seq<char>, c: char) -> (pattern: Seq<char>)
    ensures
        exact_tag_query(name, value) == "tag:"@ + name + "=^"@ + pattern + "$"@,
        unescaped(pattern) == value,
        is_literal_pattern(pattern),
        is_meta(c) <==> seq!['.', '^', '$', '*', '+', '?', '(', ')', '[', ']', '{', '}', '|', '\\'].contains(c),
{
    law_escape_is_reversible(value);
    law_escape_is_literal(value);
    let all = seq!['.', '^', '$', '*', '+', '?', '(', ')', '[', ']', '{', '}', '|', '\\'];
    assert(all[0] == '.' && all[1] == '^' && all[2] == '$' && all[3] == '*' && all[4] == '+' && all[5] == '?' && all[6]
        == '(' && all[7] == ')' && all[8] == '[' && all[9] == ']' && all[10] == '{' && all[11] == '}' && all[12] == '|'
        && all[13] == '\\');
    if all.contains(c) {
        let k = choose|k: int| 0 <= k < all.len() && all[k] == c;
    }
    escaped(value)
}

/// An addition stands behind an empty line: a line feed is right before it, and another one or
/// the start of the file before that; and no more than that is put between.
pub proof fn law_addition_follows_an_empty_line(live: Seq<char>, addition: Seq<char>)
    ensures
        ({
            let c = candidate(live, addition);
            let at = c.len() - addition.len();
            &&& c.take(live.len() as int) == live
            &&& c.skip(at) == addition
            &&& c[at - 1] == '\n'
            &&& live.len() > 0 ==> c[at - 2] == '\n'
            &&& live.len() == 0 || live.last() == '\n' ==> at == live.len() + 1
            &&& live.len() > 0 && live.last() != '\n' ==> at == live.len() + 2
        }),
{
    let c = candidate(live, addition);
    let at = c.len() - addition.len();
    assert(c.take(live.len() as int) =~= live);
    assert(c.skip(at) =~= addition);
}

/// Sanitizing puts a space in the place of each line feed and each semicolon, and leaves every
/// other character.
pub proof fn law_sanitizing_replaces_two_characters(s: Seq<char>, i: int)
    requires
        0 <= i < s.len(),
    ensures
        sanitized(s).len() == s.len(),
        s[i] == '\n' || s[i] == ';' ==> sanitized(s)[i] == ' ',
        s[i] != '\n' && s[i] != ';' ==> sanitized(s)[i] == s[i],
{
}

/// A name is one that an account can have exactly where it is not empty, each of its characters
/// is neither a line feed nor a semicolon, and neither the first nor the last is a colon.
pub proof fn law_account_names(s: Seq<char>)
    ensures
        is_account_name(s) <==> s.len() > 0 && s[0] != ':' && s[s.len() - 1] != ':' && (forall|i: int|
            0 <= i < s.len() ==> #[trigger] s[i] != '\n' && s[i] != ';'),
{
    if is_account_name(s) {
        assert forall|i: int| 0 <= i < s.len() implies #[trigger] s[i] != '\n' && s[i] != ';' by {
            assert(s.contains(s[i]));
        }
    }
}

/// A symbol is one that a commodity can have exactly where it is not empty and none of its
/// characters is a line feed, a semicolon, a space or a digit.
pub proof fn law_commodity_symbols(s: Seq<char>)
    ensures
        is_commodity_symbol(s) <==> s.len() > 0 && !s.contains('\n') && !s.contains(';') && !s.contains(' ') && (forall|
            i: int,
        |
            0 <= i < s.len() ==> !('0' <= #[trigger] s[i] <= '9')),
{
    if is_commodity_symbol(s) {
        assert forall|i: int| 0 <= i < s.len() implies !('0' <= #[trigger] s[i] <= '9') by {
            assert(!is_digit(s[i]));
        }
    } else if s.len() > 0 && !s.contains('\n') && !s.contains(';') && !s.contains(' ') {
        if forall|i: int| 0 <= i < s.len() ==> !('0' <= #[trigger] s[i] <= '9') {
            assert forall|i: int| 0 <= i < s.len() implies #[trigger] s[i] != '\n' && s[i] != ';' && s[i] != ' '
                && !is_digit(s[i]) by {
                assert(s.contains(s[i]));
            }
        }
    }
}

/// A commodity is declared by an amount of a thousand with as many zeros behind the point as it
/// has decimal places, and no point where it has none. The symbol stands before the amount, or
/// behind it and a space where it begins with a letter.
pub proof fn law_commodity_is_declared_with_its_places(symbol: Seq<char>, places: nat, i: int)
    requires
        symbol.len() > 0,
    ensures
        ({
            let text = commodity_text(symbol, places);
            let width: int = if places == 0 {
                4
            } else {
                5 + places as int
            };
            let letter = 'a' <= symbol[0] <= 'z' || 'A' <= symbol[0] <= 'Z';
            let at: int = if letter {
                10
            } else {
                10 + symbol.len() as int
            };
            &&& text.take(10) == "commodity "@
            &&& text.last() == '\n'
            &&& text.len() == 11 + symbol.len() + width + if letter {
                1int
            } else {
                0
            }
            &&& text.subrange(at, at + 4) == "1000"@
            &&& places > 0 ==> text[at + 4] == '.'
            &&& 0 <= i < places ==> text[at + 5 + i] == '0'
            &&& letter ==> text[at + width] == ' ' && text.subrange(at + width + 1, text.len() - 1) == symbol
            &&& !letter ==> text.subrange(10, 10 + symbol.len() as int) == symbol
        }),
{
    let text = commodity_text(symbol, places);
    reveal_strlit("commodity ");
    reveal_strlit("1000");
    reveal_strlit("1000.");
    reveal_strlit(" ");
    reveal_strlit("\n");
    let width: int = if places == 0 {
        4
    } else {
        5 + places as int
    };
    let letter = 'a' <= symbol[0] <= 'z' || 'A' <= symbol[0] <= 'Z';
    let at: int = if letter {
        10
    } else {
        10 + symbol.len() as int
    };
    assert(text.take(10) =~= "commodity "@);
    assert(text.subrange(at, at + 4) =~= "1000"@);
    if letter {
        assert(text.subrange(at + width + 1, text.len() - 1) =~= symbol);
    } else {
        assert(text.subrange(10, 10 + symbol.len() as int) =~= symbol);
    }
}

/// The directory of a journal is the one that it lies in, and the current one where its path is a
/// bare name.
pub proof fn law_journal_lies_in_its_directory(dir: Seq<char>, name: Seq<char>)
    requires
        name.len() > 0,
        !name.contains('/'),
        name != seq!['.'],
        name != seq!['.', '.'],
    ensures
        journal_dir(path_join(dir, name)) == if tidy(dir).len() > 0 {
            tidy(dir)
        } else {
            "."@
        },
        path_file_name(path_join(dir, name)) == Some(name),
        journal_dir(name) == "."@,
{
    law_join_then_split(dir, name);
    law_join_then_split(Seq::empty(), name);
    assert(path_join(Seq::empty(), name) =~= name);
    assert(tidy(Seq::<char>::empty()).len() == 0);
}

/// A write against another hledger is refused by naming it and the one that writes are made for.
pub proof fn law_other_versions_are_named(major: u32, minor: u32)
    ensures
        version_refusal(major, minor) == "refusing to write against hledger "@ + decimal(major as nat) + "."@ + decimal(
            minor as nat,
        ) + " (write path requires the pinned 1.52)"@,
{
}

/// Every error of a write says of which kind it is, and why.
pub proof fn law_write_errors_are_told(m: String, stale: Stale)
    ensures
        write_error_text(WriteError::Input(m)) == "input error: "@ + m@,
        write_error_text(WriteError::Refused(m)) == "refused: "@ + m@,
        write_error_text(WriteError::Internal(m)) == "internal error: "@ + m@,
        write_error_text(WriteError::StaleEpoch(stale)) == stale_text(seen_view(stale.seen), stale.head@),
{
}

} // verus!
