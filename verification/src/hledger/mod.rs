//! What is read from hledger: amounts, reports and transactions, and the forms in which
//! it is asked for them.

use vstd::prelude::*;

use crate::date::{Civil, Date};
use crate::decimal::{all_digits, is_digit, parse_digits, value};
use crate::hledger::amount::{Amount, AmountView, amounts_view};
use crate::text::{
    cat, cat3, chars_of, find, find_from, is_blank, is_white, is_whitespace, lemma_find,
    lemma_find_unique, lines, split_lines, strip_return, text_of, texts, trim, trim_end,
    trim_start, trimmed, trimmed_start,
};

pub mod amount;
pub mod cli;
pub mod fault;
pub mod json;

verus! {

/// The environment variable that names the hledger binary.
pub const HLEDGER_BIN_ENV: &'static str = "HLEDGER_EXECUTABLE_PATH";

/// The major part of the hledger version that this server is made for.
pub const PINNED_MAJOR: u32 = 1;

/// The minor part of the hledger version that this server is made for.
pub const PINNED_MINOR: u32 = 52;

// ---------------------------------------------------------------------------
// Errors
// ---------------------------------------------------------------------------

/// What can go wrong when hledger is run or its output is read.
#[derive(Debug, Clone, PartialEq, Eq)]
pub enum HledgerError {
    /// No journal is configured, and the operation needs one.
    NoJournal,
    /// The process could not be started.
    Spawn {
        /// The binary.
        bin: String,
        /// Why.
        source: String,
    },
    /// hledger ran and failed.
    NonZero {
        /// The exit status, in words.
        status: String,
        /// What hledger printed on its error output, trimmed.
        stderr: String,
    },
    /// The output is not of the expected form; the reason.
    Parse(String),
    /// The version banner is not of the expected form; its first line.
    BadVersion(String),
    /// The budget file beside the journal could not be read; why.
    BudgetFile(String),
}

/// The message of an error.
pub open spec fn hledger_error_text(e: HledgerError) -> Seq<char> {
    match e {
        HledgerError::NoJournal => "no journal configured (set --journal or LEDGER_FILE)"@,
        HledgerError::Spawn { bin, source } => "could not run hledger ("@ + bin@ + "): "@ + source@,
        HledgerError::NonZero { status, stderr } => "hledger exited unsuccessfully ("@ + status@ + "): "@ + stderr@,
        HledgerError::Parse(reason) => "could not parse hledger JSON output: "@ + reason@,
        HledgerError::BadVersion(line) => "unexpected `hledger --version` output: "@ + line@,
        HledgerError::BudgetFile(reason) => reason@,
    }
}

impl HledgerError {
    /// The message of the error.
    pub fn to_string(&self) -> (r: String)
        ensures
            r@ == hledger_error_text(*self),
    {
        match self {
            HledgerError::NoJournal => "no journal configured (set --journal or LEDGER_FILE)".to_owned(),
            HledgerError::Spawn { bin, source } => {
                let mut out: String = cat3("could not run hledger (", bin, "): ");
                out.append(source);
                out
            },
            HledgerError::NonZero { status, stderr } => {
                let mut out: String = cat3("hledger exited unsuccessfully (", status, "): ");
                out.append(stderr);
                out
            },
            HledgerError::Parse(reason) => cat("could not parse hledger JSON output: ", reason),
            HledgerError::BadVersion(line) => cat("unexpected `hledger --version` output: ", line),
            HledgerError::BudgetFile(reason) => reason.clone(),
        }
    }
}

/// What a finished hledger process gives: its output where it succeeded, else its exit
/// status and its trimmed error output.
pub fn captured_output(success: bool, status: String, stdout: String, stderr: &str) -> (r: Result<String, HledgerError>)
    ensures
        match r {
            Ok(out) => success && out == stdout,
            Err(e) => !success && (e matches HledgerError::NonZero { status: s, stderr: t } && s == status && t@ == trim(
                stderr@,
            )),
        },
{
    if success {
        Ok(stdout)
    } else {
        Err(HledgerError::NonZero { status, stderr: trimmed(stderr) })
    }
}

/// The hledger binary: what the environment names, where it names one, else `hledger`.
pub fn resolve_bin(named: Option<String>) -> (r: String)
    ensures
        match named {
            Some(path) => if path@.len() > 0 {
                r@ == path@
            } else {
                r@ == "hledger"@
            },
            None => r@ == "hledger"@,
        },
{
    match named {
        Some(path) => if is_blank(&path) {
            "hledger".to_owned()
        } else {
            path
        },
        None => "hledger".to_owned(),
    }
}

// ---------------------------------------------------------------------------
// Version
// ---------------------------------------------------------------------------

/// A detected hledger version with the banner line it was read from.
#[derive(Debug, Clone, PartialEq, Eq)]
pub struct Version {
    /// The first line of the banner, e.g. `hledger 1.52, mac-aarch64`.
    pub raw: String,
    /// The major part, the `1` of `1.52`.
    pub major: u32,
    /// The minor part, the `52` of `1.52`.
    pub minor: u32,
}

impl Version {
    /// Is it the version that this server is made for?
    pub fn pin_matches(&self) -> (r: bool)
        ensures
            r == (self.major == 1 && self.minor == 52),
    {
        self.major == PINNED_MAJOR && self.minor == PINNED_MINOR
    }
}

/// The number of characters before the first white space.
pub open spec fn word_length(s: Seq<char>) -> int
    decreases s.len(),
{
    if s.len() == 0 || is_white(s[0]) {
        0
    } else {
        1 + word_length(s.skip(1))
    }
}

/// The number of digits and points at the start.
pub open spec fn number_length(s: Seq<char>) -> int
    decreases s.len(),
{
    if s.len() == 0 || !(is_digit(s[0]) || s[0] == '.') {
        0
    } else {
        1 + number_length(s.skip(1))
    }
}

/// The first of the words of `s`, separated by white space, that begins with a digit.
pub open spec fn digit_word(s: Seq<char>) -> Option<Seq<char>>
    decreases s.len(),
{
    let t = trim_start(s);
    if t.len() == 0 {
        None
    } else if is_digit(t[0]) {
        Some(t.take(word_length(t)))
    } else if 0 < word_length(t) <= t.len() <= s.len() {
        digit_word(t.skip(word_length(t)))
    } else {
        None
    }
}

/// The number that the digits `s` stand for, where there are any and it fits.
pub open spec fn small_number(s: Seq<char>) -> Option<u32> {
    if s.len() > 0 && all_digits(s) && value(s) <= u32::MAX {
        Some(value(s) as u32)
    } else {
        None
    }
}

/// The first line of `s`, trimmed.
pub open spec fn first_line(s: Seq<char>) -> Seq<char> {
    if lines(s).len() == 0 {
        Seq::empty()
    } else {
        trim(lines(s)[0])
    }
}

/// The major and minor part of the version that a banner line names: the numbers before
/// the first and the second point of its first word that begins with a digit, up to
/// anything but digits and points.
pub open spec fn version_numbers(line: Seq<char>) -> Option<(u32, u32)> {
    match digit_word(line) {
        None => None,
        Some(word) => {
            let numeric = word.take(number_length(word));
            let point = find(numeric, '.');
            let rest = numeric.skip(point + 1);
            if point < numeric.len() {
                match (small_number(numeric.take(point)), small_number(rest.take(find(rest, '.')))) {
                    (Some(major), Some(minor)) => Some((major, minor)),
                    _ => None,
                }
            } else {
                None
            }
        },
    }
}

proof fn lemma_word_length(s: Seq<char>)
    ensures
        0 <= word_length(s) <= s.len(),
        s.len() > 0 && !is_white(s[0]) ==> word_length(s) > 0,
    decreases s.len(),
{
    if s.len() == 0 || is_white(s[0]) {
    } else {
        lemma_word_length(s.skip(1));
    }
}

pub proof fn lemma_trim_start(s: Seq<char>)
    ensures
        trim_start(s).len() <= s.len(),
        trim_start(s).len() > 0 ==> !is_white(trim_start(s)[0]),
    decreases s.len(),
{
    if s.len() > 0 && is_white(s[0]) {
        lemma_trim_start(s.skip(1));
    }
}

fn first_digit_word(line: &str) -> (r: Option<Vec<char>>)
    ensures
        match r {
            Some(word) => digit_word(line@) == Some(word@),
            None => digit_word(line@) is None,
        },
{
    let mut rest: String = line.to_owned();
    loop
        invariant
            digit_word(rest@) == digit_word(line@),
        decreases rest@.len(),
    {
        let t: String = trimmed_start(&rest);
        let cs: Vec<char> = chars_of(&t);
        proof {
            lemma_trim_start(rest@);
            lemma_word_length(t@);
        }
        if cs.len() == 0 {
            return None;
        }
        let mut k: usize = 0;
        assert(t@.skip(0) =~= t@);
        while k < cs.len() && !is_whitespace(cs[k])
            invariant
                k <= cs.len(),
                cs@ == t@,
                word_length(t@) == k + word_length(t@.skip(k as int)),
            decreases cs.len() - k,
        {
            proof {
                assert(t@.skip(k as int).skip(1) =~= t@.skip(k + 1));
            }
            k += 1;
        }
        if '0' <= cs[0] && cs[0] <= '9' {
            let mut word: Vec<char> = cs;
            word.truncate(k);
            assert(word@ =~= t@.take(k as int));
            return Some(word);
        }
        let next: String = text_of(&cs, k, cs.len());
        proof {
            assert(next@ =~= t@.skip(k as int));
        }
        rest = next;
    }
}

/// Reads the version banner, such as `hledger 1.52, mac-aarch64` (or `1.52.1`).
pub fn parse_version(raw: &str) -> (r: Result<Version, HledgerError>)
    ensures
        match r {
            Ok(v) => v.raw@ == first_line(raw@) && version_numbers(first_line(raw@)) == Some((v.major, v.minor)),
            Err(e) => version_numbers(first_line(raw@)) is None && (e matches HledgerError::BadVersion(line) && line@
                == first_line(raw@)),
        },
{
    let all: Vec<String> = split_lines(raw);
    let line: String = if all.len() == 0 {
        let empty: String = String::new();
        assert(texts(all@).len() == 0);
        assert(empty@ =~= first_line(raw@));
        empty
    } else {
        assert(texts(all@)[0] == all@[0]@);
        trimmed(&all[0])
    };
    let word: Vec<char> = match first_digit_word(&line) {
        None => {
            return Err(HledgerError::BadVersion(line));
        },
        Some(word) => word,
    };
    let mut n: usize = 0;
    assert(word@.skip(0) =~= word@);
    while n < word.len() && (('0' <= word[n] && word[n] <= '9') || word[n] == '.')
        invariant
            n <= word.len(),
            number_length(word@) == n + number_length(word@.skip(n as int)),
        decreases word.len() - n,
    {
        proof {
            assert(word@.skip(n as int).skip(1) =~= word@.skip(n + 1));
        }
        n += 1;
    }
    let mut numeric: Vec<char> = word;
    numeric.truncate(n);
    proof {
        assert(numeric@ =~= word@.take(n as int));
        assert(numeric@.skip(0) =~= numeric@);
    }
    let point: usize = find_from(&numeric, 0, '.');
    if point == numeric.len() {
        return Err(HledgerError::BadVersion(line));
    }
    let second: usize = find_from(&numeric, point + 1, '.');
    proof {
        let rest = numeric@.skip(point + 1);
        assert(numeric@.take(point as int) =~= numeric@.subrange(0, point as int));
        assert(rest.take(second - (point + 1)) =~= numeric@.subrange(point + 1, second as int));
    }
    if point == 0 || second == point + 1 {
        return Err(HledgerError::BadVersion(line));
    }
    let major: Option<u128> = parse_digits(&numeric, 0, point, 4294967295u128);
    let minor: Option<u128> = parse_digits(&numeric, point + 1, second, 4294967295u128);
    match (major, minor) {
        (Some(major), Some(minor)) => Ok(Version { raw: line, major: major as u32, minor: minor as u32 }),
        _ => Err(HledgerError::BadVersion(line)),
    }
}

// ---------------------------------------------------------------------------
// Lists of names
// ---------------------------------------------------------------------------

/// The texts of `all`, trimmed, without the empty ones.
pub open spec fn trimmed_nonempty(all: Seq<Seq<char>>) -> Seq<Seq<char>>
    decreases all.len(),
{
    if all.len() == 0 {
        Seq::empty()
    } else {
        let rest = trimmed_nonempty(all.drop_last());
        if trim(all.last()).len() == 0 {
            rest
        } else {
            rest.push(trim(all.last()))
        }
    }
}

/// The trimmed, non-empty lines of hledger's plain output, such as the declared accounts.
pub fn nonempty_lines(out: &str) -> (r: Vec<String>)
    ensures
        texts(r@) == trimmed_nonempty(lines(out@)),
{
    let all: Vec<String> = split_lines(out);
    let mut kept: Vec<String> = Vec::new();
    let mut i: usize = 0;
    let ghost every = texts(all@);
    proof {
        assert(texts(kept@) =~= trimmed_nonempty(every.take(0)));
    }
    while i < all.len()
        invariant
            i <= all.len(),
            every == texts(all@),
            texts(kept@) == trimmed_nonempty(every.take(i as int)),
        decreases all.len() - i,
    {
        let line: String = trimmed(&all[i]);
        let ghost before = kept@;
        proof {
            assert(every.take(i + 1).drop_last() =~= every.take(i as int));
            assert(every.take(i + 1).last() == all@[i as int]@);
        }
        if !is_blank(&line) {
            kept.push(line);
            proof {
                assert(texts(kept@) =~= texts(before).push(line@));
            }
        }
        i += 1;
    }
    assert(every.take(i as int) =~= every);
    kept
}

pub proof fn lemma_trim_start_within(s: Seq<char>)
    ensures
        forall|c: char| #[trigger] trim_start(s).contains(c) ==> s.contains(c),
    decreases s.len(),
{
    if s.len() > 0 && is_white(s[0]) {
        lemma_trim_start_within(s.skip(1));
        assert forall|c: char| #[trigger] trim_start(s).contains(c) implies s.contains(c) by {
            assert(trim_start(s.skip(1)).contains(c));
            let i = choose|i: int| 0 <= i < s.skip(1).len() && s.skip(1)[i] == c;
            assert(s[i + 1] == c);
        }
    }
}

pub proof fn lemma_trim_end_within(s: Seq<char>)
    ensures
        forall|c: char| #[trigger] trim_end(s).contains(c) ==> s.contains(c),
        trim_end(s).len() > 0 ==> !is_white(trim_end(s).last()) && trim_end(s)[0] == s[0],
    decreases s.len(),
{
    if s.len() > 0 && is_white(s.last()) {
        lemma_trim_end_within(s.drop_last());
        assert forall|c: char| #[trigger] trim_end(s).contains(c) implies s.contains(c) by {
            assert(trim_end(s.drop_last()).contains(c));
            let i = choose|i: int| 0 <= i < s.drop_last().len() && s.drop_last()[i] == c;
            assert(s[i] == c);
        }
    }
}

proof fn lemma_lines_have_no_feed(s: Seq<char>)
    ensures
        forall|i: int| 0 <= i < lines(s).len() ==> !(#[trigger] lines(s)[i]).contains('\n'),
    decreases s.len(),
{
    lemma_find(s, '\n');
    let k = find(s, '\n');
    if s.len() > 0 && k < s.len() {
        let head = strip_return(s.take(k));
        let rest = lines(s.skip(k + 1));
        lemma_lines_have_no_feed(s.skip(k + 1));
        assert(!head.contains('\n')) by {
            assert forall|i: int| 0 <= i < head.len() implies head[i] != '\n' by {
                assert(head[i] == s[i]);
            }
        }
        assert forall|i: int| 0 <= i < lines(s).len() implies !(#[trigger] lines(s)[i]).contains('\n') by {
            if i > 0 {
                assert(lines(s)[i] == rest[i - 1]);
            }
        }
    } else if s.len() > 0 {
        assert(!s.contains('\n'));
    }
}

/// The names in two outputs, one behind the other, are those of the one and then those of the
/// other; a line gives its text without the white space around it, or nothing where it is blank.
pub proof fn law_every_name_is_listed(a: Seq<Seq<char>>, b: Seq<Seq<char>>, line: Seq<char>)
    ensures
        trimmed_nonempty(a + b) == trimmed_nonempty(a) + trimmed_nonempty(b),
        trimmed_nonempty(Seq::empty()).len() == 0,
        trimmed_nonempty(seq![line]) == if trim(line).len() > 0 {
            seq![trim(line)]
        } else {
            Seq::empty()
        },
    decreases b.len(),
{
    if b.len() == 0 {
        assert(a + b =~= a);
        assert(trimmed_nonempty(a) + trimmed_nonempty(b) =~= trimmed_nonempty(a));
    } else {
        law_every_name_is_listed(a, b.drop_last(), line);
        assert((a + b).drop_last() =~= a + b.drop_last());
        assert(trimmed_nonempty(a + b) =~= trimmed_nonempty(a) + trimmed_nonempty(b));
    }
    let one = seq![line];
    assert(one.drop_last() =~= Seq::<Seq<char>>::empty());
    assert(trimmed_nonempty(one.drop_last()) =~= Seq::<Seq<char>>::empty());
    assert(one.last() == line);
    assert(trimmed_nonempty(one) =~= if trim(line).len() > 0 {
        seq![trim(line)]
    } else {
        Seq::empty()
    });
}

proof fn lemma_word_length_at(s: Seq<char>, k: int)
    requires
        0 <= k <= s.len(),
        forall|i: int| 0 <= i < k ==> !is_white(#[trigger] s[i]),
        k == s.len() || is_white(s[k]),
    ensures
        word_length(s) == k,
    decreases k,
{
    if k > 0 {
        assert(!is_white(s[0]));
        assert forall|i: int| 0 <= i < k - 1 implies !is_white(#[trigger] s.skip(1)[i]) by {
            assert(s.skip(1)[i] == s[i + 1]);
        }
        lemma_word_length_at(s.skip(1), k - 1);
    }
}

proof fn lemma_number_length_at(s: Seq<char>, k: int)
    requires
        0 <= k <= s.len(),
        forall|i: int| 0 <= i < k ==> is_digit(#[trigger] s[i]) || s[i] == '.',
        k == s.len() || !(is_digit(s[k]) || s[k] == '.'),
    ensures
        number_length(s) == k,
    decreases k,
{
    if k > 0 {
        assert(is_digit(s[0]) || s[0] == '.');
        assert forall|i: int| 0 <= i < k - 1 implies is_digit(#[trigger] s.skip(1)[i]) || s.skip(1)[i] == '.' by {
            assert(s.skip(1)[i] == s[i + 1]);
        }
        lemma_number_length_at(s.skip(1), k - 1);
    }
}

/// The version is read from the banner as it stands there: the digits before the first point and
/// those behind it, up to a comma, in `hledger 1.52, mac-aarch64`.
pub proof fn law_version_is_read_from_the_banner(major: Seq<char>, minor: Seq<char>, tail: Seq<char>)
    requires
        major.len() > 0,
        all_digits(major),
        value(major) <= u32::MAX,
        minor.len() > 0,
        all_digits(minor),
        value(minor) <= u32::MAX,
    ensures
        version_numbers("hledger "@ + major + "."@ + minor + ", "@ + tail) == Some(
            (value(major) as u32, value(minor) as u32),
        ),
{
    let line = "hledger "@ + major + "."@ + minor + ", "@ + tail;
    reveal_strlit("hledger ");
    reveal_strlit(".");
    reveal_strlit(", ");
    let m = major.len() as int;
    let n = minor.len() as int;
    assert(line[0] == 'h');
    assert(trim_start(line) == line);
    assert forall|i: int| 0 <= i < 7 implies !is_white(#[trigger] line[i]) by {
        assert(line[i] == "hledger "@[i]);
    }
    assert(line[7] == ' ');
    lemma_word_length_at(line, 7);
    let rest = line.skip(7);
    let word = line.skip(8);
    assert(rest[0] == ' ');
    assert(rest.skip(1) =~= word);
    assert(word[0] == major[0]);
    assert(is_digit(major[0]));
    assert(trim_start(word) == word);
    assert(trim_start(rest) == word);
    assert forall|i: int| 0 <= i < m + 1 + n implies is_digit(#[trigger] word[i]) || word[i] == '.' by {
        if i < m {
            assert(word[i] == major[i]);
        } else if i > m {
            assert(word[i] == minor[i - m - 1]);
        }
    }
    let end = m + 1 + n;
    assert(word[end] == ',');
    assert(word[end + 1] == ' ');
    assert forall|i: int| 0 <= i < end + 1 implies !is_white(#[trigger] word[i]) by {
        if i < end {
            assert(is_digit(word[i]) || word[i] == '.');
        }
    }
    lemma_word_length_at(word, end + 1);
    assert(digit_word(rest) == Some(word.take(end + 1)));
    assert(digit_word(line) == digit_word(rest));
    let found = word.take(end + 1);
    assert forall|i: int| 0 <= i < end implies is_digit(#[trigger] found[i]) || found[i] == '.' by {
        assert(is_digit(word[i]) || word[i] == '.');
    }
    lemma_number_length_at(found, end);
    let numeric = found.take(end);
    assert(numeric =~= major + seq!['.'] + minor);
    assert forall|i: int| 0 <= i < m implies numeric[i] != '.' by {
        assert(is_digit(major[i]));
    }
    lemma_find_unique(numeric, '.', m);
    assert(numeric.take(m) =~= major);
    let second = numeric.skip(m + 1);
    assert(second =~= minor);
    assert forall|i: int| 0 <= i < n implies minor[i] != '.' by {
        assert(is_digit(minor[i]));
    }
    lemma_find_unique(second, '.', n);
    assert(second.take(n) =~= minor);
}

/// Every name in hledger's plain output is a name on one line, with no white space around it.
pub proof fn law_names_are_single_lines(out: Seq<char>)
    ensures
        forall|i: int|
            0 <= i < trimmed_nonempty(lines(out)).len() ==> {
                let name = #[trigger] trimmed_nonempty(lines(out))[i];
                name.len() > 0 && !name.contains('\n') && !is_white(name[0]) && !is_white(name.last())
            },
{
    lemma_lines_have_no_feed(out);
    lemma_names(lines(out));
}

proof fn lemma_names(all: Seq<Seq<char>>)
    requires
        forall|i: int| 0 <= i < all.len() ==> !(#[trigger] all[i]).contains('\n'),
    ensures
        forall|i: int|
            0 <= i < trimmed_nonempty(all).len() ==> {
                let name = #[trigger] trimmed_nonempty(all)[i];
                name.len() > 0 && !name.contains('\n') && !is_white(name[0]) && !is_white(name.last())
            },
    decreases all.len(),
{
    if all.len() > 0 {
        let init = all.drop_last();
        assert forall|i: int| 0 <= i < init.len() implies !(#[trigger] init[i]).contains('\n') by {
            assert(init[i] == all[i]);
        }
        lemma_names(init);
        let last = all.last();
        lemma_trim_start(last);
        lemma_trim_start_within(last);
        lemma_trim_end_within(trim_start(last));
        assert(!all[all.len() - 1].contains('\n'));
        assert(!trim_start(last).contains('\n'));
        assert(!trim(last).contains('\n'));
        let names = trimmed_nonempty(all);
        let before = trimmed_nonempty(init);
        assert forall|i: int| 0 <= i < names.len() implies {
            let name = #[trigger] names[i];
            name.len() > 0 && !name.contains('\n') && !is_white(name[0]) && !is_white(name.last())
        } by {
            if i < before.len() {
                assert(names[i] == before[i]);
            } else {
                assert(names[i] == trim(last));
            }
        }
    }
}

// ---------------------------------------------------------------------------
// Reports and transactions
// ---------------------------------------------------------------------------

/// The balance of one account.
#[derive(Debug, Clone, PartialEq, Eq)]
pub struct AccountBalance {
    /// The full account name, e.g. `assets:checking`.
    pub account: String,
    /// The balance, possibly in several commodities.
    pub amounts: Vec<Amount>,
}

/// What an [`AccountBalance`] holds.
#[verifier::ext_equal]
pub struct AccountBalanceView {
    pub account: Seq<char>,
    pub amounts: Seq<AmountView>,
}

impl View for AccountBalance {
    type V = AccountBalanceView;

    open spec fn view(&self) -> AccountBalanceView {
        AccountBalanceView { account: self.account@, amounts: amounts_view(self.amounts@) }
    }
}

/// What a list of account balances holds.
pub open spec fn balances_view(v: Seq<AccountBalance>) -> Seq<AccountBalanceView> {
    Seq::new(v.len(), |i: int| v[i]@)
}

/// What `hledger balance` reports.
#[derive(Debug, Clone, PartialEq, Eq)]
pub struct BalanceReport {
    /// One row for each account.
    pub rows: Vec<AccountBalance>,
    /// The total over all rows.
    pub totals: Vec<Amount>,
}

/// What a [`BalanceReport`] holds.
#[verifier::ext_equal]
pub struct BalanceReportView {
    pub rows: Seq<AccountBalanceView>,
    pub totals: Seq<AmountView>,
}

impl View for BalanceReport {
    type V = BalanceReportView;

    open spec fn view(&self) -> BalanceReportView {
        BalanceReportView { rows: balances_view(self.rows@), totals: amounts_view(self.totals@) }
    }
}

/// One row of a section of a statement.
#[derive(Debug, Clone, PartialEq, Eq)]
pub struct ReportRow {
    /// The full account name.
    pub account: String,
    /// The amount of the account.
    pub total: Vec<Amount>,
}

/// What a [`ReportRow`] holds.
#[verifier::ext_equal]
pub struct ReportRowView {
    pub account: Seq<char>,
    pub total: Seq<AmountView>,
}

impl View for ReportRow {
    type V = ReportRowView;

    open spec fn view(&self) -> ReportRowView {
        ReportRowView { account: self.account@, total: amounts_view(self.total@) }
    }
}

/// What a list of report rows holds.
pub open spec fn report_rows_view(v: Seq<ReportRow>) -> Seq<ReportRowView> {
    Seq::new(v.len(), |i: int| v[i]@)
}

/// A section of a statement, such as the assets of a balance sheet.
#[derive(Debug, Clone, PartialEq, Eq)]
pub struct Subreport {
    /// The name of the section.
    pub name: String,
    /// One row for each account.
    pub rows: Vec<ReportRow>,
    /// The total of the section.
    pub totals: Vec<Amount>,
    /// Does the section add to the total of the statement?
    pub is_positive: bool,
}

/// What a [`Subreport`] holds.
#[verifier::ext_equal]
pub struct SubreportView {
    pub name: Seq<char>,
    pub rows: Seq<ReportRowView>,
    pub totals: Seq<AmountView>,
    pub is_positive: bool,
}

impl View for Subreport {
    type V = SubreportView;

    open spec fn view(&self) -> SubreportView {
        SubreportView {
            name: self.name@,
            rows: report_rows_view(self.rows@),
            totals: amounts_view(self.totals@),
            is_positive: self.is_positive,
        }
    }
}

/// What a list of sections holds.
pub open spec fn subreports_view(v: Seq<Subreport>) -> Seq<SubreportView> {
    Seq::new(v.len(), |i: int| v[i]@)
}

/// A statement: a balance sheet or an income statement.
#[derive(Debug, Clone, PartialEq, Eq)]
pub struct CompositeReport {
    /// The title, e.g. `Balance Sheet 2026-01-31`.
    pub title: String,
    /// The sections.
    pub subreports: Vec<Subreport>,
    /// The net total.
    pub totals: Vec<Amount>,
}

/// What a [`CompositeReport`] holds.
#[verifier::ext_equal]
pub struct CompositeReportView {
    pub title: Seq<char>,
    pub subreports: Seq<SubreportView>,
    pub totals: Seq<AmountView>,
}

impl View for CompositeReport {
    type V = CompositeReportView;

    open spec fn view(&self) -> CompositeReportView {
        CompositeReportView {
            title: self.title@,
            subreports: subreports_view(self.subreports@),
            totals: amounts_view(self.totals@),
        }
    }
}

/// One account of a budget report.
#[derive(Debug, Clone, PartialEq, Eq)]
pub struct BudgetRow {
    /// The full account name.
    pub account: String,
    /// What was spent.
    pub actual: Vec<Amount>,
    /// What is budgeted; empty where no goal is set.
    pub goal: Vec<Amount>,
}

/// What a [`BudgetRow`] holds.
#[verifier::ext_equal]
pub struct BudgetRowView {
    pub account: Seq<char>,
    pub actual: Seq<AmountView>,
    pub goal: Seq<AmountView>,
}

impl View for BudgetRow {
    type V = BudgetRowView;

    open spec fn view(&self) -> BudgetRowView {
        BudgetRowView {
            account: self.account@,
            actual: amounts_view(self.actual@),
            goal: amounts_view(self.goal@),
        }
    }
}

/// What a list of budget rows holds.
pub open spec fn budget_rows_view(v: Seq<BudgetRow>) -> Seq<BudgetRowView> {
    Seq::new(v.len(), |i: int| v[i]@)
}

/// Actual amounts against budget goals.
#[derive(Debug, Clone, PartialEq, Eq)]
pub struct BudgetReport {
    /// One row for each account.
    pub rows: Vec<BudgetRow>,
    /// The total of the actual amounts.
    pub total_actual: Vec<Amount>,
    /// The total of the goals.
    pub total_goal: Vec<Amount>,
}

/// What a [`BudgetReport`] holds.
#[verifier::ext_equal]
pub struct BudgetReportView {
    pub rows: Seq<BudgetRowView>,
    pub total_actual: Seq<AmountView>,
    pub total_goal: Seq<AmountView>,
}

impl View for BudgetReport {
    type V = BudgetReportView;

    open spec fn view(&self) -> BudgetReportView {
        BudgetReportView {
            rows: budget_rows_view(self.rows@),
            total_actual: amounts_view(self.total_actual@),
            total_goal: amounts_view(self.total_goal@),
        }
    }
}

/// The status mark of a transaction.
#[derive(Debug, Clone, Copy, PartialEq, Eq, Structural)]
pub enum Status {
    Unmarked,
    Pending,
    Cleared,
}

/// A list of tags, each a name and a value.
pub open spec fn tags_view(v: Seq<(String, String)>) -> Seq<(Seq<char>, Seq<char>)> {
    Seq::new(v.len(), |i: int| (v[i].0@, v[i].1@))
}

/// One line of a transaction.
#[derive(Debug, Clone, PartialEq, Eq)]
pub struct Posting {
    /// The account.
    pub account: String,
    /// The amount, possibly in several commodities.
    pub amounts: Vec<Amount>,
    /// The comment, or empty.
    pub comment: String,
    /// The tags of the posting.
    pub tags: Vec<(String, String)>,
}

/// What a [`Posting`] holds.
#[verifier::ext_equal]
pub struct PostingView {
    pub account: Seq<char>,
    pub amounts: Seq<AmountView>,
    pub comment: Seq<char>,
    pub tags: Seq<(Seq<char>, Seq<char>)>,
}

impl View for Posting {
    type V = PostingView;

    open spec fn view(&self) -> PostingView {
        PostingView {
            account: self.account@,
            amounts: amounts_view(self.amounts@),
            comment: self.comment@,
            tags: tags_view(self.tags@),
        }
    }
}

/// What a list of postings holds.
pub open spec fn postings_view(v: Seq<Posting>) -> Seq<PostingView> {
    Seq::new(v.len(), |i: int| v[i]@)
}

/// A transaction as hledger prints it.
#[derive(Debug, Clone, PartialEq, Eq)]
pub struct Transaction {
    /// The date.
    pub date: Date,
    /// The description or payee.
    pub description: String,
    /// The number of the transaction in the journal, from 1.
    pub index: u64,
    /// The status mark.
    pub status: Status,
    /// The comment, or empty.
    pub comment: String,
    /// The tags of the transaction.
    pub tags: Vec<(String, String)>,
    /// The postings.
    pub postings: Vec<Posting>,
}

/// What a [`Transaction`] holds.
#[verifier::ext_equal]
pub struct TransactionView {
    pub date: Civil,
    pub description: Seq<char>,
    pub index: u64,
    pub status: Status,
    pub comment: Seq<char>,
    pub tags: Seq<(Seq<char>, Seq<char>)>,
    pub postings: Seq<PostingView>,
}

impl View for Transaction {
    type V = TransactionView;

    open spec fn view(&self) -> TransactionView {
        TransactionView {
            date: self.date@,
            description: self.description@,
            index: self.index,
            status: self.status,
            comment: self.comment@,
            tags: tags_view(self.tags@),
            postings: postings_view(self.postings@),
        }
    }
}

/// What a list of transactions holds.
pub open spec fn transactions_view(v: Seq<Transaction>) -> Seq<TransactionView> {
    Seq::new(v.len(), |i: int| v[i]@)
}

/// Every error says what went wrong, with what is known of it.
pub proof fn law_errors_are_told(bin: String, source: String, status: String, stderr: String, text: String)
    ensures
        hledger_error_text(HledgerError::NoJournal) == "no journal configured (set --journal or LEDGER_FILE)"@,
        hledger_error_text(HledgerError::Spawn { bin, source }) == "could not run hledger ("@ + bin@ + "): "@ + source@,
        hledger_error_text(HledgerError::NonZero { status, stderr }) == "hledger exited unsuccessfully ("@ + status@
            + "): "@ + stderr@,
        hledger_error_text(HledgerError::Parse(text)) == "could not parse hledger JSON output: "@ + text@,
        hledger_error_text(HledgerError::BadVersion(text)) == "unexpected `hledger --version` output: "@ + text@,
        hledger_error_text(HledgerError::BudgetFile(text)) == text@,
{
}

/// The banner is the first line of what hledger prints, without the white space around it, whatever
/// follows.
pub proof fn law_banner_is_the_first_line(line: Seq<char>, rest: Seq<char>)
    requires
        !line.contains('\n'),
        !(line.len() > 0 && line.last() == '\r'),
    ensures
        first_line(line + seq!['\n'] + rest) == trim(line),
        first_line(Seq::empty()).len() == 0,
{
    let s = line + seq!['\n'] + rest;
    assert forall|i: int| 0 <= i < line.len() implies s[i] != '\n' by {
        assert(line.contains(line[i]));
    }
    lemma_find_unique(s, '\n', line.len() as int);
    assert(s.take(line.len() as int) =~= line);
    assert(lines(s).len() > 0);
    assert(lines(s)[0] == line);
}

} // verus!
