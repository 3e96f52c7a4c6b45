//! Which revision of the protocol is spoken.
//!
//! A client asks for a revision. The server prefers that one where it supports it, and its
//! newest one otherwise. The transport then sends the earlier of the two, compared as text,
//! so what a client receives is [`effective_version`]: a supported revision as it asked for,
//! the newest one for an unknown newer revision, and an unknown older one as it asked for.

use vstd::prelude::*;

use crate::text::{chars_of, listed, texts};

verus! {

/// The revisions that the server accepts, oldest first.
pub open spec fn supported() -> Seq<Seq<char>> {
    seq!["2024-11-05"@, "2025-03-26"@, "2025-06-18"@, "2025-11-25"@]
}

/// `rmcp::model::ProtocolVersion::KNOWN_VERSIONS`: the four revisions that the SDK knows, from
/// `2024-11-05` to `2025-11-25`.
#[verifier::external_body]
fn known_versions() -> (r: Vec<String>)
    ensures
        texts(r@) == supported(),
{
    rmcp::model::ProtocolVersion::KNOWN_VERSIONS.iter().map(|v| v.as_str().to_owned()).collect()
}

/// `rmcp::model::ProtocolVersion::LATEST`: the SDK's latest revision, `2025-11-25`.
#[verifier::external_body]
fn latest_version() -> (r: String)
    ensures
        r@ == "2025-11-25"@,
{
    rmcp::model::ProtocolVersion::LATEST.as_str().to_owned()
}

/// The revisions that the server accepts, oldest first.
pub fn supported_versions() -> (r: Vec<String>)
    ensures
        texts(r@) == supported(),
{
    known_versions()
}

/// The newest revision that the server accepts.
pub fn latest_supported() -> (r: String)
    ensures
        r@ == "2025-11-25"@,
{
    latest_version()
}

/// What the server prefers for a request.
pub open spec fn preferred(requested: Seq<char>) -> Seq<char> {
    if supported().contains(requested) {
        requested
    } else {
        "2025-11-25"@
    }
}

/// What the server prefers for a request: the revision itself where it is supported, else
/// the newest one.
pub fn negotiate(requested: &str) -> (r: String)
    ensures
        r@ == preferred(requested@),
{
    if listed(&supported_versions(), requested) {
        requested.to_owned()
    } else {
        latest_supported()
    }
}

/// Does `a` come before `b`, compared character by character?
pub open spec fn precedes(a: Seq<char>, b: Seq<char>) -> bool
    decreases a.len(),
{
    if b.len() == 0 {
        false
    } else if a.len() == 0 {
        true
    } else {
        a[0] < b[0] || (a[0] == b[0] && precedes(a.skip(1), b.skip(1)))
    }
}

fn comes_before(a: &str, b: &str) -> (r: bool)
    ensures
        r == precedes(a@, b@),
{
    let x: Vec<char> = chars_of(a);
    let y: Vec<char> = chars_of(b);
    let mut i: usize = 0;
    assert(a@.skip(0) =~= a@ && b@.skip(0) =~= b@);
    while i < x.len() && i < y.len()
        invariant
            i <= x.len(),
            i <= y.len(),
            x@ == a@,
            y@ == b@,
            precedes(a@, b@) == precedes(a@.skip(i as int), b@.skip(i as int)),
        decreases x.len() - i,
    {
        if x[i] < y[i] {
            return true;
        }
        if x[i] > y[i] {
            return false;
        }
        proof {
            assert(a@.skip(i as int).skip(1) =~= a@.skip(i + 1));
            assert(b@.skip(i as int).skip(1) =~= b@.skip(i + 1));
        }
        i += 1;
    }
    i < y.len()
}

/// What a client receives for a request: the earlier one of the request and what the server
/// prefers.
pub open spec fn effective(requested: Seq<char>) -> Seq<char> {
    if precedes(requested, preferred(requested)) {
        requested
    } else {
        preferred(requested)
    }
}

/// What a client receives for a request.
pub fn effective_version(requested: &str) -> (r: String)
    ensures
        r@ == effective(requested@),
{
    let ours: String = negotiate(requested);
    if comes_before(requested, &ours) {
        requested.to_owned()
    } else {
        ours
    }
}

// ---------------------------------------------------------------------------
// Laws
// ---------------------------------------------------------------------------

/// The newest revision is the last one that is supported.
pub proof fn law_latest_is_last_supported()
    ensures
        supported().last() == "2025-11-25"@,
        supported().contains("2025-11-25"@),
{
    assert(supported()[3] == "2025-11-25"@);
}

/// What the server prefers is always supported, is the request itself where that is
/// supported, and stays the same when it is asked for.
pub proof fn law_preferred_is_supported(requested: Seq<char>)
    ensures
        supported().contains(preferred(requested)),
        supported().contains(requested) ==> preferred(requested) == requested,
        preferred(preferred(requested)) == preferred(requested),
{
    law_latest_is_last_supported();
}

/// A supported revision reaches the client as it was asked for. An unsupported one reaches
/// it where it comes before the newest one, and the newest one does otherwise.
pub proof fn law_effective_version(requested: Seq<char>)
    ensures
        supported().contains(requested) ==> effective(requested) == requested,
        !supported().contains(requested) && precedes(requested, "2025-11-25"@) ==> effective(requested) == requested,
        !supported().contains(requested) && !precedes(requested, "2025-11-25"@) ==> effective(requested)
            == "2025-11-25"@,
        !precedes(requested, effective(requested)),
{
    lemma_precedes_is_strict(requested);
}

proof fn lemma_precedes_is_strict(s: Seq<char>)
    ensures
        !precedes(s, s),
    decreases s.len(),
{
    if s.len() > 0 {
        lemma_precedes_is_strict(s.skip(1));
    }
}

/// One revision comes before another where it is smaller in the first character in which they
/// differ, or is the beginning of it; and what is not supported gives way to the newest one.
pub proof fn law_revisions_are_compared_by_their_first_difference(
    common: Seq<char>,
    a: Seq<char>,
    b: Seq<char>,
    requested: Seq<char>,
)
    requires
        a.len() > 0 && b.len() > 0 ==> a[0] != b[0],
    ensures
        precedes(common + a, common + b) <==> b.len() > 0 && (a.len() == 0 || a[0] < b[0]),
        !supported().contains(requested) ==> preferred(requested) == "2025-11-25"@,
        supported() == seq!["2024-11-05"@, "2025-03-26"@, "2025-06-18"@, "2025-11-25"@],
    decreases common.len(),
{
    let x = common + a;
    let y = common + b;
    if common.len() == 0 {
        assert(x =~= a);
        assert(y =~= b);
    } else {
        let rest = common.skip(1);
        law_revisions_are_compared_by_their_first_difference(rest, a, b, requested);
        assert(x.skip(1) =~= rest + a);
        assert(y.skip(1) =~= rest + b);
        assert(x[0] == y[0]);
    }
}

} // verus!
