//! The epoch check.
//!
//! An epoch is a commit: one validated write is one commit, so the commit at the head
//! identifies exactly what a client has seen. The server keeps, for each connection, the
//! last epoch that the connection read. A call that decides on a belief about the ledger
//! is refused as stale unless that epoch is the current head; a call that only records is
//! safe at any epoch and never refused.

use vstd::prelude::*;

use crate::text::{cat3, chars_of, same};

verus! {

/// Is `c` a hexadecimal digit?
pub open spec fn is_hex(c: char) -> bool {
    '0' <= c <= '9' || 'a' <= c <= 'f' || 'A' <= c <= 'F'
}

/// Is the text made of hexadecimal digits only?
pub open spec fn all_hex(s: Seq<char>) -> bool {
    forall|i: int| 0 <= i < s.len() ==> is_hex(#[trigger] s[i])
}

/// The first twelve characters, or all where there are fewer.
pub open spec fn first_twelve(s: Seq<char>) -> Seq<char> {
    if s.len() <= 12 {
        s
    } else {
        s.take(12)
    }
}

/// A commit identifier, in hexadecimal digits.
#[derive(Debug, PartialEq, Eq, Hash)]
pub struct CommitOid(String);

impl View for CommitOid {
    type V = Seq<char>;

    closed spec fn view(&self) -> Seq<char> {
        self.0@
    }
}

impl Clone for CommitOid {
    fn clone(&self) -> (r: Self)
        ensures
            r@ == self@,
    {
        proof {
            use_type_invariant(self);
        }
        CommitOid(self.0.clone())
    }
}

/// Is the text a commit identifier?
pub fn is_oid_text(s: &str) -> (r: bool)
    ensures
        r == all_hex(s@),
{
    let cs: Vec<char> = chars_of(s);
    let mut i: usize = 0;
    while i < cs.len()
        invariant
            i <= cs.len(),
            cs@ == s@,
            forall|j: int| 0 <= j < i ==> is_hex(#[trigger] cs@[j]),
        decreases cs.len() - i,
    {
        let c: char = cs[i];
        if !(('0' <= c && c <= '9') || ('a' <= c && c <= 'f') || ('A' <= c && c <= 'F')) {
            return false;
        }
        i += 1;
    }
    true
}

impl CommitOid {
    #[verifier::type_invariant]
    spec fn is_hexadecimal(self) -> bool {
        all_hex(self@)
    }

    /// The commit with this identifier.
    pub fn new(s: String) -> (r: Self)
        requires
            all_hex(s@),
        ensures
            r@ == s@,
    {
        CommitOid(s)
    }

    /// The first twelve digits, for messages.
    pub fn short(&self) -> (r: &str)
        ensures
            r@ == first_twelve(self@),
            all_hex(r@),
    {
        proof {
            use_type_invariant(self);
        }
        let n: usize = chars_of(self.0.as_str()).len();
        if n <= 12 {
            self.0.as_str()
        } else {
            self.0.as_str().substring_char(0, 12)
        }
    }

    /// The digits.
    pub fn as_str(&self) -> (r: &str)
        ensures
            r@ == self@,
            all_hex(r@),
    {
        proof {
            use_type_invariant(self);
        }
        self.0.as_str()
    }

    /// The digits, as an owned string.
    pub fn to_string(&self) -> (r: String)
        ensures
            r@ == self@,
    {
        self.0.clone()
    }
}

/// What kind of call it is: only those that decide are checked against the epoch.
#[derive(Debug, Clone, Copy, PartialEq, Eq, Structural)]
pub enum ToolClass {
    /// It only appends, balanced and recognisable on a retry: safe at any epoch.
    Record,
    /// It acts on a belief about the ledger, so it must have read the latest epoch.
    Decide,
}

/// An epoch: the commit at the head, or none where nothing is committed yet.
#[derive(Debug, PartialEq, Eq)]
pub struct Epoch(Option<CommitOid>);

impl View for Epoch {
    type V = Option<Seq<char>>;

    closed spec fn view(&self) -> Option<Seq<char>> {
        match self.0 {
            Some(oid) => Some(oid@),
            None => None,
        }
    }
}

impl Clone for Epoch {
    fn clone(&self) -> (r: Self)
        ensures
            r@ == self@,
    {
        match &self.0 {
            Some(oid) => Epoch(Some(oid.clone())),
            None => Epoch(None),
        }
    }
}

/// An epoch in a message.
pub open spec fn epoch_short(e: Option<Seq<char>>) -> Seq<char> {
    match e {
        Some(oid) => first_twelve(oid),
        None => "(unborn)"@,
    }
}

/// What an optional epoch holds.
pub open spec fn seen_view(e: Option<Epoch>) -> Option<Option<Seq<char>>> {
    match e {
        Some(e) => Some(e@),
        None => None,
    }
}

/// What an optional commit holds.
pub open spec fn oid_view(oid: Option<CommitOid>) -> Option<Seq<char>> {
    match oid {
        Some(oid) => Some(oid@),
        None => None,
    }
}

impl Epoch {
    /// The epoch with this commit at the head.
    pub fn new(oid: Option<CommitOid>) -> (r: Self)
        ensures
            r@ == oid_view(oid),
    {
        Epoch(oid)
    }

    /// The digits of the commit, where there is one.
    pub fn oid(&self) -> (r: Option<&str>)
        ensures
            match r {
                Some(s) => self@ == Some(s@) && all_hex(s@),
                None => self@ is None,
            },
    {
        match &self.0 {
            Some(oid) => Some(oid.as_str()),
            None => None,
        }
    }

    /// The first twelve digits of the commit, or `(unborn)`.
    pub fn short(&self) -> (r: String)
        ensures
            r@ == epoch_short(self@),
    {
        match &self.0 {
            Some(oid) => oid.short().to_owned(),
            None => "(unborn)".to_owned(),
        }
    }

    /// Is it the same epoch?
    pub fn is(&self, other: &Epoch) -> (r: bool)
        ensures
            r == (self@ == other@),
    {
        match (&self.0, &other.0) {
            (Some(a), Some(b)) => same(a.as_str(), b.as_str()),
            (None, None) => true,
            _ => false,
        }
    }
}

/// A decision was made on a stale read: what the connection saw last is not the head.
#[derive(Debug, Clone, PartialEq, Eq)]
pub struct Stale {
    /// What the connection saw last; `None` where it never read.
    pub seen: Option<Epoch>,
    /// The head.
    pub head: Epoch,
}

/// The message for a stale decision.
pub open spec fn stale_text(seen: Option<Option<Seq<char>>>, head: Option<Seq<char>>) -> Seq<char> {
    "STALE: this decision was made against epoch "@ + match seen {
        Some(e) => epoch_short(e),
        None => "(never read)"@,
    } + " but the ledger is now at "@ + epoch_short(head) + ". Re-read the relevant state, then retry."@
}

impl Stale {
    /// The message.
    pub fn to_string(&self) -> (r: String)
        ensures
            r@ == stale_text(seen_view(self.seen), self.head@),
    {
        let seen: String = match &self.seen {
            Some(epoch) => epoch.short(),
            None => "(never read)".to_owned(),
        };
        let mut out: String = cat3(
            "STALE: this decision was made against epoch ",
            &seen,
            " but the ledger is now at ",
        );
        out.append(&self.head.short());
        out.append(". Re-read the relevant state, then retry.");
        out
    }
}

/// Does a call of this class pass for a connection that last saw `seen`?
pub open spec fn passes(class: ToolClass, seen: Option<Option<Seq<char>>>, head: Option<Seq<char>>) -> bool {
    class == ToolClass::Record || seen == Some(head)
}

/// The check: a recording call always passes; a deciding call passes exactly when what the
/// connection last saw is the head.
pub fn check(class: ToolClass, last_seen: Option<&Epoch>, head: &Epoch) -> (r: Result<(), Stale>)
    ensures
        ({
            let seen = match last_seen {
                Some(e) => Some(e@),
                None => None,
            };
            match r {
                Ok(()) => passes(class, seen, head@),
                Err(stale) => !passes(class, seen, head@) && seen_view(stale.seen) == seen && stale.head@ == head@,
            }
        }),
{
    match class {
        ToolClass::Record => Ok(()),
        ToolClass::Decide => match last_seen {
            Some(seen) => if seen.is(head) {
                Ok(())
            } else {
                Err(Stale { seen: Some(seen.clone()), head: head.clone() })
            },
            None => Err(Stale { seen: None, head: head.clone() }),
        },
    }
}

/// A recording call is never stale.
pub proof fn law_record_never_stale(seen: Option<Option<Seq<char>>>, head: Option<Seq<char>>)
    ensures
        passes(ToolClass::Record, seen, head),
{
}

/// A deciding call passes exactly when the head is what was last seen.
pub proof fn law_decide_iff_current(seen: Option<Option<Seq<char>>>, head: Option<Seq<char>>)
    ensures
        passes(ToolClass::Decide, seen, head) <==> seen == Some(head),
        !passes(ToolClass::Decide, None, head),
{
}

/// What a commit is called for short is how it begins, twelve characters long, or whole where it
/// has no more.
pub proof fn law_short_names_begin_the_long_ones(s: Seq<char>)
    ensures
        first_twelve(s).len() == if s.len() < 12 {
            s.len() as int
        } else {
            12
        },
        forall|i: int| 0 <= i < first_twelve(s).len() ==> #[trigger] first_twelve(s)[i] == s[i],
{
}

/// A stale decision is answered with what the connection saw last, or that it never read, and with
/// the head; a head without a commit is called unborn.
pub proof fn law_stale_decisions_are_told(seen: Option<Seq<char>>, head: Option<Seq<char>>)
    ensures
        stale_text(Some(seen), head) == "STALE: this decision was made against epoch "@ + epoch_short(seen)
            + " but the ledger is now at "@ + epoch_short(head) + ". Re-read the relevant state, then retry."@,
        stale_text(None, head) == "STALE: this decision was made against epoch "@ + "(never read)"@
            + " but the ledger is now at "@ + epoch_short(head) + ". Re-read the relevant state, then retry."@,
        epoch_short(None) == "(unborn)"@,
        seen matches Some(oid) ==> epoch_short(seen) == first_twelve(oid),
{
}

} // verus!
