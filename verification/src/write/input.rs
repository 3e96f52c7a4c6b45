//! What callers ask to be written. Nothing of it is checked yet: see
//! [`crate::write::validate`].

use vstd::prelude::*;

use crate::date::{Civil, Date};
use crate::hledger::tags_view;

verus! {

/// An amount on a posting: an exact decimal, as text, and its commodity.
#[derive(Debug, Clone, PartialEq, Eq)]
pub struct PostingAmount {
    /// The quantity, e.g. `100.00` or `-44.00`.
    pub quantity: String,
    /// The commodity symbol, e.g. `$` or `EUR`.
    pub commodity: String,
}

/// One line of a transaction to write.
#[derive(Debug, Clone, PartialEq, Eq)]
pub struct PostingInput {
    /// The account.
    pub account: String,
    /// The amount; left out on the one posting that balances the others.
    pub amount: Option<PostingAmount>,
}

/// What a [`PostingInput`] holds: the account and the amount's quantity and commodity.
#[verifier::ext_equal]
pub struct PostingInputView {
    pub account: Seq<char>,
    pub amount: Option<(Seq<char>, Seq<char>)>,
}

impl View for PostingInput {
    type V = PostingInputView;

    open spec fn view(&self) -> PostingInputView {
        PostingInputView {
            account: self.account@,
            amount: match self.amount {
                Some(a) => Some((a.quantity@, a.commodity@)),
                None => None,
            },
        }
    }
}

/// What a list of posting inputs holds.
pub open spec fn posting_inputs_view(v: Seq<PostingInput>) -> Seq<PostingInputView> {
    Seq::new(v.len(), |i: int| v[i]@)
}

/// A transaction to write.
#[derive(Debug, Clone, PartialEq, Eq)]
pub struct TransactionInput {
    /// The date.
    pub date: Date,
    /// The description or payee.
    pub description: String,
    /// The postings.
    pub postings: Vec<PostingInput>,
    /// Further tags.
    pub tags: Vec<(String, String)>,
    /// The key by which a repeated request is recognised. White space around it does not count.
    pub idem: Option<String>,
}

/// What a [`TransactionInput`] holds.
#[verifier::ext_equal]
pub struct TransactionInputView {
    pub date: Civil,
    pub description: Seq<char>,
    pub postings: Seq<PostingInputView>,
    pub tags: Seq<(Seq<char>, Seq<char>)>,
    pub idem: Option<Seq<char>>,
}

/// What an optional string holds.
pub open spec fn option_view(s: Option<String>) -> Option<Seq<char>> {
    match s {
        Some(s) => Some(s@),
        None => None,
    }
}

impl View for TransactionInput {
    type V = TransactionInputView;

    open spec fn view(&self) -> TransactionInputView {
        TransactionInputView {
            date: self.date@,
            description: self.description@,
            postings: posting_inputs_view(self.postings@),
            tags: tags_view(self.tags@),
            idem: option_view(self.idem),
        }
    }
}

} // verus!
