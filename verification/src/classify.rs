//! The classifier: maps one raw response body to a classified outcome by
//! testing two literal markers in a fixed priority order. Classification is
//! total over all bodies and never fails; a body matching neither marker is
//! Unknown.

use vstd::prelude::*;
use crate::text::{contains_seq, contains_substring};

verus! {

/// The classified result of probing one address. `Valid` carries the address
/// back so that the aggregate can collect the valid list.
#[derive(Debug, Clone, PartialEq, Eq)]
pub enum Outcome {
    Valid(String),
    Invalid,
    Unknown,
}

/// The mathematical value of an `Outcome`.
pub enum OutcomeView {
    Valid(Seq<char>),
    Invalid,
    Unknown,
}

impl View for Outcome {
    type V = OutcomeView;

    open spec fn view(&self) -> OutcomeView {
        match self {
            Outcome::Valid(a) => OutcomeView::Valid(a@),
            Outcome::Invalid => OutcomeView::Invalid,
            Outcome::Unknown => OutcomeView::Unknown,
        }
    }
}

/// The marker the provider puts in a response for an unregistered account.
pub open spec fn absent_marker() -> Seq<char> {
    "\"IfExistsResult\":1"@
}

/// The marker the provider puts in a response for a registered account.
pub open spec fn exists_marker() -> Seq<char> {
    "\"IfExistsResult\":0"@
}

/// What `classify` returns: the absent marker is tested first, so a malformed
/// body carrying both markers resolves to `Invalid`.
pub open spec fn spec_classify(address: Seq<char>, body: Seq<char>) -> OutcomeView {
    if contains_seq(body, absent_marker()) {
        OutcomeView::Invalid
    } else if contains_seq(body, exists_marker()) {
        OutcomeView::Valid(address)
    } else {
        OutcomeView::Unknown
    }
}

/// Classifies one response body for `address`. Deterministic, no side
/// effects; total over every body.
pub fn classify(address: String, body: &str) -> (o: Outcome)
    ensures
        o@ == spec_classify(address@, body@),
{
    if contains_substring(body, "\"IfExistsResult\":1") {
        Outcome::Invalid
    } else if contains_substring(body, "\"IfExistsResult\":0") {
        Outcome::Valid(address)
    } else {
        Outcome::Unknown
    }
}

/// A body containing the absent marker classifies as `Invalid`, regardless of
/// what else it contains.
pub proof fn lemma_classify_absent(address: Seq<char>, body: Seq<char>)
    requires
        contains_seq(body, absent_marker()),
    ensures
        spec_classify(address, body) == OutcomeView::Invalid,
{
}

/// A body containing the exists marker and not the absent marker classifies
/// as `Valid`, carrying the probed address.
pub proof fn lemma_classify_exists(address: Seq<char>, body: Seq<char>)
    requires
        contains_seq(body, exists_marker()),
        !contains_seq(body, absent_marker()),
    ensures
        spec_classify(address, body) == OutcomeView::Valid(address),
{
}

/// A body containing neither marker classifies as `Unknown`.
pub proof fn lemma_classify_neither(address: Seq<char>, body: Seq<char>)
    requires
        !contains_seq(body, exists_marker()),
        !contains_seq(body, absent_marker()),
    ensures
        spec_classify(address, body) == OutcomeView::Unknown,
{
}

} // verus!
