//! `glide who-owns`: the ranked owners of a path.

use vstd::prelude::*;

use crate::graph::{rank_hits, ranked, OwnerHit};
use crate::text::owned;

verus! {

/// The owners of a path, ranked.
#[derive(Debug, Clone)]
pub struct WhoOwnsResponse {
    pub query: String,
    pub hits: Vec<OwnerHit>,
    /// A hint to the formatter; the evidence is always there.
    pub include_evidence: bool,
}

/// At least one owner is always asked for.
pub open spec fn effective_top(top: usize) -> nat {
    if top == 0 {
        1
    } else {
        top as nat
    }
}

/// Answers "who owns `path`" from the hits of every pattern that matched it:
/// at most `top` owners (at least one), heaviest first.
pub fn who_owns(path: &str, hits: Vec<OwnerHit>, top: usize, include_evidence: bool) -> (r:
    WhoOwnsResponse)
    ensures
        r.query@ == path@,
        r.hits@ == ranked(hits@, effective_top(top)),
        r.include_evidence == include_evidence,
{
    let top = if top == 0 {
        1
    } else {
        top
    };
    WhoOwnsResponse { query: owned(path), hits: rank_hits(hits, top), include_evidence }
}

} // verus!
