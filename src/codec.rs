//! Errors and shared vocabulary of the error-correction layers.

use vstd::prelude::*;

verus! {

/// Failure of one stage of the error-correction pipeline; each stage has a
/// variant of its own.
#[derive(Debug, Clone, Copy, PartialEq, Eq, Structural)]
pub enum CodecError {
    /// Fewer shards than the data shard count survived, or the survivors
    /// disagree in size.
    InsufficientShards,
    /// No copy holds a strict majority.
    NoQuorum,
    /// Nothing to decode.
    Empty,
    /// The recovered payload does not hold a well-formed length header.
    MalformedFrame,
}

/// Number of `true` entries in `s`.
pub open spec fn count_true(s: Seq<bool>) -> nat
    decreases s.len(),
{
    if s.len() == 0 {
        0
    } else {
        count_true(s.drop_last()) + if s.last() { 1nat } else { 0nat }
    }
}

/// Number of positions at which `a` and `b` differ (both of one length).
pub open spec fn mismatches<T>(a: Seq<T>, b: Seq<T>) -> nat
    decreases a.len(),
{
    if a.len() == 0 || b.len() == 0 {
        0
    } else {
        mismatches(a.drop_last(), b.drop_last()) + if a.last() != b.last() { 1nat } else { 0nat }
    }
}

pub proof fn lemma_count_true_bound(s: Seq<bool>)
    ensures
        count_true(s) <= s.len(),
    decreases s.len(),
{
    if s.len() > 0 {
        lemma_count_true_bound(s.drop_last());
    }
}

} // verus!
