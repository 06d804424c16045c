//! Bridge layer: redundant copies across the classical/quantum boundary,
//! read back by strict majority.

use vstd::prelude::*;
use crate::codec::CodecError;
use crate::classical::views;

verus! {

/// Number of copies in `s` equal to `v`.
pub open spec fn count_eq(s: Seq<Seq<u8>>, v: Seq<u8>) -> nat
    decreases s.len(),
{
    if s.len() == 0 {
        0
    } else {
        count_eq(s.drop_last(), v) + if s.last() == v { 1nat } else { 0nat }
    }
}

/// `v` is held by more than half of the copies in `s`.
pub open spec fn is_majority(s: Seq<Seq<u8>>, v: Seq<u8>) -> bool {
    2 * count_eq(s, v) > s.len()
}

/// What majority decoding of `s` gives: the value held by more than half of
/// the copies, or `NoQuorum` when none is.
pub open spec fn bridge_decode(s: Seq<Seq<u8>>) -> Result<Seq<u8>, CodecError> {
    if exists|v: Seq<u8>| is_majority(s, v) {
        Ok(choose|v: Seq<u8>| is_majority(s, v))
    } else {
        Err(CodecError::NoQuorum)
    }
}

proof fn lemma_count_eq_witness(s: Seq<Seq<u8>>, v: Seq<u8>)
    requires
        count_eq(s, v) > 0,
    ensures
        exists|i: int| 0 <= i < s.len() && s[i] == v,
    decreases s.len(),
{
    if s.last() != v {
        lemma_count_eq_witness(s.drop_last(), v);
        let i = choose|i: int| 0 <= i < s.drop_last().len() && s.drop_last()[i] == v;
        assert(s[i] == v);
    } else {
        assert(s[s.len() - 1] == v);
    }
}

proof fn lemma_count_eq_bound(s: Seq<Seq<u8>>, v: Seq<u8>)
    ensures
        count_eq(s, v) <= s.len(),
    decreases s.len(),
{
    if s.len() > 0 {
        lemma_count_eq_bound(s.drop_last(), v);
    }
}

/// Two values that each hold a strict majority are one value.
pub proof fn lemma_majority_unique(s: Seq<Seq<u8>>, v: Seq<u8>, w: Seq<u8>)
    requires
        is_majority(s, v),
        is_majority(s, w),
    ensures
        v == w,
    decreases s.len(),
{
    if v != w {
        lemma_disjoint_counts(s, v, w);
    }
}

proof fn lemma_disjoint_counts(s: Seq<Seq<u8>>, v: Seq<u8>, w: Seq<u8>)
    requires
        v != w,
    ensures
        count_eq(s, v) + count_eq(s, w) <= s.len(),
    decreases s.len(),
{
    if s.len() > 0 {
        lemma_disjoint_counts(s.drop_last(), v, w);
    }
}

pub(crate) fn bytes_eq(a: &Vec<u8>, b: &Vec<u8>) -> (r: bool)
    ensures
        r == (a@ == b@),
{
    if a.len() != b.len() {
        return false;
    }
    let mut i: usize = 0;
    while i < a.len()
        invariant
            i <= a@.len(),
            a@.len() == b@.len(),
            forall|j: int| 0 <= j < i ==> a@[j] == b@[j],
        decreases a@.len() - i,
    {
        if a[i] != b[i] {
            return false;
        }
        i += 1;
    }
    assert(a@ =~= b@);
    true
}

fn copy_bytes(data: &[u8]) -> (r: Vec<u8>)
    ensures
        r@ == data@,
{
    vstd::slice::slice_to_vec(data)
}

/// Redundant transmission of a payload as identical copies.
pub struct BridgeErrorCorrection {
    pub redundancy_factor: usize,
    pub verification_layers: usize,
}

impl BridgeErrorCorrection {
    pub fn new(redundancy_factor: usize, verification_layers: usize) -> (r: Self)
        ensures
            r.redundancy_factor == redundancy_factor,
            r.verification_layers == verification_layers,
    {
        BridgeErrorCorrection { redundancy_factor, verification_layers }
    }

    /// `redundancy_factor` copies of `data`.
    pub fn prepare_for_quantum(&self, data: &[u8]) -> (r: Vec<Vec<u8>>)
        ensures
            views(r@) == Seq::new(self.redundancy_factor as nat, |_i: int| data@),
    {
        let mut result: Vec<Vec<u8>> = Vec::with_capacity(self.redundancy_factor);
        let mut i: usize = 0;
        while i < self.redundancy_factor
            invariant
                i <= self.redundancy_factor,
                result@.len() == i,
                forall|x: int| 0 <= x < i ==> (#[trigger] result@[x])@ == data@,
            decreases self.redundancy_factor - i,
        {
            result.push(copy_bytes(data));
            i += 1;
        }
        assert(views(result@) =~= Seq::new(self.redundancy_factor as nat, |_i: int| data@));
        result
    }

    /// The value held by a strict majority of `data`, or `NoQuorum`.
    pub fn verify_from_quantum(&self, data: Vec<Vec<u8>>) -> (r: Result<Vec<u8>, CodecError>)
        ensures
            match r {
                Ok(v) => bridge_decode(views(data@)) == Ok::<Seq<u8>, CodecError>(v@),
                Err(e) => bridge_decode(views(data@)) == Err::<Seq<u8>, CodecError>(e),
            },
    {
        let ghost s = views(data@);
        let n: usize = data.len();
        let mut i: usize = 0;
        while i < n
            invariant
                i <= n,
                n == data@.len(),
                s == views(data@),
                forall|x: int| 0 <= x < i ==> !is_majority(s, #[trigger] s[x]),
            decreases n - i,
        {
            let mut c: usize = 0;
            let mut j: usize = 0;
            while j < n
                invariant
                    j <= n,
                    i < n,
                    n == data@.len(),
                    s == views(data@),
                    c == count_eq(s.take(j as int), s[i as int]),
                decreases n - j,
            {
                proof {
                    lemma_count_eq_bound(s.take(j as int), s[i as int]);
                    assert(s.take(j + 1).drop_last() =~= s.take(j as int));
                }
                if bytes_eq(&data[j], &data[i]) {
                    c += 1;
                }
                j += 1;
            }
            assert(s.take(n as int) =~= s);
            proof {
                lemma_count_eq_bound(s, s[i as int]);
            }
            if c > n - c {
                let v = copy_bytes(data[i].as_slice());
                proof {
                    assert(is_majority(s, v@));
                    let w = choose|w: Seq<u8>| is_majority(s, w);
                    lemma_majority_unique(s, v@, w);
                }
                return Ok(v);
            }
            i += 1;
        }
        proof {
            assert forall|v: Seq<u8>| !is_majority(s, v) by {
                if is_majority(s, v) {
                    lemma_count_eq_witness(s, v);
                    let x = choose|x: int| 0 <= x < s.len() && s[x] == v;
                    assert(!is_majority(s, s[x]));
                }
            }
        }
        Err(CodecError::NoQuorum)
    }
}

} // verus!
