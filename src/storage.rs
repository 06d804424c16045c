//! Redundant storage of telemetry readings: a reading's canonical bytes are
//! erasure-coded over four data and two parity shards, and the joined
//! shards are kept as three copies. Reading them back takes the majority
//! copy and decodes it.

use vstd::prelude::*;
use crate::codec::CodecError;
use crate::classical::{
    ReedSolomonCorrector, views, concat, chunks, classical_shards, classical_decode, fits, uniform, shard_size,
    agrees_with, count_present, lemma_shard_size,
};
use crate::bridge::{BridgeErrorCorrection, bridge_decode, count_eq, is_majority, lemma_majority_unique};
use crate::pipeline::{join, split, present_all, all_some};

verus! {

pub const STORAGE_DATA_SHARDS: usize = 4;
pub const STORAGE_PARITY_SHARDS: usize = 2;
pub const STORAGE_COPIES: usize = 3;

/// The stored form of `bytes`: copies of its joined shards.
pub open spec fn stored_form(bytes: Seq<u8>) -> Seq<Seq<u8>> {
    Seq::new(STORAGE_COPIES as nat, |_i: int| concat(classical_shards(bytes, STORAGE_DATA_SHARDS as nat, STORAGE_PARITY_SHARDS as nat)))
}

/// What was established about the shards of `bytes` when they were stored.
pub open spec fn storable(bytes: Seq<u8>) -> bool {
    let c = classical_shards(bytes, STORAGE_DATA_SHARDS as nat, STORAGE_PARITY_SHARDS as nat);
    &&& fits(bytes.len(), STORAGE_DATA_SHARDS as nat)
    &&& c.len() == STORAGE_DATA_SHARDS + STORAGE_PARITY_SHARDS
    &&& shard_size(bytes.len(), STORAGE_DATA_SHARDS as nat) > 0
    &&& uniform(c, shard_size(bytes.len(), STORAGE_DATA_SHARDS as nat))
}

/// What reading back stored copies gives.
pub open spec fn recover_stored(copies: Seq<Seq<u8>>) -> Result<Seq<u8>, CodecError> {
    match bridge_decode(copies) {
        Err(e) => Err(e),
        Ok(block) => {
            let n = (STORAGE_DATA_SHARDS + STORAGE_PARITY_SHARDS) as nat;
            if block.len() == 0 || block.len() % n != 0 {
                Err(CodecError::InsufficientShards)
            } else {
                classical_decode(
                    STORAGE_DATA_SHARDS as nat,
                    STORAGE_PARITY_SHARDS as nat,
                    all_some(chunks(block, n, block.len() / n)),
                )
            }
        },
    }
}

proof fn lemma_count_eq_constant(n: nat, b: Seq<u8>)
    ensures
        count_eq(Seq::new(n, |_i: int| b), b) == n,
    decreases n,
{
    if n > 0 {
        let m = (n - 1) as nat;
        assert(Seq::new(n, |_i: int| b).drop_last() =~= Seq::new(m, |_i: int| b));
        lemma_count_eq_constant(m, b);
    }
}

/// Identical copies decode to their value.
pub proof fn lemma_unanimous(n: nat, b: Seq<u8>)
    requires
        n >= 1,
    ensures
        bridge_decode(Seq::new(n, |_i: int| b)) == Ok::<Seq<u8>, CodecError>(b),
{
    let s = Seq::new(n, |_i: int| b);
    lemma_count_eq_constant(n, b);
    assert(is_majority(s, b));
    let w = choose|w: Seq<u8>| is_majority(s, w);
    lemma_majority_unique(s, b, w);
}

proof fn lemma_concat_uniform(c: Seq<Seq<u8>>, s: nat)
    requires
        uniform(c, s),
    ensures
        concat(c).len() == c.len() * s,
        forall|i: int| 0 <= i < c.len() ==> #[trigger] concat(c).subrange(i * s, (i + 1) * s) == c[i],
    decreases c.len(),
{
    if c.len() > 0 {
        let p = c.drop_last();
        let n = c.len();
        assert(uniform(p, s));
        lemma_concat_uniform(p, s);
        assert((n - 1) * s + s == n * s) by (nonlinear_arith);
        assert forall|i: int| 0 <= i < c.len() implies #[trigger] concat(c).subrange(i * s, (i + 1) * s) == c[i] by {
            assert(i * s + s == (i + 1) * s) by (nonlinear_arith);
            assert(0 <= i * s) by (nonlinear_arith) requires 0 <= i;
            if i < n - 1 {
                assert((i + 1) * s <= (n - 1) * s) by (nonlinear_arith) requires i + 1 <= n - 1;
                assert(concat(c).subrange(i * s, (i + 1) * s) =~= concat(p).subrange(i * s, (i + 1) * s));
                assert(p[i] == c[i]);
            } else {
                assert(concat(c).subrange(i * s, (i + 1) * s) =~= c.last());
            }
        }
    } else {
        assert(c.len() * s == 0) by (nonlinear_arith) requires c.len() == 0;
    }
}

proof fn lemma_all_some(c: Seq<Seq<u8>>)
    ensures
        agrees_with(all_some(c), c),
        count_present(all_some(c)) == c.len(),
    decreases c.len(),
{
    if c.len() > 0 {
        lemma_all_some(c.drop_last());
        assert(all_some(c).drop_last() =~= all_some(c.drop_last()));
    }
}

fn copy_all(copies: &Vec<Vec<u8>>) -> (r: Vec<Vec<u8>>)
    ensures
        views(r@) == views(copies@),
{
    let mut out: Vec<Vec<u8>> = Vec::new();
    let mut i: usize = 0;
    while i < copies.len()
        invariant
            i <= copies@.len(),
            out@.len() == i,
            forall|x: int| 0 <= x < i ==> (#[trigger] out@[x])@ == copies@[x]@,
        decreases copies@.len() - i,
    {
        out.push(vstd::slice::slice_to_vec(copies[i].as_slice()));
        i += 1;
    }
    assert(views(out@) =~= views(copies@));
    out
}

/// The stored form of `bytes`.
pub fn store(bytes: &[u8]) -> (r: Vec<Vec<u8>>)
    requires
        fits(bytes@.len(), STORAGE_DATA_SHARDS as nat),
    ensures
        views(r@) == stored_form(bytes@),
        storable(bytes@),
{
    let rs = ReedSolomonCorrector::new(STORAGE_DATA_SHARDS, STORAGE_PARITY_SHARDS);
    let shards = rs.encode(bytes);
    proof {
        lemma_shard_size(bytes@.len(), STORAGE_DATA_SHARDS as nat);
    }
    let block = join(&shards);
    let copies = BridgeErrorCorrection::new(STORAGE_COPIES, 1);
    let r = copies.prepare_for_quantum(block.as_slice());
    assert(views(r@) =~= stored_form(bytes@));
    r
}

/// Reads stored copies back: the majority copy, cut into its shards and
/// decoded. The stored form of `bytes` gives back `bytes`.
pub fn recover(copies: &Vec<Vec<u8>>) -> (r: Result<Vec<u8>, CodecError>)
    ensures
        match r {
            Ok(v) => recover_stored(views(copies@)) == Ok::<Seq<u8>, CodecError>(v@),
            Err(e) => recover_stored(views(copies@)) == Err::<Seq<u8>, CodecError>(e),
        },
        forall|bytes: Seq<u8>| storable(bytes) && #[trigger] stored_form(bytes) == views(copies@) ==> r
            == Ok::<Vec<u8>, CodecError>(r->Ok_0) && r->Ok_0@ == bytes,
{
    let n: usize = STORAGE_DATA_SHARDS + STORAGE_PARITY_SHARDS;
    proof {
        assert forall|bytes: Seq<u8>| storable(bytes) && #[trigger] stored_form(bytes) == views(copies@) implies bridge_decode(
            views(copies@),
        ) == Ok::<Seq<u8>, CodecError>(concat(classical_shards(bytes, 4, 2))) && concat(classical_shards(bytes, 4, 2)).len() > 0
            && concat(classical_shards(bytes, 4, 2)).len() % 6 == 0 by {
            let c = classical_shards(bytes, STORAGE_DATA_SHARDS as nat, STORAGE_PARITY_SHARDS as nat);
            let s = shard_size(bytes.len(), STORAGE_DATA_SHARDS as nat);
            lemma_unanimous(STORAGE_COPIES as nat, concat(c));
            assert(stored_form(bytes) =~= Seq::new(STORAGE_COPIES as nat, |_i: int| concat(c)));
            lemma_concat_uniform(c, s);
            assert(concat(c).len() % 6 == 0) by (nonlinear_arith) requires concat(c).len() == 6 * s;
            assert(concat(c).len() > 0) by (nonlinear_arith) requires concat(c).len() == 6 * s, s > 0;
        }
    }
    let owned = copy_all(copies);
    let bridge = BridgeErrorCorrection::new(STORAGE_COPIES, 1);
    let block = match bridge.verify_from_quantum(owned) {
        Ok(b) => b,
        Err(e) => return Err(e),
    };
    if block.len() == 0 || block.len() % n != 0 {
        return Err(CodecError::InsufficientShards);
    }
    let pieces = split(&block, n);
    let shards = present_all(&pieces);
    let rs = ReedSolomonCorrector::new(STORAGE_DATA_SHARDS, STORAGE_PARITY_SHARDS);
    proof {
        assert forall|bytes: Seq<u8>| storable(bytes) && #[trigger] stored_form(bytes) == views(copies@) implies
            crate::classical::opt_views(shards@).len() == 6 && count_present(crate::classical::opt_views(shards@)) >= 4
            && agrees_with(crate::classical::opt_views(shards@), classical_shards(bytes, 4, 2)) by {
            let c = classical_shards(bytes, STORAGE_DATA_SHARDS as nat, STORAGE_PARITY_SHARDS as nat);
            let s = shard_size(bytes.len(), STORAGE_DATA_SHARDS as nat);
            lemma_unanimous(STORAGE_COPIES as nat, concat(c));
            assert(stored_form(bytes) =~= Seq::new(STORAGE_COPIES as nat, |_i: int| concat(c)));
            lemma_concat_uniform(c, s);
            assert(block@ == concat(c));
            assert(block@.len() / 6 == s) by (nonlinear_arith) requires block@.len() == 6 * s;
            assert(chunks(block@, 6, s) =~= c);
            lemma_all_some(c);
        }
    }
    rs.decode(shards.as_slice())
}

} // verus!
