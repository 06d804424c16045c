//! Classical layer: Reed-Solomon erasure coding of a framed payload over
//! `data_shards` data shards and `parity_shards` parity shards.
//!
//! The payload is framed as its length (eight little-endian bytes) followed
//! by its bytes, padded with zeros to a multiple of the data shard count, and
//! cut into equal data shards; the parity shards come from the erasure code.

use vstd::prelude::*;
use crate::codec::CodecError;
use crate::encoding::{u64_bytes, le_value, push_u64, push_bytes, read_u64};

verus! {

/// The full codeword (data shards, then `parity_shards` parity shards) that
/// Reed-Solomon encoding over GF(2^8) gives for `data`.
pub uninterp spec fn rs_codeword(data: Seq<Seq<u8>>, parity_shards: nat) -> Seq<Seq<u8>>;

/// The shards that Reed-Solomon reconstruction yields from `shards`.
pub uninterp spec fn rs_reconstructed(data_shards: nat, parity_shards: nat, shards: Seq<Option<Seq<u8>>>) -> Seq<
    Seq<u8>,
>;

pub open spec fn views(s: Seq<Vec<u8>>) -> Seq<Seq<u8>> {
    s.map_values(|v: Vec<u8>| v@)
}

pub open spec fn opt_view(o: Option<Vec<u8>>) -> Option<Seq<u8>> {
    match o {
        Some(v) => Some(v@),
        None => None,
    }
}

pub open spec fn opt_views(s: Seq<Option<Vec<u8>>>) -> Seq<Option<Seq<u8>>> {
    s.map_values(|o: Option<Vec<u8>>| opt_view(o))
}

/// Shard counts that the code over GF(2^8) accepts.
pub open spec fn rs_params(k: nat, m: nat) -> bool {
    1 <= k && 1 <= m && k + m <= 256
}

/// Every shard of `s` holds `len` bytes.
pub open spec fn uniform(s: Seq<Seq<u8>>, len: nat) -> bool {
    forall|i: int| 0 <= i < s.len() ==> (#[trigger] s[i]).len() == len
}

/// Number of shards of `s` that are present.
pub open spec fn count_present(s: Seq<Option<Seq<u8>>>) -> nat
    decreases s.len(),
{
    if s.len() == 0 {
        0
    } else {
        count_present(s.drop_last()) + if s.last() is Some { 1nat } else { 0nat }
    }
}

/// The present shards of `s` are non-empty and of one size.
pub open spec fn present_sizes_ok(s: Seq<Option<Seq<u8>>>) -> bool {
    &&& forall|i: int| 0 <= i < s.len() && (#[trigger] s[i]) is Some ==> s[i]->0.len() > 0
    &&& forall|i: int, j: int|
        0 <= i < s.len() && 0 <= j < s.len() && (#[trigger] s[i]) is Some && (#[trigger] s[j]) is Some
            ==> s[i]->0.len() == s[j]->0.len()
}

/// Reconstruction succeeds on `s`: sizes agree and at least `k` shards survive.
pub open spec fn rs_accepts(k: nat, s: Seq<Option<Seq<u8>>>) -> bool {
    present_sizes_ok(s) && count_present(s) >= k
}

/// Each present shard of `s` is the shard of `c` at its position.
pub open spec fn agrees_with(s: Seq<Option<Seq<u8>>>, c: Seq<Seq<u8>>) -> bool {
    &&& s.len() == c.len()
    &&& forall|i: int| 0 <= i < s.len() && (#[trigger] s[i]) is Some ==> s[i]->0 == c[i]
}

/// Every shard of `s` is present and equals the shard of `c` at its position.
pub open spec fn all_present_as(s: Seq<Option<Seq<u8>>>, c: Seq<Seq<u8>>) -> bool {
    &&& s.len() == c.len()
    &&& forall|i: int| 0 <= i < s.len() ==> #[trigger] s[i] == Some(c[i])
}

/// Relies on `ReedSolomon::new` over GF(2^8), which accepts these counts,
/// and on `ReedSolomon::encode`, which overwrites the parity shards with the
/// code's parity of the data shards and leaves the data shards as they are.
#[verifier::external_body]
fn rs_encode(k: usize, m: usize, shards: &mut Vec<Vec<u8>>)
    requires
        rs_params(k as nat, m as nat),
        old(shards)@.len() == k + m,
        views(old(shards)@)[0].len() > 0,
        uniform(views(old(shards)@), views(old(shards)@)[0].len()),
    ensures
        views(final(shards)@) == rs_codeword(views(old(shards)@).take(k as int), m as nat),
        views(final(shards)@).take(k as int) == views(old(shards)@).take(k as int),
        final(shards)@.len() == k + m,
        uniform(views(final(shards)@), views(old(shards)@)[0].len()),
{
    let rs = reed_solomon_erasure::galois_8::ReedSolomon::new(k, m).unwrap();
    rs.encode(shards).unwrap();
}

/// Relies on `ReedSolomon::new` over GF(2^8), which accepts these counts,
/// and on `ReedSolomon::reconstruct`: it fails, touching nothing, when a
/// present shard is empty, present shards differ in size, or fewer than `k`
/// are present; otherwise it fills every missing shard, keeping the present
/// ones, so that any `k` shards of a codeword give back that codeword.
#[verifier::external_body]
fn rs_reconstruct(k: usize, m: usize, shards: &mut Vec<Option<Vec<u8>>>) -> (ok: bool)
    requires
        rs_params(k as nat, m as nat),
        old(shards)@.len() == k + m,
    ensures
        ok == rs_accepts(k as nat, opt_views(old(shards)@)),
        final(shards)@.len() == old(shards)@.len(),
        !ok ==> final(shards)@ == old(shards)@,
        ok ==> all_present_as(opt_views(final(shards)@), rs_reconstructed(k as nat, m as nat, opt_views(old(shards)@))),
        forall|d: Seq<Seq<u8>>|
            d.len() == k && d[0].len() > 0 && uniform(d, d[0].len()) && count_present(opt_views(old(shards)@)) >= k
                && agrees_with(opt_views(old(shards)@), #[trigger] rs_codeword(d, m as nat))
                ==> ok && all_present_as(opt_views(final(shards)@), rs_codeword(d, m as nat))
                    && all_present_as(opt_views(final(shards)@).take(k as int), d),
{
    let rs = reed_solomon_erasure::galois_8::ReedSolomon::new(k, m).unwrap();
    rs.reconstruct(shards.as_mut_slice()).is_ok()
}

/// Bytes per shard for a payload of `len` bytes over `k` data shards: the
/// framed length `len + 8`, divided by `k`, rounded up.
pub open spec fn shard_size(len: nat, k: nat) -> nat {
    ((len + 8 + k - 1) as nat) / k
}

/// The framed payload: its length, its bytes, then zeros up to `k` shards.
pub open spec fn padded_frame(data: Seq<u8>, k: nat) -> Seq<u8> {
    let f = u64_bytes(data.len() as u64) + data;
    f + Seq::new((k * shard_size(data.len(), k) - f.len()) as nat, |_i: int| 0u8)
}

/// `p` cut into `k` consecutive pieces of `s` bytes.
pub open spec fn chunks(p: Seq<u8>, k: nat, s: nat) -> Seq<Seq<u8>> {
    Seq::new(k, |i: int| p.subrange(i * s, (i + 1) * s))
}

/// The data shards of `data` over `k` data shards.
pub open spec fn data_shards_of(data: Seq<u8>, k: nat) -> Seq<Seq<u8>> {
    chunks(padded_frame(data, k), k, shard_size(data.len(), k))
}

/// All `k + m` shards that encoding `data` gives.
pub open spec fn classical_shards(data: Seq<u8>, k: nat, m: nat) -> Seq<Seq<u8>> {
    rs_codeword(data_shards_of(data, k), m)
}

/// The shards of `s` joined in order.
pub open spec fn concat(s: Seq<Seq<u8>>) -> Seq<u8>
    decreases s.len(),
{
    if s.len() == 0 {
        Seq::empty()
    } else {
        concat(s.drop_last()) + s.last()
    }
}

/// Reads a framed payload back: the length header, then that many bytes.
pub open spec fn unframe(joined: Seq<u8>) -> Result<Seq<u8>, CodecError> {
    if joined.len() < 8 {
        Err(CodecError::MalformedFrame)
    } else if le_value(joined.subrange(0, 8)) > joined.len() - 8 {
        Err(CodecError::MalformedFrame)
    } else {
        Ok(joined.subrange(8, 8 + le_value(joined.subrange(0, 8)) as int))
    }
}

/// What decoding `shards` gives.
pub open spec fn classical_decode(k: nat, m: nat, shards: Seq<Option<Seq<u8>>>) -> Result<Seq<u8>, CodecError> {
    if shards.len() != k + m || !rs_accepts(k, shards) {
        Err(CodecError::InsufficientShards)
    } else {
        unframe(concat(rs_reconstructed(k, m, shards).take(k as int)))
    }
}

/// `c` with the shards at positions where `present` is false lost.
pub open spec fn mask(c: Seq<Seq<u8>>, present: Seq<bool>) -> Seq<Option<Seq<u8>>> {
    Seq::new(c.len(), |i: int| if present[i] { Some(c[i]) } else { None })
}

/// Payloads small enough to frame and shard in memory.
pub open spec fn fits(len: nat, k: nat) -> bool {
    len + 8 + k <= usize::MAX
}

proof fn lemma_concat_chunks(p: Seq<u8>, j: nat, s: nat)
    requires
        j * s <= p.len(),
    ensures
        concat(chunks(p, j, s)) == p.subrange(0, (j * s) as int),
    decreases j,
{
    if j > 0 {
        let jm = (j - 1) as nat;
        assert(jm * s + s == j * s) by (nonlinear_arith)
            requires jm == j - 1;
        assert(jm * s <= j * s) by (nonlinear_arith)
            requires jm == j - 1;
        lemma_concat_chunks(p, jm, s);
        assert(chunks(p, j, s).drop_last() =~= chunks(p, jm, s));
        assert(chunks(p, j, s).last() == p.subrange((jm * s) as int, (j * s) as int));
        assert(p.subrange(0, (jm * s) as int) + p.subrange((jm * s) as int, (j * s) as int) =~= p.subrange(0, (j * s) as int));
        assert(concat(chunks(p, j, s)) == concat(chunks(p, jm, s)) + chunks(p, j, s).last());
    } else {
        assert(j * s == 0) by (nonlinear_arith)
            requires j == 0;
        assert(p.subrange(0, 0) =~= Seq::<u8>::empty());
        assert(concat(chunks(p, j, s)) == Seq::<u8>::empty());
    }
}

pub proof fn lemma_shard_size(len: nat, k: nat)
    requires
        k >= 1,
    ensures
        shard_size(len, k) >= 1,
        len + 8 <= k * shard_size(len, k),
        k * shard_size(len, k) < len + 8 + k,
{
    let t = (len + 8 + k - 1) as nat;
    let q = t / k;
    assert(t == k * q + t % k) by (nonlinear_arith)
        requires k >= 1, q == t / k;
    assert(t % k < k) by (nonlinear_arith)
        requires k >= 1;
    assert(q >= 1) by (nonlinear_arith)
        requires k >= 1, t >= k, q == t / k;
}

proof fn lemma_data_shards(data: Seq<u8>, k: nat)
    requires
        k >= 1,
        data.len() < 0x1_0000_0000_0000_0000,
    ensures
        data_shards_of(data, k).len() == k,
        data_shards_of(data, k)[0].len() == shard_size(data.len(), k),
        shard_size(data.len(), k) > 0,
        uniform(data_shards_of(data, k), shard_size(data.len(), k)),
        padded_frame(data, k).len() == k * shard_size(data.len(), k),
        concat(data_shards_of(data, k)) == padded_frame(data, k),
        unframe(padded_frame(data, k)) == Ok::<Seq<u8>, CodecError>(data),
{
    let s = shard_size(data.len(), k);
    let p = padded_frame(data, k);
    lemma_shard_size(data.len(), k);
    crate::encoding::lemma_le_bytes_len(data.len(), 8);
    assert(p.len() == k * s);
    assert forall|i: int| 0 <= i < k implies (#[trigger] data_shards_of(data, k)[i]).len() == s by {
        assert(i * s + s == (i + 1) * s) by (nonlinear_arith);
        assert((i + 1) * s <= k * s) by (nonlinear_arith)
            requires i + 1 <= k;
        assert(0 <= i * s) by (nonlinear_arith)
            requires 0 <= i;
    }
    lemma_concat_chunks(p, k, s);
    assert(p.subrange(0, (k * s) as int) =~= p);
    crate::encoding::lemma_pow256_eight();
    crate::encoding::lemma_le_round_trip(data.len(), 8);
    assert(p.subrange(0, 8) =~= u64_bytes(data.len() as u64));
    assert(p.subrange(8, 8 + data.len() as int) =~= data);
}

/// Losing the shards of a codeword where `present` is false keeps the
/// survivors in agreement with it, and `present` counts them.
pub proof fn lemma_mask_agrees(c: Seq<Seq<u8>>, present: Seq<bool>)
    requires
        present.len() == c.len(),
    ensures
        agrees_with(mask(c, present), c),
        count_present(mask(c, present)) == crate::codec::count_true(present),
    decreases c.len(),
{
    if c.len() > 0 {
        lemma_mask_agrees(c.drop_last(), present.drop_last());
        assert(mask(c, present).drop_last() =~= mask(c.drop_last(), present.drop_last()));
    }
}

pub(crate) fn copy_range(v: &Vec<u8>, a: usize, b: usize) -> (r: Vec<u8>)
    requires
        a <= b <= v@.len(),
    ensures
        r@ == v@.subrange(a as int, b as int),
{
    let mut out: Vec<u8> = Vec::with_capacity(b - a);
    let mut i: usize = a;
    while i < b
        invariant
            a <= i <= b,
            b <= v@.len(),
            out@ == v@.subrange(a as int, i as int),
        decreases b - i,
    {
        out.push(v[i]);
        i += 1;
        assert(out@ =~= v@.subrange(a as int, i as int));
    }
    out
}

fn zeros(n: usize) -> (r: Vec<u8>)
    ensures
        r@ == Seq::new(n as nat, |_i: int| 0u8),
{
    let mut out: Vec<u8> = Vec::with_capacity(n);
    let mut i: usize = 0;
    while i < n
        invariant
            i <= n,
            out@ == Seq::new(i as nat, |_i: int| 0u8),
        decreases n - i,
    {
        out.push(0u8);
        i += 1;
        assert(out@ =~= Seq::new(i as nat, |_i: int| 0u8));
    }
    out
}

fn copy_shards(shards: &[Option<Vec<u8>>]) -> (r: Vec<Option<Vec<u8>>>)
    ensures
        opt_views(r@) == opt_views(shards@),
{
    let mut out: Vec<Option<Vec<u8>>> = Vec::with_capacity(shards.len());
    let mut i: usize = 0;
    while i < shards.len()
        invariant
            i <= shards@.len(),
            out@.len() == i,
            forall|x: int| 0 <= x < i ==> opt_view(#[trigger] out@[x]) == opt_view(shards@[x]),
        decreases shards@.len() - i,
    {
        let c = match &shards[i] {
            Some(v) => Some(vstd::slice::slice_to_vec(v.as_slice())),
            None => None,
        };
        assert(opt_view(c) == opt_view(shards@[i as int]));
        out.push(c);
        i += 1;
    }
    assert(opt_views(out@) =~= opt_views(shards@));
    out
}

/// Reed-Solomon erasure coding over a fixed number of data and parity
/// shards.
pub struct ReedSolomonCorrector {
    pub data_shards: usize,
    pub parity_shards: usize,
}

impl ReedSolomonCorrector {
    pub open spec fn wf(&self) -> bool {
        rs_params(self.data_shards as nat, self.parity_shards as nat)
    }

    pub fn new(data_shards: usize, parity_shards: usize) -> (r: Self)
        requires
            rs_params(data_shards as nat, parity_shards as nat),
        ensures
            r.wf(),
            r.data_shards == data_shards,
            r.parity_shards == parity_shards,
    {
        ReedSolomonCorrector { data_shards, parity_shards }
    }

    /// Frames `data` and cuts it into `data_shards` data shards followed by
    /// `parity_shards` parity shards, all of one size.
    pub fn encode(&self, data: &[u8]) -> (r: Vec<Vec<u8>>)
        requires
            self.wf(),
            fits(data@.len(), self.data_shards as nat),
        ensures
            views(r@) == classical_shards(data@, self.data_shards as nat, self.parity_shards as nat),
            r@.len() == self.data_shards + self.parity_shards,
            views(r@).take(self.data_shards as int) == data_shards_of(data@, self.data_shards as nat),
            uniform(views(r@), shard_size(data@.len(), self.data_shards as nat)),
    {
        let k = self.data_shards;
        let m = self.parity_shards;
        let ghost kn = k as nat;
        let flen: usize = data.len() + 8;
        let size: usize = (flen + k - 1) / k;
        proof {
            lemma_shard_size(data@.len(), kn);
            lemma_data_shards(data@, kn);
        }
        assert(size as nat == shard_size(data@.len(), kn));
        let total: usize = k * size;
        let mut frame: Vec<u8> = Vec::with_capacity(total);
        push_u64(&mut frame, data.len() as u64);
        push_bytes(&mut frame, data);
        let pad = zeros(total - flen);
        push_bytes(&mut frame, pad.as_slice());
        proof {
            crate::encoding::lemma_le_bytes_len(data@.len(), 8);
            assert(u64_bytes(data@.len() as u64).len() == 8);
            assert(total - flen == (kn * shard_size(data@.len(), kn) - (u64_bytes(data@.len() as u64) + data@).len()));
        }
        assert(frame@ =~= padded_frame(data@, kn));
        let ghost d = data_shards_of(data@, kn);
        let mut shards: Vec<Vec<u8>> = Vec::with_capacity(k + m);
        let mut i: usize = 0;
        while i < k
            invariant
                i <= k,
                k == self.data_shards,
                kn == k,
                size as nat == shard_size(data@.len(), kn),
                total == k * size,
                frame@ == padded_frame(data@, kn),
                frame@.len() == total,
                d == data_shards_of(data@, kn),
                views(shards@) == d.take(i as int),
            decreases k - i,
        {
            assert((i + 1) * size <= k * size) by (nonlinear_arith)
                requires i + 1 <= k;
            assert(i * size + size == (i + 1) * size) by (nonlinear_arith);
            let piece = copy_range(&frame, i * size, (i + 1) * size);
            assert(piece@ == d[i as int]);
            let ghost prev = shards@;
            shards.push(piece);
            i += 1;
            assert(views(shards@) =~= d.take(i as int)) by {
                assert(views(shards@).drop_last() =~= views(prev));
                assert(views(prev) =~= d.take(i - 1));
            }
        }
        assert(d.take(k as int) =~= d);
        assert forall|x: int| 0 <= x < views(shards@).len() implies (#[trigger] views(shards@)[x]).len() == size as nat by {
            assert(views(shards@)[x] == d[x]);
        }
        let mut j: usize = 0;
        while j < m
            invariant
                j <= m,
                m == self.parity_shards,
                k == self.data_shards,
                kn == k,
                size as nat == shard_size(data@.len(), kn),
                size > 0,
                d == data_shards_of(data@, kn),
                shards@.len() == k + j,
                views(shards@).take(k as int) == d,
                uniform(views(shards@), size as nat),
            decreases m - j,
        {
            let z = zeros(size);
            let ghost prev = shards@;
            shards.push(z);
            j += 1;
            assert(views(shards@).drop_last() =~= views(prev));
            assert(views(shards@).take(k as int) =~= views(prev).take(k as int));
            assert forall|x: int| 0 <= x < views(shards@).len() implies (#[trigger] views(shards@)[x]).len() == size as nat by {
                if x < views(prev).len() {
                    assert(views(shards@)[x] == views(prev)[x]);
                }
            }
        }
        assert(views(shards@)[0] == d[0]);
        rs_encode(k, m, &mut shards);
        shards
    }

    /// Recovers the payload from the surviving shards (`None` for a lost
    /// one). Any `data_shards` survivors of an encoding of `data` give back
    /// `data`.
    pub fn decode(&self, shards: &[Option<Vec<u8>>]) -> (r: Result<Vec<u8>, CodecError>)
        requires
            self.wf(),
        ensures
            match r {
                Ok(v) => classical_decode(self.data_shards as nat, self.parity_shards as nat, opt_views(shards@)) == Ok::<Seq<u8>, CodecError>(v@),
                Err(e) => classical_decode(self.data_shards as nat, self.parity_shards as nat, opt_views(shards@)) == Err::<Seq<u8>, CodecError>(e),
            },
            forall|data: Seq<u8>|
                fits(data.len(), self.data_shards as nat) && shards@.len() == self.data_shards + self.parity_shards
                    && count_present(opt_views(shards@)) >= self.data_shards
                    && agrees_with(opt_views(shards@), #[trigger] classical_shards(data, self.data_shards as nat, self.parity_shards as nat))
                    ==> r is Ok && r->Ok_0@ == data,
    {
        let k = self.data_shards;
        let m = self.parity_shards;
        let ghost kn = k as nat;
        let ghost mn = m as nat;
        if shards.len() != k + m {
            return Err(CodecError::InsufficientShards);
        }
        let mut work = copy_shards(shards);
        let ghost before = opt_views(work@);
        let ok = rs_reconstruct(k, m, &mut work);
        proof {
            assert forall|data: Seq<u8>|
                fits(data.len(), kn) && count_present(before) >= kn
                    && agrees_with(before, #[trigger] classical_shards(data, kn, mn))
                    implies ok && concat(rs_reconstructed(kn, mn, before).take(kn as int)) == padded_frame(data, kn)
                    && unframe(padded_frame(data, kn)) == Ok::<Seq<u8>, CodecError>(data) by {
                lemma_data_shards(data, kn);
                let d = data_shards_of(data, kn);
                let c = rs_codeword(d, mn);
                let full = rs_reconstructed(kn, mn, before);
                assert(all_present_as(opt_views(work@).take(kn as int), d));
                assert(full.take(kn as int) =~= d) by {
                    assert forall|i: int| 0 <= i < kn implies full[i] == d[i] by {
                        assert(opt_views(work@).take(kn as int)[i] == Some(d[i]));
                        assert(opt_views(work@)[i] == Some(full[i]));
                    }
                }
            }
        }
        if !ok {
            return Err(CodecError::InsufficientShards);
        }
        let ghost full = rs_reconstructed(kn, mn, before);
        let mut joined: Vec<u8> = Vec::new();
        let mut i: usize = 0;
        while i < k
            invariant
                i <= k,
                k == self.data_shards,
                kn == k,
                work@.len() == k + m,
                all_present_as(opt_views(work@), full),
                joined@ == concat(full.take(i as int)),
            decreases k - i,
        {
            assert(opt_views(work@)[i as int] == Some(full[i as int]));
            match &work[i] {
                Some(v) => {
                    push_bytes(&mut joined, v.as_slice());
                },
                None => {
                    return Err(CodecError::InsufficientShards);
                },
            }
            assert(full.take(i + 1).drop_last() =~= full.take(i as int));
            i += 1;
        }
        let n_joined = joined.len();
        if n_joined < 8 {
            return Err(CodecError::MalformedFrame);
        }
        let n: u64 = read_u64(joined.as_slice(), 0);
        if n > (n_joined - 8) as u64 {
            return Err(CodecError::MalformedFrame);
        }
        let out = copy_range(&joined, 8, 8 + n as usize);
        Ok(out)
    }

    /// Fills in every lost shard of `shards` from the survivors.
    pub fn reconstruct(&self, shards: &mut Vec<Option<Vec<u8>>>) -> (r: Result<(), CodecError>)
        requires
            self.wf(),
        ensures
            r is Ok <==> old(shards)@.len() == self.data_shards + self.parity_shards && rs_accepts(
                self.data_shards as nat,
                opt_views(old(shards)@),
            ),
            r is Err ==> r == Err::<(), CodecError>(CodecError::InsufficientShards) && final(shards)@ == old(shards)@,
            r is Ok ==> all_present_as(
                opt_views(final(shards)@),
                rs_reconstructed(self.data_shards as nat, self.parity_shards as nat, opt_views(old(shards)@)),
            ),
    {
        if shards.len() != self.data_shards + self.parity_shards {
            return Err(CodecError::InsufficientShards);
        }
        if rs_reconstruct(self.data_shards, self.parity_shards, shards) {
            Ok(())
        } else {
            Err(CodecError::InsufficientShards)
        }
    }
}

} // verus!
