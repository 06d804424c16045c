//! The three correction layers composed: a payload is erasure-coded, its
//! shards are sent as redundant copies, and every bit of those copies is
//! spread over `distance²` physical qubits, one byte (0 or 1) each.
//! Recovery undoes the layers in reverse order; a failure in any layer is
//! reported as that layer's error.

use vstd::prelude::*;
use crate::codec::CodecError;
use crate::quantum::{QuantumErrorCorrection, repeat_bit};
use crate::bridge::{BridgeErrorCorrection, bridge_decode};
use crate::classical::{
    ReedSolomonCorrector, views, opt_views, concat, chunks, classical_shards, classical_decode, fits,
};
use crate::encoding::push_bytes;
use crate::classical::copy_range;

verus! {

/// Which layer failed, and how.
#[derive(Debug, Clone, Copy, PartialEq, Eq, Structural)]
pub enum MatrixMagiqError {
    ClassicalError(CodecError),
    BridgeError(CodecError),
    QuantumError(CodecError),
}

/// The `n` low-order bits of `b`, least significant first.
pub open spec fn byte_bits(b: nat, n: nat) -> Seq<bool>
    decreases n,
{
    if n == 0 {
        Seq::empty()
    } else {
        seq![b % 2 == 1] + byte_bits(b / 2, (n - 1) as nat)
    }
}

/// The bits of `s`, byte by byte, each least significant bit first.
pub open spec fn bytes_bits(s: Seq<u8>) -> Seq<bool>
    decreases s.len(),
{
    if s.len() == 0 {
        Seq::empty()
    } else {
        bytes_bits(s.drop_last()) + byte_bits(s.last() as nat, 8)
    }
}

/// The number that `bits` spell, least significant first.
pub open spec fn bits_value(bits: Seq<bool>) -> nat
    decreases bits.len(),
{
    if bits.len() == 0 {
        0
    } else {
        (if bits[0] { 1nat } else { 0nat }) + 2 * bits_value(bits.drop_first())
    }
}

/// Each bit of `bits` as `d²` physical qubits.
pub open spec fn qubits_of(bits: Seq<bool>, d: nat) -> Seq<u8>
    decreases bits.len(),
{
    if bits.len() == 0 {
        Seq::empty()
    } else {
        qubits_of(bits.drop_last(), d) + Seq::new(d * d, |_i: int| if bits.last() { 1u8 } else { 0u8 })
    }
}

/// Number of nonzero bytes in `c`.
pub open spec fn count_nonzero(c: Seq<u8>) -> nat
    decreases c.len(),
{
    if c.len() == 0 {
        0
    } else {
        count_nonzero(c.drop_last()) + if c.last() != 0 { 1nat } else { 0nat }
    }
}

/// Majority reading of a block of physical qubits.
pub open spec fn physical_majority(c: Seq<u8>) -> bool {
    2 * count_nonzero(c) > c.len()
}

/// Logical bits read back from physical qubits, `d²` per bit.
pub open spec fn quantum_read(p: Seq<u8>, d: nat) -> Result<Seq<bool>, CodecError> {
    if d * d == 0 || p.len() % (d * d) != 0 {
        Err(CodecError::MalformedFrame)
    } else {
        Ok(Seq::new(p.len() / (d * d), |i: int| physical_majority(p.subrange(i * (d * d), (i + 1) * (d * d)))))
    }
}

/// Bytes from bits, eight per byte, least significant first.
pub open spec fn bits_bytes(b: Seq<bool>) -> Result<Seq<u8>, CodecError> {
    if b.len() % 8 != 0 {
        Err(CodecError::MalformedFrame)
    } else {
        Ok(Seq::new(b.len() / 8, |i: int| bits_value(b.subrange(8 * i, 8 * i + 8)) as u8))
    }
}

/// Every shard of `s`, present.
pub open spec fn all_some(s: Seq<Seq<u8>>) -> Seq<Option<Seq<u8>>> {
    s.map_values(|x: Seq<u8>| Some(x))
}

/// The protected form of `data`.
pub open spec fn protect_spec(data: Seq<u8>, k: nat, m: nat, r: nat, d: nat) -> Seq<u8> {
    let block = concat(classical_shards(data, k, m));
    qubits_of(bytes_bits(concat(Seq::new(r, |_i: int| block))), d)
}

/// Reading the block of shards back into a payload.
pub open spec fn recover_block(block: Seq<u8>, k: nat, m: nat) -> Result<Seq<u8>, MatrixMagiqError> {
    if block.len() == 0 || block.len() % (k + m) != 0 {
        Err(MatrixMagiqError::ClassicalError(CodecError::InsufficientShards))
    } else {
        match classical_decode(k, m, all_some(chunks(block, k + m, block.len() / (k + m)))) {
            Ok(x) => Ok(x),
            Err(e) => Err(MatrixMagiqError::ClassicalError(e)),
        }
    }
}

/// Reading the stream of copies back into a block of shards.
pub open spec fn recover_stream(stream: Seq<u8>, k: nat, m: nat, r: nat) -> Result<Seq<u8>, MatrixMagiqError> {
    if r == 0 || stream.len() % r != 0 {
        Err(MatrixMagiqError::BridgeError(CodecError::MalformedFrame))
    } else {
        match bridge_decode(chunks(stream, r, stream.len() / r)) {
            Ok(block) => recover_block(block, k, m),
            Err(e) => Err(MatrixMagiqError::BridgeError(e)),
        }
    }
}

/// What recovering `p` gives.
pub open spec fn recover_spec(p: Seq<u8>, k: nat, m: nat, r: nat, d: nat) -> Result<Seq<u8>, MatrixMagiqError> {
    match quantum_read(p, d) {
        Err(e) => Err(MatrixMagiqError::QuantumError(e)),
        Ok(bits) => match bits_bytes(bits) {
            Err(e) => Err(MatrixMagiqError::QuantumError(e)),
            Ok(stream) => recover_stream(stream, k, m, r),
        },
    }
}

/// `2^n`.
pub open spec fn pow2n(n: nat) -> nat
    decreases n,
{
    if n == 0 {
        1
    } else {
        2 * pow2n((n - 1) as nat)
    }
}

proof fn lemma_bits_value_bound(b: Seq<bool>)
    ensures
        bits_value(b) < pow2n(b.len()),
    decreases b.len(),
{
    if b.len() > 0 {
        lemma_bits_value_bound(b.drop_first());
    }
}

fn push_byte_bits(out: &mut Vec<bool>, b: u8)
    ensures
        final(out)@ == old(out)@ + byte_bits(b as nat, 8),
{
    let ghost start = out@;
    let mut v: u8 = b;
    let mut j: usize = 0;
    while j < 8
        invariant
            j <= 8,
            out@ + byte_bits(v as nat, (8 - j) as nat) == start + byte_bits(b as nat, 8),
        decreases 8 - j,
    {
        let bit = v % 2 == 1;
        proof {
            let rest = byte_bits((v / 2) as nat, (8 - j - 1) as nat);
            assert(byte_bits(v as nat, (8 - j) as nat) == seq![bit] + rest);
            assert(out@.push(bit) + rest =~= out@ + (seq![bit] + rest));
        }
        out.push(bit);
        v = v / 2;
        j += 1;
    }
    assert(out@ + byte_bits(v as nat, 0) =~= out@);
}

fn to_bits(s: &[u8]) -> (r: Vec<bool>)
    ensures
        r@ == bytes_bits(s@),
{
    let mut out: Vec<bool> = Vec::new();
    let mut i: usize = 0;
    while i < s.len()
        invariant
            i <= s@.len(),
            out@ == bytes_bits(s@.take(i as int)),
        decreases s@.len() - i,
    {
        push_byte_bits(&mut out, s[i]);
        assert(s@.take(i + 1).drop_last() =~= s@.take(i as int));
        i += 1;
    }
    assert(s@.take(i as int) =~= s@);
    out
}

pub(crate) fn join(shards: &Vec<Vec<u8>>) -> (r: Vec<u8>)
    ensures
        r@ == concat(views(shards@)),
{
    let mut out: Vec<u8> = Vec::new();
    let mut i: usize = 0;
    while i < shards.len()
        invariant
            i <= shards@.len(),
            out@ == concat(views(shards@).take(i as int)),
        decreases shards@.len() - i,
    {
        push_bytes(&mut out, shards[i].as_slice());
        assert(views(shards@).take(i + 1).drop_last() =~= views(shards@).take(i as int));
        i += 1;
    }
    assert(views(shards@).take(i as int) =~= views(shards@));
    out
}

fn spread(bits: &[bool], q: &QuantumErrorCorrection) -> (r: Vec<u8>)
    requires
        q.wf(),
    ensures
        r@ == qubits_of(bits@, q.code_distance as nat),
{
    let ghost d = q.code_distance as nat;
    let mut out: Vec<u8> = Vec::new();
    let mut i: usize = 0;
    while i < bits.len()
        invariant
            i <= bits@.len(),
            q.wf(),
            d == q.code_distance,
            out@ == qubits_of(bits@.take(i as int), d),
        decreases bits@.len() - i,
    {
        let encoded = q.encode_qubit(bits[i]);
        let ghost head = out@;
        let mut j: usize = 0;
        while j < encoded.len()
            invariant
                j <= encoded@.len(),
                encoded@ == repeat_bit(bits@[i as int], d),
                out@ == head + Seq::new(j as nat, |_x: int| if bits@[i as int] { 1u8 } else { 0u8 }),
            decreases encoded@.len() - j,
        {
            out.push(if encoded[j] { 1u8 } else { 0u8 });
            j += 1;
            assert(out@ =~= head + Seq::new(j as nat, |_x: int| if bits@[i as int] { 1u8 } else { 0u8 }));
        }
        assert(bits@.take(i + 1).drop_last() =~= bits@.take(i as int));
        i += 1;
        assert(out@ =~= qubits_of(bits@.take(i as int), d));
    }
    assert(bits@.take(i as int) =~= bits@);
    out
}

fn read_qubits(p: &[u8], d: usize) -> (r: Result<Vec<bool>, CodecError>)
    requires
        d * d <= usize::MAX,
    ensures
        match r {
            Ok(v) => quantum_read(p@, d as nat) == Ok::<Seq<bool>, CodecError>(v@),
            Err(e) => quantum_read(p@, d as nat) == Err::<Seq<bool>, CodecError>(e),
        },
{
    let n: usize = d * d;
    if n == 0 || p.len() % n != 0 {
        return Err(CodecError::MalformedFrame);
    }
    let plen: usize = p.len();
    let count: usize = p.len() / n;
    let ghost target = Seq::new(count as nat, |i: int| physical_majority(p@.subrange(i * n, (i + 1) * n)));
    let mut out: Vec<bool> = Vec::new();
    let mut i: usize = 0;
    while i < count
        invariant
            i <= count,
            n > 0,
            plen == p@.len(),
            count == p@.len() / (n as nat),
            p@.len() % (n as nat) == 0,
            out@ == target.take(i as int),
            target == Seq::new(count as nat, |i: int| physical_majority(p@.subrange(i * n, (i + 1) * n))),
        decreases count - i,
    {
        assert((i + 1) * n <= count * n) by (nonlinear_arith)
            requires i + 1 <= count;
        assert(count * n == p@.len()) by (nonlinear_arith)
            requires count == p@.len() / (n as nat), p@.len() % (n as nat) == 0, n > 0;
        assert(i * n + n == (i + 1) * n) by (nonlinear_arith);
        let start: usize = i * n;
        let ghost chunk = p@.subrange(start as int, start + n);
        let mut ones: usize = 0;
        let mut j: usize = 0;
        while j < n
            invariant
                j <= n,
                start + n <= p@.len(),
                plen == p@.len(),
                chunk == p@.subrange(start as int, start + n),
                ones == count_nonzero(chunk.take(j as int)),
                ones <= j,
            decreases n - j,
        {
            assert(chunk.take(j + 1).drop_last() =~= chunk.take(j as int));
            if p[start + j] != 0 {
                ones += 1;
            }
            j += 1;
        }
        assert(chunk.take(n as int) =~= chunk);
        out.push(ones > n - ones);
        i += 1;
        assert(out@ =~= target.take(i as int));
    }
    assert(target.take(count as int) =~= target);
    Ok(out)
}

fn to_bytes(bits: &[bool]) -> (r: Result<Vec<u8>, CodecError>)
    ensures
        match r {
            Ok(v) => bits_bytes(bits@) == Ok::<Seq<u8>, CodecError>(v@),
            Err(e) => bits_bytes(bits@) == Err::<Seq<u8>, CodecError>(e),
        },
{
    if bits.len() % 8 != 0 {
        return Err(CodecError::MalformedFrame);
    }
    let blen: usize = bits.len();
    let count: usize = bits.len() / 8;
    let ghost target = Seq::new(count as nat, |i: int| bits_value(bits@.subrange(8 * i, 8 * i + 8)) as u8);
    let mut out: Vec<u8> = Vec::new();
    let mut i: usize = 0;
    while i < count
        invariant
            i <= count,
            count == bits@.len() / 8,
            blen == bits@.len(),
            bits@.len() % 8 == 0,
            out@ == target.take(i as int),
            target == Seq::new(count as nat, |i: int| bits_value(bits@.subrange(8 * i, 8 * i + 8)) as u8),
        decreases count - i,
    {
        assert(8 * i + 8 <= bits@.len());
        let base: usize = 8 * i;
        let ghost group = bits@.subrange(base as int, base + 8);
        let mut v: u64 = 0;
        let mut j: usize = 8;
        while j > 0
            invariant
                j <= 8,
                base + 8 <= bits@.len(),
                blen == bits@.len(),
                group == bits@.subrange(base as int, base + 8),
                v as nat == bits_value(group.subrange(j as int, 8)),
                v < 256,
            decreases j,
        {
            let ghost g = group.subrange(j - 1, 8);
            proof {
                assert(g.drop_first() =~= group.subrange(j as int, 8));
                lemma_bits_value_bound(g);
                assert(pow2n(8) == 256) by {
                    assert(pow2n(0) == 1);
                    assert(pow2n(1) == 2);
                    assert(pow2n(2) == 4);
                    assert(pow2n(3) == 8);
                    assert(pow2n(4) == 16);
                    assert(pow2n(5) == 32);
                    assert(pow2n(6) == 64);
                    assert(pow2n(7) == 128);
                }
                lemma_pow2n_mono(g.len(), 8);
            }
            let bit: u64 = if bits[base + j - 1] { 1 } else { 0 };
            v = bit + 2 * v;
            j -= 1;
        }
        assert(group.subrange(0, 8) =~= group);
        out.push(v as u8);
        i += 1;
        assert(out@ =~= target.take(i as int));
    }
    assert(target.take(count as int) =~= target);
    Ok(out)
}

proof fn lemma_pow2n_mono(a: nat, b: nat)
    requires
        a <= b,
    ensures
        pow2n(a) <= pow2n(b),
    decreases b,
{
    if a < b {
        lemma_pow2n_mono(a, (b - 1) as nat);
    }
}

pub(crate) fn split(b: &Vec<u8>, parts: usize) -> (r: Vec<Vec<u8>>)
    requires
        parts > 0,
        b@.len() % (parts as nat) == 0,
    ensures
        views(r@) == chunks(b@, parts as nat, b@.len() / (parts as nat)),
{
    let blen: usize = b.len();
    let size: usize = b.len() / parts;
    let ghost target = chunks(b@, parts as nat, size as nat);
    let mut out: Vec<Vec<u8>> = Vec::new();
    let mut i: usize = 0;
    while i < parts
        invariant
            i <= parts,
            size == b@.len() / (parts as nat),
            b@.len() % (parts as nat) == 0,
            blen == b@.len(),
            parts > 0,
            target == chunks(b@, parts as nat, size as nat),
            out@.len() == i,
            forall|x: int| 0 <= x < i ==> (#[trigger] out@[x])@ == target[x],
        decreases parts - i,
    {
        assert((i + 1) * size <= parts * size) by (nonlinear_arith)
            requires i + 1 <= parts;
        assert(parts * size == b@.len()) by (nonlinear_arith)
            requires size == b@.len() / (parts as nat), b@.len() % (parts as nat) == 0, parts > 0;
        assert(i * size + size == (i + 1) * size) by (nonlinear_arith);
        let piece = copy_range(b, i * size, (i + 1) * size);
        out.push(piece);
        i += 1;
    }
    assert(views(out@) =~= target);
    out
}

pub(crate) fn present_all(s: &Vec<Vec<u8>>) -> (r: Vec<Option<Vec<u8>>>)
    ensures
        opt_views(r@) == all_some(views(s@)),
{
    let mut out: Vec<Option<Vec<u8>>> = Vec::new();
    let mut i: usize = 0;
    while i < s.len()
        invariant
            i <= s@.len(),
            out@.len() == i,
            forall|x: int| 0 <= x < i ==> crate::classical::opt_view(#[trigger] out@[x]) == Some(s@[x]@),
        decreases s@.len() - i,
    {
        out.push(Some(vstd::slice::slice_to_vec(s[i].as_slice())));
        i += 1;
    }
    assert(opt_views(out@) =~= all_some(views(s@)));
    out
}

/// The three correction layers with the parameters of this ledger: ten data
/// and four parity shards, three copies, and code distance seven.
pub struct MatrixMagiqErrorCorrection {
    classical_ec: ReedSolomonCorrector,
    bridge_ec: BridgeErrorCorrection,
    quantum_ec: QuantumErrorCorrection,
}

pub const DATA_SHARDS: usize = 10;
pub const PARITY_SHARDS: usize = 4;
pub const COPIES: usize = 3;
pub const VERIFICATION_ROUNDS: usize = 2;
pub const CODE_DISTANCE: usize = 7;

impl MatrixMagiqErrorCorrection {
    pub closed spec fn data_shards(&self) -> nat {
        self.classical_ec.data_shards as nat
    }

    pub closed spec fn parity_shards(&self) -> nat {
        self.classical_ec.parity_shards as nat
    }

    pub closed spec fn copies(&self) -> nat {
        self.bridge_ec.redundancy_factor as nat
    }

    pub closed spec fn distance(&self) -> nat {
        self.quantum_ec.code_distance as nat
    }

    pub closed spec fn wf(&self) -> bool {
        &&& self.classical_ec.wf()
        &&& self.quantum_ec.wf()
        &&& self.classical_ec.data_shards == DATA_SHARDS
        &&& self.classical_ec.parity_shards == PARITY_SHARDS
        &&& self.bridge_ec.redundancy_factor == COPIES
        &&& self.quantum_ec.code_distance == CODE_DISTANCE
    }

    pub fn new() -> (r: Self)
        ensures
            r.wf(),
            r.data_shards() == DATA_SHARDS,
            r.parity_shards() == PARITY_SHARDS,
            r.copies() == COPIES,
            r.distance() == CODE_DISTANCE,
    {
        MatrixMagiqErrorCorrection {
            classical_ec: ReedSolomonCorrector::new(DATA_SHARDS, PARITY_SHARDS),
            bridge_ec: BridgeErrorCorrection::new(COPIES, VERIFICATION_ROUNDS),
            quantum_ec: QuantumErrorCorrection::new(CODE_DISTANCE),
        }
    }

    /// Erasure-codes `data`, copies the joined shards, and spreads every bit
    /// of the copies over physical qubits.
    pub fn protect_data(&self, data: &[u8]) -> (r: Result<Vec<u8>, MatrixMagiqError>)
        requires
            self.wf(),
            fits(data@.len(), DATA_SHARDS as nat),
        ensures
            r is Ok,
            r matches Ok(v) && v@ == protect_spec(data@, self.data_shards(), self.parity_shards(), self.copies(), self.distance()),
    {
        let shards = self.classical_ec.encode(data);
        let block = join(&shards);
        let copies = self.bridge_ec.prepare_for_quantum(block.as_slice());
        let stream = join(&copies);
        let bits = to_bits(stream.as_slice());
        let out = spread(bits.as_slice(), &self.quantum_ec);
        Ok(out)
    }

    /// Undoes `protect_data`: majority over each qubit block, majority over
    /// the copies, then erasure decoding. Each layer reports its own failure.
    pub fn recover_data(&self, protected_data: &[u8]) -> (r: Result<Vec<u8>, MatrixMagiqError>)
        requires
            self.wf(),
        ensures
            match r {
                Ok(v) => recover_spec(protected_data@, self.data_shards(), self.parity_shards(), self.copies(), self.distance())
                    == Ok::<Seq<u8>, MatrixMagiqError>(v@),
                Err(e) => recover_spec(protected_data@, self.data_shards(), self.parity_shards(), self.copies(), self.distance())
                    == Err::<Seq<u8>, MatrixMagiqError>(e),
            },
    {
        let bits = match read_qubits(protected_data, self.quantum_ec.code_distance) {
            Ok(b) => b,
            Err(e) => return Err(MatrixMagiqError::QuantumError(e)),
        };
        let stream = match to_bytes(bits.as_slice()) {
            Ok(s) => s,
            Err(e) => return Err(MatrixMagiqError::QuantumError(e)),
        };
        let r = self.bridge_ec.redundancy_factor;
        if r == 0 || stream.len() % r != 0 {
            return Err(MatrixMagiqError::BridgeError(CodecError::MalformedFrame));
        }
        let copies = split(&stream, r);
        let block = match self.bridge_ec.verify_from_quantum(copies) {
            Ok(b) => b,
            Err(e) => return Err(MatrixMagiqError::BridgeError(e)),
        };
        let total = self.classical_ec.data_shards + self.classical_ec.parity_shards;
        if block.len() == 0 || block.len() % total != 0 {
            return Err(MatrixMagiqError::ClassicalError(CodecError::InsufficientShards));
        }
        let pieces = split(&block, total);
        let shards = present_all(&pieces);
        match self.classical_ec.decode(shards.as_slice()) {
            Ok(x) => Ok(x),
            Err(e) => Err(MatrixMagiqError::ClassicalError(e)),
        }
    }
}

pub fn create_matrix_magiq_ec() -> (r: MatrixMagiqErrorCorrection)
    ensures
        r.wf(),
        r.data_shards() == DATA_SHARDS,
        r.parity_shards() == PARITY_SHARDS,
        r.copies() == COPIES,
        r.distance() == CODE_DISTANCE,
{
    MatrixMagiqErrorCorrection::new()
}

} // verus!
