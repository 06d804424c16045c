//! Majority-vote stand-in for a surface code: a logical bit is repeated
//! `distance²` times and read back by majority.

use vstd::prelude::*;
use crate::codec::{CodecError, count_true, mismatches, lemma_count_true_bound};

verus! {

/// The encoding of `bit` at code distance `distance`.
pub open spec fn repeat_bit(bit: bool, distance: nat) -> Seq<bool> {
    Seq::new(distance * distance, |_i: int| bit)
}

/// Majority decision: `Empty` on no input, else whether ones outnumber zeros.
pub open spec fn majority_decode(encoded: Seq<bool>) -> Result<bool, CodecError> {
    if encoded.len() == 0 {
        Err(CodecError::Empty)
    } else {
        Ok(count_true(encoded) > encoded.len() - count_true(encoded))
    }
}

pub struct QuantumErrorCorrection {
    pub code_distance: usize,
}

impl QuantumErrorCorrection {
    pub open spec fn wf(&self) -> bool {
        self.code_distance * self.code_distance <= usize::MAX
    }

    pub fn new(code_distance: usize) -> (r: Self)
        ensures
            r.code_distance == code_distance,
    {
        QuantumErrorCorrection { code_distance }
    }

    /// Repeats `qubit_value` once per physical qubit of the code.
    pub fn encode_qubit(&self, qubit_value: bool) -> (r: Vec<bool>)
        requires
            self.wf(),
        ensures
            r@ == repeat_bit(qubit_value, self.code_distance as nat),
    {
        let n: usize = self.code_distance * self.code_distance;
        let mut encoded: Vec<bool> = Vec::with_capacity(n);
        let mut i: usize = 0;
        while i < n
            invariant
                i <= n,
                n == self.code_distance * self.code_distance,
                encoded@ == Seq::new(i as nat, |_j: int| qubit_value),
            decreases n - i,
        {
            encoded.push(qubit_value);
            i += 1;
            assert(encoded@ =~= Seq::new(i as nat, |_j: int| qubit_value));
        }
        encoded
    }

    /// Reads the logical bit back by majority vote.
    pub fn correct_and_decode(&self, encoded_qubits: &[bool]) -> (r: Result<bool, CodecError>)
        ensures
            r == majority_decode(encoded_qubits@),
    {
        if encoded_qubits.len() == 0 {
            return Err(CodecError::Empty);
        }
        let mut ones: usize = 0;
        let mut i: usize = 0;
        while i < encoded_qubits.len()
            invariant
                i <= encoded_qubits@.len(),
                ones == count_true(encoded_qubits@.take(i as int)),
            decreases encoded_qubits@.len() - i,
        {
            proof {
                lemma_count_true_bound(encoded_qubits@.take(i as int));
                assert(encoded_qubits@.take(i as int + 1).drop_last() =~= encoded_qubits@.take(i as int));
            }
            if encoded_qubits[i] {
                ones += 1;
            }
            i += 1;
        }
        assert(encoded_qubits@.take(i as int) =~= encoded_qubits@);
        proof {
            lemma_count_true_bound(encoded_qubits@);
        }
        let zeros: usize = encoded_qubits.len() - ones;
        Ok(ones > zeros)
    }
}

proof fn lemma_count_against_constant(r: Seq<bool>, bit: bool)
    ensures
        bit ==> count_true(r) + mismatches(r, Seq::new(r.len(), |_i: int| bit)) == r.len(),
        !bit ==> count_true(r) == mismatches(r, Seq::new(r.len(), |_i: int| bit)),
    decreases r.len(),
{
    if r.len() > 0 {
        let c = Seq::new(r.len(), |_i: int| bit);
        let c2 = Seq::new((r.len() - 1) as nat, |_i: int| bit);
        assert(c.drop_last() =~= c2);
        lemma_count_against_constant(r.drop_last(), bit);
    }
}

/// A bit encoded at any distance of at least one is read back unchanged
/// after at most half of its physical copies are flipped (for `true` at an
/// even copy count, strictly fewer than half: an exact tie reads as `false`).
pub proof fn lemma_majority_tolerates_flips(bit: bool, distance: nat, received: Seq<bool>)
    requires
        distance >= 1,
        received.len() == distance * distance,
        mismatches(received, repeat_bit(bit, distance)) <= (distance * distance) / 2,
        !(bit && 2 * mismatches(received, repeat_bit(bit, distance)) == distance * distance),
    ensures
        majority_decode(received) == Ok::<bool, CodecError>(bit),
{
    let n = distance * distance;
    assert(n >= 1) by (nonlinear_arith)
        requires distance >= 1, n == distance * distance;
    lemma_count_against_constant(received, bit);
    assert(repeat_bit(bit, distance) =~= Seq::new(received.len(), |_i: int| bit));
}

/// With no flips at all, decoding an encoded bit returns it.
pub proof fn lemma_encode_decode(bit: bool, distance: nat)
    requires
        distance >= 1,
    ensures
        majority_decode(repeat_bit(bit, distance)) == Ok::<bool, CodecError>(bit),
{
    let s = repeat_bit(bit, distance);
    assert(distance * distance >= 1) by (nonlinear_arith)
        requires distance >= 1;
    lemma_mismatches_self(s);
    lemma_majority_tolerates_flips(bit, distance, s);
}

proof fn lemma_mismatches_self<T>(s: Seq<T>)
    ensures
        mismatches(s, s) == 0,
    decreases s.len(),
{
    if s.len() > 0 {
        lemma_mismatches_self(s.drop_last());
    }
}

} // verus!
