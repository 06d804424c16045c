//! Surface-code stand-in over many logical qubits: each logical bit is a
//! block of `distance²` physical bits; a syndrome flags the blocks whose
//! bits disagree, and correction resets a flagged block to its majority.

use vstd::prelude::*;
use crate::codec::{count_true, lemma_count_true_bound};
use crate::quantum::repeat_bit;

verus! {

/// The block of `s` disagrees with itself somewhere.
pub open spec fn block_disturbed(s: Seq<bool>) -> bool {
    exists|j: int| 0 <= j < s.len() && #[trigger] s[j] != s[0]
}

/// The value held by more than half of `s`.
pub open spec fn block_majority(s: Seq<bool>) -> bool {
    count_true(s) > s.len() - count_true(s)
}

pub struct SurfaceCodeQEC {
    pub code_distance: usize,
    pub logical_qubits: usize,
}

fn majority_of(block: &Vec<bool>) -> (r: bool)
    ensures
        r == block_majority(block@),
{
    let mut ones: usize = 0;
    let mut i: usize = 0;
    while i < block.len()
        invariant
            i <= block@.len(),
            ones == count_true(block@.take(i as int)),
        decreases block@.len() - i,
    {
        proof {
            lemma_count_true_bound(block@.take(i as int));
            assert(block@.take(i + 1).drop_last() =~= block@.take(i as int));
        }
        if block[i] {
            ones += 1;
        }
        i += 1;
    }
    assert(block@.take(i as int) =~= block@);
    proof {
        lemma_count_true_bound(block@);
    }
    ones > block.len() - ones
}

fn disturbed(block: &Vec<bool>) -> (r: bool)
    ensures
        r == block_disturbed(block@),
{
    if block.len() == 0 {
        return false;
    }
    let first = block[0];
    let mut i: usize = 0;
    while i < block.len()
        invariant
            i <= block@.len(),
            block@.len() > 0,
            first == block@[0],
            forall|j: int| 0 <= j < i ==> block@[j] == first,
        decreases block@.len() - i,
    {
        if block[i] != first {
            return true;
        }
        i += 1;
    }
    false
}

fn filled(bit: bool, n: usize) -> (r: Vec<bool>)
    ensures
        r@ == Seq::new(n as nat, |_i: int| bit),
{
    let mut out: Vec<bool> = Vec::new();
    let mut i: usize = 0;
    while i < n
        invariant
            i <= n,
            out@ == Seq::new(i as nat, |_i: int| bit),
        decreases n - i,
    {
        out.push(bit);
        i += 1;
        assert(out@ =~= Seq::new(i as nat, |_i: int| bit));
    }
    out
}

impl SurfaceCodeQEC {
    pub open spec fn wf(&self) -> bool {
        self.code_distance * self.code_distance <= usize::MAX
    }

    pub fn new(code_distance: usize, logical_qubits: usize) -> (r: Self)
        ensures
            r.code_distance == code_distance,
            r.logical_qubits == logical_qubits,
    {
        SurfaceCodeQEC { code_distance, logical_qubits }
    }

    /// One block of `distance²` copies per logical bit.
    pub fn encode(&self, logical_state: &[bool]) -> (r: Vec<Vec<bool>>)
        requires
            self.wf(),
        ensures
            r@.len() == logical_state@.len(),
            forall|i: int| 0 <= i < r@.len() ==> (#[trigger] r@[i])@ == repeat_bit(logical_state@[i], self.code_distance as nat),
    {
        let n: usize = self.code_distance * self.code_distance;
        let mut out: Vec<Vec<bool>> = Vec::new();
        let mut i: usize = 0;
        while i < logical_state.len()
            invariant
                i <= logical_state@.len(),
                n == self.code_distance * self.code_distance,
                out@.len() == i,
                forall|x: int| 0 <= x < i ==> (#[trigger] out@[x])@ == repeat_bit(logical_state@[x], self.code_distance as nat),
            decreases logical_state@.len() - i,
        {
            let block = filled(logical_state[i], n);
            assert(block@ =~= repeat_bit(logical_state@[i as int], self.code_distance as nat));
            out.push(block);
            i += 1;
        }
        out
    }

    /// For each block, whether its bits disagree.
    pub fn syndrome_measurement(&self, encoded_state: &[Vec<bool>]) -> (r: Vec<bool>)
        ensures
            r@.len() == encoded_state@.len(),
            forall|i: int| 0 <= i < r@.len() ==> #[trigger] r@[i] == block_disturbed(encoded_state@[i]@),
    {
        let mut out: Vec<bool> = Vec::new();
        let mut i: usize = 0;
        while i < encoded_state.len()
            invariant
                i <= encoded_state@.len(),
                out@.len() == i,
                forall|x: int| 0 <= x < i ==> #[trigger] out@[x] == block_disturbed(encoded_state@[x]@),
            decreases encoded_state@.len() - i,
        {
            out.push(disturbed(&encoded_state[i]));
            i += 1;
        }
        out
    }

    /// Resets every block that `syndrome` flags to its majority value;
    /// blocks it does not flag, or does not reach, are left alone.
    pub fn correct_errors(&self, encoded_state: &mut Vec<Vec<bool>>, syndrome: &[bool])
        ensures
            final(encoded_state)@.len() == old(encoded_state)@.len(),
            forall|i: int|
                0 <= i < old(encoded_state)@.len() ==> (#[trigger] final(encoded_state)@[i])@ == if i < syndrome@.len()
                    && syndrome@[i] {
                    Seq::new(old(encoded_state)@[i]@.len(), |_j: int| block_majority(old(encoded_state)@[i]@))
                } else {
                    old(encoded_state)@[i]@
                },
    {
        let mut i: usize = 0;
        while i < encoded_state.len()
            invariant
                i <= encoded_state@.len(),
                encoded_state@.len() == old(encoded_state)@.len(),
                forall|x: int| i <= x < encoded_state@.len() ==> #[trigger] encoded_state@[x] == old(encoded_state)@[x],
                forall|x: int|
                    0 <= x < i ==> (#[trigger] encoded_state@[x])@ == if x < syndrome@.len() && syndrome@[x] {
                        Seq::new(old(encoded_state)@[x]@.len(), |_j: int| block_majority(old(encoded_state)@[x]@))
                    } else {
                        old(encoded_state)@[x]@
                    },
            decreases encoded_state@.len() - i,
        {
            if i < syndrome.len() && syndrome[i] {
                let bit = majority_of(&encoded_state[i]);
                let n = encoded_state[i].len();
                let block = filled(bit, n);
                let _ = encoded_state.remove(i);
                encoded_state.insert(i, block);
            }
            i += 1;
        }
    }
}

} // verus!
