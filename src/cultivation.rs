//! Cultivation registry: growers register batches with their growing
//! conditions, update the conditions, and certify a batch once its harvest
//! is due. Block numbers are supplied by the ledger.

use vstd::prelude::*;
use crate::bridge::bytes_eq;
use crate::digest::{blake3_of, blake3_digest};
use crate::encoding::{field_bytes, u64_bytes, push_field, push_u64};
use crate::layers::apply_comprehensive_correction;
use crate::verification::AccountId;

verus! {

/// Growing conditions, as fixed-point integers.
#[derive(Debug)]
pub struct CultivationConditions {
    /// Degrees Celsius, scaled by 100.
    pub temperature: u32,
    /// pH, scaled by 100.
    pub ph_level: u32,
    /// Lux.
    pub light_intensity: u32,
    pub nutrient_hash: Vec<u8>,
    pub water_source: Vec<u8>,
}

#[derive(Debug)]
pub struct CultivationBatch {
    pub grower: AccountId,
    pub batch_id: Vec<u8>,
    pub start_block: u64,
    pub expected_harvest: u64,
    /// Digest of the batch's current conditions.
    pub conditions_hash: Vec<u8>,
    pub certified: bool,
    pub quantum_proof: Option<Vec<u8>>,
}

#[derive(Debug, Clone, Copy, PartialEq, Eq, Structural)]
pub enum CultivationError {
    BatchIdExists,
    BatchNotFound,
    InvalidCultivationPeriod,
    NotAuthorized,
    NotReadyForCertification,
    ErrorCorrectionFailed,
    QuantumVerificationFailed,
}

/// The acceptable ranges: 25.00 to 35.00 °C, pH 8.00 to 10.50, and 2000 to
/// 5000 lux.
pub open spec fn conditions_ok(c: CultivationConditions) -> bool {
    &&& 2500 <= c.temperature <= 3500
    &&& 800 <= c.ph_level <= 1050
    &&& 2000 <= c.light_intensity <= 5000
}

/// Canonical bytes of a set of conditions.
pub open spec fn conditions_bytes(c: CultivationConditions) -> Seq<u8> {
    u64_bytes(c.temperature as u64) + u64_bytes(c.ph_level as u64) + u64_bytes(c.light_intensity as u64) + field_bytes(
        c.nutrient_hash@,
    ) + field_bytes(c.water_source@)
}

/// Whether `conditions` lie within the acceptable ranges.
pub fn verify_conditions(conditions: &CultivationConditions) -> (r: bool)
    ensures
        r == conditions_ok(*conditions),
{
    if conditions.temperature < 2500 || conditions.temperature > 3500 {
        return false;
    }
    if conditions.ph_level < 800 || conditions.ph_level > 1050 {
        return false;
    }
    if conditions.light_intensity < 2000 || conditions.light_intensity > 5000 {
        return false;
    }
    true
}

/// The digest of `c`'s canonical bytes.
pub fn conditions_digest(c: &CultivationConditions) -> (r: Vec<u8>)
    ensures
        r@ == blake3_of(conditions_bytes(*c)),
{
    let mut out: Vec<u8> = Vec::new();
    push_u64(&mut out, c.temperature as u64);
    push_u64(&mut out, c.ph_level as u64);
    push_u64(&mut out, c.light_intensity as u64);
    push_field(&mut out, c.nutrient_hash.as_slice());
    push_field(&mut out, c.water_source.as_slice());
    assert(out@ =~= conditions_bytes(*c));
    blake3_digest(out.as_slice())
}

/// Index of the first batch in `s` from `k` on whose id is `id`, or -1.
pub open spec fn find_cultivation_from(s: Seq<CultivationBatch>, id: Seq<u8>, k: int) -> int
    decreases s.len() - k,
{
    if k < 0 || k >= s.len() {
        -1
    } else if s[k].batch_id@ == id {
        k
    } else {
        find_cultivation_from(s, id, k + 1)
    }
}

pub open spec fn find_cultivation(s: Seq<CultivationBatch>, id: Seq<u8>) -> int {
    find_cultivation_from(s, id, 0)
}

proof fn lemma_find_cultivation_from(s: Seq<CultivationBatch>, id: Seq<u8>, k: int)
    requires
        0 <= k,
    ensures
        find_cultivation_from(s, id, k) == -1 ==> forall|j: int| k <= j < s.len() ==> #[trigger] s[j].batch_id@ != id,
        find_cultivation_from(s, id, k) != -1 ==> k <= find_cultivation_from(s, id, k) < s.len()
            && s[find_cultivation_from(s, id, k)].batch_id@ == id,
    decreases s.len() - k,
{
    if k < s.len() {
        lemma_find_cultivation_from(s, id, k + 1);
    }
}

/// `a` and `b` agree on everything but conditions and certification.
pub open spec fn same_cultivation(a: CultivationBatch, b: CultivationBatch) -> bool {
    &&& a.grower == b.grower
    &&& a.batch_id@ == b.batch_id@
    &&& a.start_block == b.start_block
    &&& a.expected_harvest == b.expected_harvest
}

pub open spec fn opt_bytes(o: Option<Vec<u8>>) -> Option<Seq<u8>> {
    match o {
        Some(v) => Some(v@),
        None => None,
    }
}

/// Ids of the batches of `grower`, in registration order.
pub open spec fn grower_batch_ids(s: Seq<CultivationBatch>, grower: AccountId) -> Seq<Seq<u8>>
    decreases s.len(),
{
    if s.len() == 0 {
        Seq::empty()
    } else if s.last().grower == grower {
        grower_batch_ids(s.drop_last(), grower).push(s.last().batch_id@)
    } else {
        grower_batch_ids(s.drop_last(), grower)
    }
}

fn find_index(batches: &Vec<CultivationBatch>, id: &Vec<u8>) -> (r: Option<usize>)
    ensures
        match r {
            Some(i) => i as int == find_cultivation(batches@, id@),
            None => find_cultivation(batches@, id@) == -1,
        },
{
    let mut k: usize = 0;
    while k < batches.len()
        invariant
            k <= batches@.len(),
            find_cultivation(batches@, id@) == find_cultivation_from(batches@, id@, k as int),
        decreases batches@.len() - k,
    {
        if bytes_eq(&batches[k].batch_id, id) {
            return Some(k);
        }
        k += 1;
    }
    None
}

/// Registered cultivation batches, each id at most once, and every set of
/// conditions ever recorded, in order.
pub struct CultivationRegistry {
    batches: Vec<CultivationBatch>,
    conditions_log: Vec<CultivationConditions>,
    min_cultivation_period: u64,
}

impl CultivationRegistry {
    pub closed spec fn batches(&self) -> Seq<CultivationBatch> {
        self.batches@
    }

    pub closed spec fn conditions_log(&self) -> Seq<CultivationConditions> {
        self.conditions_log@
    }

    pub closed spec fn min_period(&self) -> u64 {
        self.min_cultivation_period
    }

    /// A registry whose batches must grow for at least
    /// `min_cultivation_period` blocks.
    pub fn new(min_cultivation_period: u64) -> (r: Self)
        ensures
            r.batches().len() == 0,
            r.conditions_log().len() == 0,
            r.min_period() == min_cultivation_period,
    {
        CultivationRegistry { batches: Vec::new(), conditions_log: Vec::new(), min_cultivation_period }
    }

    /// Registers `batch_id` for `grower` at block `current_block`. The
    /// harvest must lie at least the minimum period ahead, and the id must
    /// be new and non-empty.
    pub fn register_batch(
        &mut self,
        grower: AccountId,
        batch_id: Vec<u8>,
        expected_harvest: u64,
        conditions: CultivationConditions,
        current_block: u64,
    ) -> (r: Result<(), CultivationError>)
        ensures
            final(self).min_period() == old(self).min_period(),
            find_cultivation(old(self).batches(), batch_id@) != -1 ==> r == Err::<(), CultivationError>(
                CultivationError::BatchIdExists,
            ),
            find_cultivation(old(self).batches(), batch_id@) == -1 && !(expected_harvest > current_block
                && expected_harvest >= current_block + old(self).min_period()) ==> r == Err::<(), CultivationError>(
                CultivationError::InvalidCultivationPeriod,
            ),
            find_cultivation(old(self).batches(), batch_id@) == -1 && expected_harvest > current_block && expected_harvest
                >= current_block + old(self).min_period() && batch_id@.len() == 0 ==> r == Err::<(), CultivationError>(
                CultivationError::ErrorCorrectionFailed,
            ),
            r is Err ==> *final(self) == *old(self),
            r is Ok ==> {
                let b = final(self).batches().last();
                &&& final(self).batches().drop_last() == old(self).batches()
                &&& final(self).conditions_log() == old(self).conditions_log().push(conditions)
                &&& b.grower == grower
                &&& b.batch_id@ == batch_id@
                &&& b.start_block == current_block
                &&& b.expected_harvest == expected_harvest
                &&& b.conditions_hash@ == blake3_of(conditions_bytes(conditions))
                &&& !b.certified
                &&& b.quantum_proof is None
            },
            r is Ok <==> find_cultivation(old(self).batches(), batch_id@) == -1 && expected_harvest > current_block
                && expected_harvest >= current_block + old(self).min_period() && batch_id@.len() > 0,
    {
        proof {
            lemma_find_cultivation_from(self.batches@, batch_id@, 0);
        }
        if find_index(&self.batches, &batch_id).is_some() {
            return Err(CultivationError::BatchIdExists);
        }
        if !(expected_harvest > current_block && expected_harvest - current_block >= self.min_cultivation_period) {
            return Err(CultivationError::InvalidCultivationPeriod);
        }
        if apply_comprehensive_correction(batch_id.as_slice()).is_err() {
            return Err(CultivationError::ErrorCorrectionFailed);
        }
        let conditions_hash = conditions_digest(&conditions);
        let batch = CultivationBatch {
            grower,
            batch_id,
            start_block: current_block,
            expected_harvest,
            conditions_hash,
            certified: false,
            quantum_proof: None,
        };
        self.batches.push(batch);
        self.conditions_log.push(conditions);
        assert(self.batches@.drop_last() =~= old(self).batches@);
        Ok(())
    }

    /// Replaces the conditions of `grower`'s batch `batch_id`.
    pub fn update_conditions(&mut self, grower: AccountId, batch_id: &Vec<u8>, conditions: CultivationConditions) -> (r:
        Result<(), CultivationError>)
        ensures
            final(self).min_period() == old(self).min_period(),
            ({
                let i = find_cultivation(old(self).batches(), batch_id@);
                let b = old(self).batches()[i];
                &&& i == -1 ==> r == Err::<(), CultivationError>(CultivationError::BatchNotFound)
                &&& i != -1 && b.grower != grower ==> r == Err::<(), CultivationError>(CultivationError::NotAuthorized)
                &&& i != -1 && b.grower == grower && batch_id@.len() == 0 ==> r == Err::<(), CultivationError>(
                    CultivationError::ErrorCorrectionFailed,
                )
                &&& i != -1 && b.grower == grower && batch_id@.len() > 0 ==> {
                    let nb = final(self).batches()[i];
                    &&& r is Ok
                    &&& final(self).batches().len() == old(self).batches().len()
                    &&& forall|j: int| 0 <= j < old(self).batches().len() && j != i ==> #[trigger] final(self).batches()[j] == old(self).batches()[j]
                    &&& same_cultivation(nb, b)
                    &&& nb.conditions_hash@ == blake3_of(conditions_bytes(conditions))
                    &&& nb.certified == b.certified
                    &&& opt_bytes(nb.quantum_proof) == opt_bytes(b.quantum_proof)
                    &&& final(self).conditions_log() == old(self).conditions_log().push(conditions)
                }
            }),
            r is Err ==> *final(self) == *old(self),
    {
        proof {
            lemma_find_cultivation_from(self.batches@, batch_id@, 0);
        }
        let i = match find_index(&self.batches, batch_id) {
            None => return Err(CultivationError::BatchNotFound),
            Some(i) => i,
        };
        if self.batches[i].grower != grower {
            return Err(CultivationError::NotAuthorized);
        }
        if apply_comprehensive_correction(batch_id.as_slice()).is_err() {
            return Err(CultivationError::ErrorCorrectionFailed);
        }
        let conditions_hash = conditions_digest(&conditions);
        let mut b = self.batches.remove(i);
        b.conditions_hash = conditions_hash;
        self.batches.insert(i, b);
        self.conditions_log.push(conditions);
        assert(self.batches@ =~= old(self).batches@.update(i as int, b));
        Ok(())
    }

    /// Certifies `grower`'s batch `batch_id` at block `current_block`, once
    /// its harvest is due, with a non-empty `quantum_proof`.
    pub fn certify_batch(&mut self, grower: AccountId, batch_id: &Vec<u8>, quantum_proof: Vec<u8>, current_block: u64) -> (r:
        Result<(), CultivationError>)
        ensures
            final(self).min_period() == old(self).min_period(),
            final(self).conditions_log() == old(self).conditions_log(),
            ({
                let i = find_cultivation(old(self).batches(), batch_id@);
                let b = old(self).batches()[i];
                &&& i == -1 ==> r == Err::<(), CultivationError>(CultivationError::BatchNotFound)
                &&& i != -1 && b.grower != grower ==> r == Err::<(), CultivationError>(CultivationError::NotAuthorized)
                &&& i != -1 && b.grower == grower && current_block < b.expected_harvest ==> r == Err::<(), CultivationError>(
                    CultivationError::NotReadyForCertification,
                )
                &&& i != -1 && b.grower == grower && current_block >= b.expected_harvest && batch_id@.len() == 0
                    ==> r == Err::<(), CultivationError>(CultivationError::ErrorCorrectionFailed)
                &&& i != -1 && b.grower == grower && current_block >= b.expected_harvest && batch_id@.len() > 0
                    && quantum_proof@.len() == 0 ==> r == Err::<(), CultivationError>(CultivationError::QuantumVerificationFailed)
                &&& i != -1 && b.grower == grower && current_block >= b.expected_harvest && batch_id@.len() > 0
                    && quantum_proof@.len() > 0 ==> {
                    let nb = final(self).batches()[i];
                    &&& r is Ok
                    &&& final(self).batches().len() == old(self).batches().len()
                    &&& forall|j: int| 0 <= j < old(self).batches().len() && j != i ==> #[trigger] final(self).batches()[j] == old(self).batches()[j]
                    &&& same_cultivation(nb, b)
                    &&& nb.conditions_hash@ == b.conditions_hash@
                    &&& nb.certified
                    &&& opt_bytes(nb.quantum_proof) == Some(quantum_proof@)
                }
            }),
            r is Err ==> *final(self) == *old(self),
    {
        proof {
            lemma_find_cultivation_from(self.batches@, batch_id@, 0);
        }
        let i = match find_index(&self.batches, batch_id) {
            None => return Err(CultivationError::BatchNotFound),
            Some(i) => i,
        };
        if self.batches[i].grower != grower {
            return Err(CultivationError::NotAuthorized);
        }
        if current_block < self.batches[i].expected_harvest {
            return Err(CultivationError::NotReadyForCertification);
        }
        if apply_comprehensive_correction(batch_id.as_slice()).is_err() {
            return Err(CultivationError::ErrorCorrectionFailed);
        }
        if quantum_proof.len() == 0 {
            return Err(CultivationError::QuantumVerificationFailed);
        }
        let mut b = self.batches.remove(i);
        b.certified = true;
        b.quantum_proof = Some(quantum_proof);
        self.batches.insert(i, b);
        assert(self.batches@ =~= old(self).batches@.update(i as int, b));
        Ok(())
    }

    /// The batch `batch_id`, if registered.
    pub fn cultivation_batch(&self, batch_id: &Vec<u8>) -> (r: Option<&CultivationBatch>)
        ensures
            ({
                let i = find_cultivation(self.batches(), batch_id@);
                &&& i != -1 ==> r == Some(&self.batches()[i])
                &&& i == -1 ==> r is None
            }),
    {
        proof {
            lemma_find_cultivation_from(self.batches@, batch_id@, 0);
        }
        match find_index(&self.batches, batch_id) {
            Some(i) => Some(&self.batches[i]),
            None => None,
        }
    }

    /// Number of registered batches.
    pub fn batch_count(&self) -> (r: usize)
        ensures
            r == self.batches().len(),
    {
        self.batches.len()
    }

    /// Ids of the batches of `grower`, in registration order.
    pub fn grower_batches(&self, grower: AccountId) -> (r: Vec<Vec<u8>>)
        ensures
            r@.map_values(|v: Vec<u8>| v@) == grower_batch_ids(self.batches(), grower),
    {
        let mut out: Vec<Vec<u8>> = Vec::new();
        let mut k: usize = 0;
        while k < self.batches.len()
            invariant
                k <= self.batches@.len(),
                out@.map_values(|v: Vec<u8>| v@) == grower_batch_ids(self.batches@.take(k as int), grower),
            decreases self.batches@.len() - k,
        {
            assert(self.batches@.take(k + 1).drop_last() =~= self.batches@.take(k as int));
            if self.batches[k].grower == grower {
                let id = vstd::slice::slice_to_vec(self.batches[k].batch_id.as_slice());
                out.push(id);
                assert(out@.map_values(|v: Vec<u8>| v@) =~= grower_batch_ids(self.batches@.take(k as int), grower).push(id@));
            }
            k += 1;
        }
        assert(self.batches@.take(k as int) =~= self.batches@);
        out
    }
}

} // verus!
