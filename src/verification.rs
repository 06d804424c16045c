//! Batch records and their verification by independent oracles: the status
//! state machine, and the aggregation of oracle scores into a decision.

use vstd::prelude::*;

verus! {

/// An account on the ledger.
pub type AccountId = u64;

/// Verification status of a batch.
#[derive(Debug, Clone, Copy, PartialEq, Eq, Structural)]
pub enum VerificationStatus {
    Pending,
    InProgress,
    Verified,
    Failed,
    Disputed,
}

/// Fermentation metrics of a batch, as fixed-point integers.
#[derive(Debug, Clone, Copy, PartialEq, Eq, Structural)]
pub struct FermentationMetrics {
    /// pH, scaled by 10 (3.5 is 35).
    pub ph_level: u8,
    /// Sugar content, percent.
    pub sugar_content: u8,
    /// Alcohol content, percent scaled by 10.
    pub alcohol_content: u8,
    /// Acidity, percent scaled by 10.
    pub acidity: u8,
    /// Probiotic count, log scale.
    pub probiotic_count: u8,
    /// Overall quality, 0 to 100.
    pub quality_score: u8,
    /// Fermentation time in hours.
    pub fermentation_time: u32,
}

/// Nutritional metrics of a spirulina batch.
#[derive(Debug, Clone, Copy, PartialEq, Eq, Structural)]
pub struct NutritionalMetrics {
    /// Protein content, percent.
    pub protein_content: u8,
    /// Chlorophyll, mg/g.
    pub chlorophyll_content: u8,
    /// Phycocyanin, mg/g.
    pub phycocyanin_content: u8,
    /// Beta-carotene, mg/g.
    pub beta_carotene_content: u8,
    /// Iron, mg/g.
    pub iron_content: u8,
    /// Overall quality, 0 to 100.
    pub quality_score: u8,
}

/// The metrics of a batch, by product.
#[derive(Debug, Clone, Copy, PartialEq, Eq, Structural)]
pub enum BatchMetrics {
    Fermentation(FermentationMetrics),
    Nutritional(NutritionalMetrics),
}

/// One oracle's assessment of a batch.
#[derive(Debug)]
pub struct VerificationData {
    pub oracle: AccountId,
    pub timestamp: u64,
    /// Score from 0 to 100.
    pub score: u8,
    pub comments: Vec<u8>,
    pub signature: Vec<u8>,
}

/// The ledger record of a production batch.
#[derive(Debug)]
pub struct BatchDetails {
    pub id: String,
    pub brewer: AccountId,
    pub quantity: u64,
    pub timestamp: u64,
    pub status: VerificationStatus,
    pub metrics: BatchMetrics,
    pub facility_id: String,
    pub reward_value: u128,
    /// Accepted submissions, in the order in which they arrived.
    pub verification_data: Vec<VerificationData>,
    pub recipe_id: String,
    /// Whether a dispute over this batch has been settled; a settled batch
    /// cannot be disputed again.
    pub dispute_resolved: bool,
    /// Evidence submitted with the dispute, if any.
    pub dispute_evidence: Vec<u8>,
}

/// What the scores of a set of submissions decide.
#[derive(Debug, Clone, Copy, PartialEq, Eq, Structural)]
pub enum AggregationOutcome {
    Verified,
    Failed,
    InsufficientVerifiers,
}

/// Why a verification operation was refused.
#[derive(Debug, Clone, Copy, PartialEq, Eq, Structural)]
pub enum VerificationError {
    BatchNotFound,
    BatchAlreadyExists,
    UnauthorizedOracle,
    /// The submission's signature did not validate; it was not recorded.
    RejectedSubmission,
    /// This oracle has already assessed the batch.
    DuplicateSubmission,
    /// The batch's status does not admit the operation.
    InvalidTransition,
}

/// Sum of the scores of `s`.
pub open spec fn score_sum(s: Seq<VerificationData>) -> nat
    decreases s.len(),
{
    if s.len() == 0 {
        0
    } else {
        score_sum(s.drop_last()) + s.last().score as nat
    }
}

/// Number of scores in `s` at or above `threshold`.
pub open spec fn count_passing(s: Seq<VerificationData>, threshold: u8) -> nat
    decreases s.len(),
{
    if s.len() == 0 {
        0
    } else {
        count_passing(s.drop_last(), threshold) + if s.last().score >= threshold { 1nat } else { 0nat }
    }
}

/// The decision rule: too few submissions decide nothing; otherwise the batch
/// passes when the mean score reaches `pass_threshold`, unless the scores are
/// split evenly around the threshold, where the stricter outcome wins.
pub open spec fn aggregate_outcome(subs: Seq<VerificationData>, min_verifiers: u32, pass_threshold: u8) -> AggregationOutcome {
    if subs.len() < min_verifiers {
        AggregationOutcome::InsufficientVerifiers
    } else if score_sum(subs) >= pass_threshold * subs.len() && 2 * count_passing(subs, pass_threshold)
        != subs.len() {
        AggregationOutcome::Verified
    } else {
        AggregationOutcome::Failed
    }
}

proof fn lemma_score_sum_bound(s: Seq<VerificationData>)
    ensures
        score_sum(s) <= 255 * s.len(),
        count_passing(s, 0) <= s.len(),
    decreases s.len(),
{
    if s.len() > 0 {
        lemma_score_sum_bound(s.drop_last());
    }
}

proof fn lemma_count_passing_bound(s: Seq<VerificationData>, t: u8)
    ensures
        count_passing(s, t) <= s.len(),
    decreases s.len(),
{
    if s.len() > 0 {
        lemma_count_passing_bound(s.drop_last(), t);
    }
}

/// Decides a batch from the scores of its accepted submissions.
pub fn aggregate(submissions: &[VerificationData], min_verifiers: u32, pass_threshold: u8) -> (r: AggregationOutcome)
    ensures
        r == aggregate_outcome(submissions@, min_verifiers, pass_threshold),
{
    let n: usize = submissions.len();
    if (n as u64) < (min_verifiers as u64) {
        return AggregationOutcome::InsufficientVerifiers;
    }
    let mut sum: u128 = 0;
    let mut passing: u128 = 0;
    let mut k: usize = 0;
    while k < n
        invariant
            k <= n,
            n == submissions@.len(),
            sum == score_sum(submissions@.take(k as int)),
            passing == count_passing(submissions@.take(k as int), pass_threshold),
        decreases n - k,
    {
        proof {
            let t = submissions@.take(k as int);
            lemma_score_sum_bound(t);
            lemma_count_passing_bound(t, pass_threshold);
            assert(submissions@.take(k + 1).drop_last() =~= t);
        }
        let score: u8 = submissions[k].score;
        sum = sum + score as u128;
        if score >= pass_threshold {
            passing = passing + 1;
        }
        k += 1;
    }
    assert(submissions@.take(n as int) =~= submissions@);
    proof {
        lemma_count_passing_bound(submissions@, pass_threshold);
        assert(n as u128 <= u64::MAX as u128);
        assert((pass_threshold as u128) * (n as u128) <= 255 * (u64::MAX as u128)) by (nonlinear_arith)
            requires pass_threshold <= 255, n as u128 <= u64::MAX as u128;
    }
    if sum >= (pass_threshold as u128) * (n as u128) && 2 * passing != n as u128 {
        AggregationOutcome::Verified
    } else {
        AggregationOutcome::Failed
    }
}

/// Index of the first batch in `s` from `k` on whose id is `id`, or -1.
pub open spec fn find_batch_from(s: Seq<BatchDetails>, id: Seq<char>, k: int) -> int
    decreases s.len() - k,
{
    if k < 0 || k >= s.len() {
        -1
    } else if s[k].id@ == id {
        k
    } else {
        find_batch_from(s, id, k + 1)
    }
}

/// Index of the batch in `s` whose id is `id`, or -1.
pub open spec fn find_batch(s: Seq<BatchDetails>, id: Seq<char>) -> int {
    find_batch_from(s, id, 0)
}

proof fn lemma_find_batch_from(s: Seq<BatchDetails>, id: Seq<char>, k: int)
    requires
        0 <= k,
    ensures
        find_batch_from(s, id, k) == -1 ==> forall|j: int| k <= j < s.len() ==> #[trigger] s[j].id@ != id,
        find_batch_from(s, id, k) != -1 ==> k <= find_batch_from(s, id, k) < s.len() && s[find_batch_from(s, id, k)].id@ == id,
    decreases s.len() - k,
{
    if k < s.len() {
        lemma_find_batch_from(s, id, k + 1);
    }
}

/// Whether some submission in `s` comes from `oracle`.
pub open spec fn has_submission_from(s: Seq<VerificationData>, oracle: AccountId) -> bool {
    exists|i: int| 0 <= i < s.len() && #[trigger] s[i].oracle == oracle
}

/// Status after a submission that leaves `subs` recorded.
pub open spec fn status_after(subs: Seq<VerificationData>, min_verifiers: u32, pass_threshold: u8) -> VerificationStatus {
    match aggregate_outcome(subs, min_verifiers, pass_threshold) {
        AggregationOutcome::Verified => VerificationStatus::Verified,
        AggregationOutcome::Failed => VerificationStatus::Failed,
        AggregationOutcome::InsufficientVerifiers => VerificationStatus::InProgress,
    }
}

/// Whether a batch in `status` takes part in reward distribution.
pub open spec fn earns_rewards(status: VerificationStatus) -> bool {
    status == VerificationStatus::Verified
}

/// `a` and `b` agree on everything but status, submissions and the dispute flag.
pub open spec fn same_record(a: BatchDetails, b: BatchDetails) -> bool {
    &&& a.id == b.id
    &&& a.brewer == b.brewer
    &&& a.quantity == b.quantity
    &&& a.timestamp == b.timestamp
    &&& a.metrics == b.metrics
    &&& a.facility_id == b.facility_id
    &&& a.reward_value == b.reward_value
    &&& a.recipe_id == b.recipe_id
}

/// `new_s` equals `old_s` everywhere except perhaps at `i`.
pub open spec fn batches_updated_at(old_s: Seq<BatchDetails>, new_s: Seq<BatchDetails>, i: int) -> bool {
    &&& new_s.len() == old_s.len()
    &&& forall|j: int| 0 <= j < old_s.len() && j != i ==> #[trigger] new_s[j] == old_s[j]
}

/// Ids of the batches of `producer`, in registration order.
pub open spec fn producer_batch_ids(s: Seq<BatchDetails>, producer: AccountId) -> Seq<Seq<char>>
    decreases s.len(),
{
    if s.len() == 0 {
        Seq::empty()
    } else if s.last().brewer == producer {
        producer_batch_ids(s.drop_last(), producer).push(s.last().id@)
    } else {
        producer_batch_ids(s.drop_last(), producer)
    }
}

fn find_batch_index(batches: &Vec<BatchDetails>, id: &String) -> (r: Option<usize>)
    ensures
        match r {
            Some(i) => i as int == find_batch(batches@, id@),
            None => find_batch(batches@, id@) == -1,
        },
{
    let mut k: usize = 0;
    while k < batches.len()
        invariant
            k <= batches@.len(),
            find_batch(batches@, id@) == find_batch_from(batches@, id@, k as int),
        decreases batches@.len() - k,
    {
        if batches[k].id == *id {
            return Some(k);
        }
        k += 1;
    }
    None
}

fn contains_oracle(oracles: &Vec<AccountId>, oracle: AccountId) -> (r: bool)
    ensures
        r == oracles@.contains(oracle),
{
    let mut k: usize = 0;
    while k < oracles.len()
        invariant
            k <= oracles@.len(),
            forall|j: int| 0 <= j < k ==> oracles@[j] != oracle,
        decreases oracles@.len() - k,
    {
        if oracles[k] == oracle {
            assert(oracles@[k as int] == oracle);
            return true;
        }
        k += 1;
    }
    false
}

fn submitted_by(subs: &Vec<VerificationData>, oracle: AccountId) -> (r: bool)
    ensures
        r == has_submission_from(subs@, oracle),
{
    let mut k: usize = 0;
    while k < subs.len()
        invariant
            k <= subs@.len(),
            forall|j: int| 0 <= j < k ==> #[trigger] subs@[j].oracle != oracle,
        decreases subs@.len() - k,
    {
        if subs[k].oracle == oracle {
            return true;
        }
        k += 1;
    }
    false
}

/// The batch registry: each batch id at most once, the authorised oracles,
/// and the quorum and pass threshold that decide a batch.
pub struct BatchRegistry {
    batches: Vec<BatchDetails>,
    oracles: Vec<AccountId>,
    /// Accepted submissions needed before a batch is decided.
    min_verifiers: u32,
    /// Mean score, 0 to 100, that a batch must reach to pass.
    pass_threshold: u8,
}

impl BatchRegistry {
    pub closed spec fn batches(&self) -> Seq<BatchDetails> {
        self.batches@
    }

    pub closed spec fn oracles(&self) -> Seq<AccountId> {
        self.oracles@
    }

    pub closed spec fn quorum(&self) -> u32 {
        self.min_verifiers
    }

    pub closed spec fn threshold(&self) -> u8 {
        self.pass_threshold
    }

    pub open spec fn wf(&self) -> bool {
        forall|i: int, j: int|
            0 <= i < j < self.batches().len() ==> #[trigger] self.batches()[i].id@ != #[trigger] self.batches()[j].id@
    }

    pub fn new(min_verifiers: u32, pass_threshold: u8) -> (r: Self)
        ensures
            r.wf(),
            r.batches().len() == 0,
            r.oracles().len() == 0,
            r.quorum() == min_verifiers,
            r.threshold() == pass_threshold,
    {
        BatchRegistry { batches: Vec::new(), oracles: Vec::new(), min_verifiers, pass_threshold }
    }

    /// Authorises `oracle` to submit assessments.
    pub fn register_oracle(&mut self, oracle: AccountId)
        requires
            old(self).wf(),
        ensures
            final(self).wf(),
            final(self).batches() == old(self).batches(),
            final(self).oracles() == if old(self).oracles().contains(oracle) {
                old(self).oracles()
            } else {
                old(self).oracles().push(oracle)
            },
            final(self).quorum() == old(self).quorum(),
            final(self).threshold() == old(self).threshold(),
    {
        if !contains_oracle(&self.oracles, oracle) {
            self.oracles.push(oracle);
        }
    }

    /// Records a new batch, `Pending` and without submissions.
    pub fn register_batch(
        &mut self,
        id: String,
        brewer: AccountId,
        quantity: u64,
        timestamp: u64,
        metrics: BatchMetrics,
        facility_id: String,
        recipe_id: String,
        reward_value: u128,
    ) -> (r: Result<(), VerificationError>)
        requires
            old(self).wf(),
        ensures
            final(self).wf(),
            final(self).oracles() == old(self).oracles(),
            final(self).quorum() == old(self).quorum(),
            final(self).threshold() == old(self).threshold(),
            r is Err <==> find_batch(old(self).batches(), id@) != -1,
            r is Err ==> r == Err::<(), VerificationError>(VerificationError::BatchAlreadyExists) && *final(self) == *old(self),
            r is Ok ==> {
                let b = final(self).batches().last();
                &&& final(self).batches().drop_last() == old(self).batches()
                &&& b.id == id
                &&& b.brewer == brewer
                &&& b.quantity == quantity
                &&& b.timestamp == timestamp
                &&& b.metrics == metrics
                &&& b.facility_id == facility_id
                &&& b.recipe_id == recipe_id
                &&& b.reward_value == reward_value
                &&& b.status == VerificationStatus::Pending
                &&& b.verification_data@.len() == 0
                &&& !b.dispute_resolved
                &&& b.dispute_evidence@.len() == 0
            },
    {
        proof {
            lemma_find_batch_from(self.batches@, id@, 0);
        }
        if find_batch_index(&self.batches, &id).is_some() {
            return Err(VerificationError::BatchAlreadyExists);
        }
        let b = BatchDetails {
            id,
            brewer,
            quantity,
            timestamp,
            status: VerificationStatus::Pending,
            metrics,
            facility_id,
            reward_value,
            verification_data: Vec::new(),
            recipe_id,
            dispute_resolved: false,
            dispute_evidence: Vec::new(),
        };
        self.batches.push(b);
        assert(self.batches@.drop_last() =~= old(self).batches@);
        Ok(())
    }

    /// Records an oracle's assessment of `batch_id`. The caller passes in
    /// `signature_valid` the outcome of checking the submission's signature
    /// against the oracle's registered key. The first accepted submission
    /// moves a `Pending` batch to `InProgress`; once the quorum is reached the
    /// scores decide between `Verified` and `Failed`. Returns the new status.
    pub fn submit_verification(&mut self, batch_id: &str, data: VerificationData, signature_valid: bool) -> (r:
        Result<VerificationStatus, VerificationError>)
        requires
            old(self).wf(),
        ensures
            final(self).wf(),
            final(self).oracles() == old(self).oracles(),
            final(self).quorum() == old(self).quorum(),
            final(self).threshold() == old(self).threshold(),
            ({
                let i = find_batch(old(self).batches(), batch_id@);
                let b = old(self).batches()[i];
                let open = b.status == VerificationStatus::Pending || b.status == VerificationStatus::InProgress;
                &&& i == -1 ==> r == Err::<VerificationStatus, VerificationError>(VerificationError::BatchNotFound)
                &&& i != -1 && !old(self).oracles().contains(data.oracle)
                    ==> r == Err::<VerificationStatus, VerificationError>(VerificationError::UnauthorizedOracle)
                &&& i != -1 && old(self).oracles().contains(data.oracle) && !signature_valid
                    ==> r == Err::<VerificationStatus, VerificationError>(VerificationError::RejectedSubmission)
                &&& i != -1 && old(self).oracles().contains(data.oracle) && signature_valid && !open
                    ==> r == Err::<VerificationStatus, VerificationError>(VerificationError::InvalidTransition)
                &&& i != -1 && old(self).oracles().contains(data.oracle) && signature_valid && open
                    && has_submission_from(b.verification_data@, data.oracle)
                    ==> r == Err::<VerificationStatus, VerificationError>(VerificationError::DuplicateSubmission)
                &&& i != -1 && old(self).oracles().contains(data.oracle) && signature_valid && open
                    && !has_submission_from(b.verification_data@, data.oracle) ==> {
                    let subs = b.verification_data@.push(data);
                    let nb = final(self).batches()[i];
                    &&& r == Ok::<VerificationStatus, VerificationError>(status_after(subs, old(self).quorum(), old(self).threshold()))
                    &&& batches_updated_at(old(self).batches(), final(self).batches(), i)
                    &&& same_record(nb, b)
                    &&& nb.verification_data@ == subs
                    &&& nb.status == status_after(subs, old(self).quorum(), old(self).threshold())
                    &&& nb.dispute_resolved == b.dispute_resolved
                }
            }),
            r is Err ==> *final(self) == *old(self),
    {
        let key = batch_id.to_owned();
        proof {
            lemma_find_batch_from(self.batches@, batch_id@, 0);
        }
        let i = match find_batch_index(&self.batches, &key) {
            None => return Err(VerificationError::BatchNotFound),
            Some(i) => i,
        };
        if !contains_oracle(&self.oracles, data.oracle) {
            return Err(VerificationError::UnauthorizedOracle);
        }
        if !signature_valid {
            return Err(VerificationError::RejectedSubmission);
        }
        let status = self.batches[i].status;
        if !(status == VerificationStatus::Pending || status == VerificationStatus::InProgress) {
            return Err(VerificationError::InvalidTransition);
        }
        if submitted_by(&self.batches[i].verification_data, data.oracle) {
            return Err(VerificationError::DuplicateSubmission);
        }
        let mut b = self.batches.remove(i);
        b.verification_data.push(data);
        let outcome = aggregate(b.verification_data.as_slice(), self.min_verifiers, self.pass_threshold);
        let new_status = match outcome {
            AggregationOutcome::Verified => VerificationStatus::Verified,
            AggregationOutcome::Failed => VerificationStatus::Failed,
            AggregationOutcome::InsufficientVerifiers => VerificationStatus::InProgress,
        };
        b.status = new_status;
        self.batches.insert(i, b);
        assert(self.batches@ =~= old(self).batches@.update(i as int, b));
        Ok(new_status)
    }

    /// Raises a challenge against `batch_id`, with `evidence`. Allowed while
    /// the batch is `InProgress`, `Verified` or `Failed` and no earlier
    /// dispute over it has been settled; a disputed batch earns no rewards
    /// until it is resolved.
    pub fn dispute(&mut self, batch_id: &str, evidence: Vec<u8>) -> (r: Result<(), VerificationError>)
        requires
            old(self).wf(),
        ensures
            final(self).wf(),
            final(self).oracles() == old(self).oracles(),
            final(self).quorum() == old(self).quorum(),
            final(self).threshold() == old(self).threshold(),
            ({
                let i = find_batch(old(self).batches(), batch_id@);
                let b = old(self).batches()[i];
                let allowed = !b.dispute_resolved && (b.status == VerificationStatus::InProgress || b.status
                    == VerificationStatus::Verified || b.status == VerificationStatus::Failed);
                &&& i == -1 ==> r == Err::<(), VerificationError>(VerificationError::BatchNotFound)
                &&& i != -1 && !allowed ==> r == Err::<(), VerificationError>(VerificationError::InvalidTransition)
                &&& i != -1 && allowed ==> {
                    let nb = final(self).batches()[i];
                    &&& r is Ok
                    &&& batches_updated_at(old(self).batches(), final(self).batches(), i)
                    &&& same_record(nb, b)
                    &&& nb.verification_data@ == b.verification_data@
                    &&& nb.status == VerificationStatus::Disputed
                    &&& !earns_rewards(nb.status)
                    &&& nb.dispute_resolved == b.dispute_resolved
                    &&& nb.dispute_evidence@ == evidence@
                }
            }),
            r is Err ==> *final(self) == *old(self),
    {
        let key = batch_id.to_owned();
        proof {
            lemma_find_batch_from(self.batches@, batch_id@, 0);
        }
        let i = match find_batch_index(&self.batches, &key) {
            None => return Err(VerificationError::BatchNotFound),
            Some(i) => i,
        };
        let status = self.batches[i].status;
        if self.batches[i].dispute_resolved || !(status == VerificationStatus::InProgress || status
            == VerificationStatus::Verified || status == VerificationStatus::Failed) {
            return Err(VerificationError::InvalidTransition);
        }
        let mut b = self.batches.remove(i);
        b.status = VerificationStatus::Disputed;
        b.dispute_evidence = evidence;
        self.batches.insert(i, b);
        assert(self.batches@ =~= old(self).batches@.update(i as int, b));
        Ok(())
    }

    /// Settles the dispute over `batch_id` by arbitration: `Verified` when
    /// `verified` holds, else `Failed`. A settled batch cannot be disputed
    /// again. Returns the new status.
    pub fn resolve_dispute(&mut self, batch_id: &str, verified: bool) -> (r: Result<VerificationStatus, VerificationError>)
        requires
            old(self).wf(),
        ensures
            final(self).wf(),
            final(self).oracles() == old(self).oracles(),
            final(self).quorum() == old(self).quorum(),
            final(self).threshold() == old(self).threshold(),
            ({
                let i = find_batch(old(self).batches(), batch_id@);
                let b = old(self).batches()[i];
                let status = if verified { VerificationStatus::Verified } else { VerificationStatus::Failed };
                &&& i == -1 ==> r == Err::<VerificationStatus, VerificationError>(VerificationError::BatchNotFound)
                &&& i != -1 && b.status != VerificationStatus::Disputed
                    ==> r == Err::<VerificationStatus, VerificationError>(VerificationError::InvalidTransition)
                &&& i != -1 && b.status == VerificationStatus::Disputed ==> {
                    let nb = final(self).batches()[i];
                    &&& r == Ok::<VerificationStatus, VerificationError>(status)
                    &&& batches_updated_at(old(self).batches(), final(self).batches(), i)
                    &&& same_record(nb, b)
                    &&& nb.verification_data@ == b.verification_data@
                    &&& nb.status == status
                    &&& nb.dispute_resolved
                }
            }),
            r is Err ==> *final(self) == *old(self),
    {
        let key = batch_id.to_owned();
        proof {
            lemma_find_batch_from(self.batches@, batch_id@, 0);
        }
        let i = match find_batch_index(&self.batches, &key) {
            None => return Err(VerificationError::BatchNotFound),
            Some(i) => i,
        };
        if self.batches[i].status != VerificationStatus::Disputed {
            return Err(VerificationError::InvalidTransition);
        }
        let status = if verified { VerificationStatus::Verified } else { VerificationStatus::Failed };
        let mut b = self.batches.remove(i);
        b.status = status;
        b.dispute_resolved = true;
        self.batches.insert(i, b);
        assert(self.batches@ =~= old(self).batches@.update(i as int, b));
        Ok(status)
    }

    /// The record of `batch_id`, if registered.
    pub fn get_batch_details(&self, batch_id: &str) -> (r: Option<&BatchDetails>)
        ensures
            ({
                let i = find_batch(self.batches(), batch_id@);
                &&& i != -1 ==> r == Some(&self.batches()[i])
                &&& i == -1 ==> r is None
            }),
    {
        let key = batch_id.to_owned();
        proof {
            lemma_find_batch_from(self.batches@, batch_id@, 0);
        }
        match find_batch_index(&self.batches, &key) {
            Some(i) => Some(&self.batches[i]),
            None => None,
        }
    }

    /// The status of `batch_id`, if registered.
    pub fn batch_verification_status(&self, batch_id: &str) -> (r: Option<VerificationStatus>)
        ensures
            ({
                let i = find_batch(self.batches(), batch_id@);
                &&& i != -1 ==> r == Some(self.batches()[i].status)
                &&& i == -1 ==> r is None
            }),
    {
        match self.get_batch_details(batch_id) {
            Some(b) => Some(b.status),
            None => None,
        }
    }

    /// Whether `batch_id` currently takes part in reward distribution: only
    /// a `Verified` batch does.
    pub fn reward_eligible(&self, batch_id: &str) -> (r: bool)
        ensures
            ({
                let i = find_batch(self.batches(), batch_id@);
                r == (i != -1 && earns_rewards(self.batches()[i].status))
            }),
    {
        match self.get_batch_details(batch_id) {
            Some(b) => b.status == VerificationStatus::Verified,
            None => false,
        }
    }

    /// Ids of the batches registered by `producer`, in registration order.
    pub fn get_producer_batches(&self, producer: AccountId) -> (r: Vec<String>)
        ensures
            r@.map_values(|s: String| s@) == producer_batch_ids(self.batches(), producer),
    {
        let mut out: Vec<String> = Vec::new();
        let mut k: usize = 0;
        while k < self.batches.len()
            invariant
                k <= self.batches@.len(),
                out@.map_values(|s: String| s@) == producer_batch_ids(self.batches@.take(k as int), producer),
            decreases self.batches@.len() - k,
        {
            assert(self.batches@.take(k + 1).drop_last() =~= self.batches@.take(k as int));
            if self.batches[k].brewer == producer {
                let id = self.batches[k].id.clone();
                out.push(id);
                assert(out@.map_values(|s: String| s@) =~= producer_batch_ids(self.batches@.take(k as int), producer).push(id@));
            }
            k += 1;
        }
        assert(self.batches@.take(k as int) =~= self.batches@);
        out
    }
}

} // verus!
