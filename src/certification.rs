//! Certification and export: a verified batch is bound into a certificate,
//! and its telemetry and record are serialised and protected by the full
//! correction pipeline for the ledger.

use vstd::prelude::*;
use crate::encoding::{field_bytes, u64_bytes, push_field, push_u64};
use crate::digest::{blake3_of, blake3_digest};
use crate::telemetry::{FermentationTelemetry, TelemetryManager, find_session, session_bytes, str_bytes, encode_session};
use crate::verification::{
    AccountId, BatchDetails, BatchMetrics, BatchRegistry, VerificationData, VerificationStatus, find_batch,
};
use crate::pipeline::{MatrixMagiqErrorCorrection, protect_spec, DATA_SHARDS};
use crate::classical::fits;

verus! {

/// Why a batch could not be certified or exported.
#[derive(Debug, Clone, Copy, PartialEq, Eq, Structural)]
pub enum CertificationError {
    BatchNotFound,
    NotVerified,
    NoTelemetryData,
    /// The bundle is too large to protect in memory.
    PayloadTooLarge,
}

/// A certificate for a verified batch. `digest` is the BLAKE3 digest of the
/// canonical bytes of everything else in it, the payload that a signer signs.
#[derive(Debug)]
pub struct Certificate {
    pub batch_id: String,
    pub metrics: BatchMetrics,
    pub verifiers: Vec<AccountId>,
    pub issued_at: u64,
    pub digest: Vec<u8>,
}

/// Canonical bytes of a batch's metrics: a tag for the product, then each
/// field.
pub open spec fn metrics_bytes(m: BatchMetrics) -> Seq<u8> {
    match m {
        BatchMetrics::Fermentation(f) => u64_bytes(0) + u64_bytes(f.ph_level as u64) + u64_bytes(f.sugar_content as u64)
            + u64_bytes(f.alcohol_content as u64) + u64_bytes(f.acidity as u64) + u64_bytes(f.probiotic_count as u64)
            + u64_bytes(f.quality_score as u64) + u64_bytes(f.fermentation_time as u64),
        BatchMetrics::Nutritional(n) => u64_bytes(1) + u64_bytes(n.protein_content as u64) + u64_bytes(
            n.chlorophyll_content as u64,
        ) + u64_bytes(n.phycocyanin_content as u64) + u64_bytes(n.beta_carotene_content as u64) + u64_bytes(
            n.iron_content as u64,
        ) + u64_bytes(n.quality_score as u64),
    }
}

/// The oracles of `subs`, in order.
pub open spec fn oracles_of(subs: Seq<VerificationData>) -> Seq<AccountId> {
    subs.map_values(|d: VerificationData| d.oracle)
}

pub open spec fn accounts_bytes(a: Seq<AccountId>) -> Seq<u8>
    decreases a.len(),
{
    if a.len() == 0 {
        Seq::empty()
    } else {
        accounts_bytes(a.drop_last()) + u64_bytes(a.last())
    }
}

/// Canonical bytes of a certificate's payload.
pub open spec fn certificate_payload(id: Seq<u8>, m: BatchMetrics, verifiers: Seq<AccountId>, issued_at: u64) -> Seq<u8> {
    field_bytes(id) + metrics_bytes(m) + u64_bytes(verifiers.len() as u64) + accounts_bytes(verifiers) + u64_bytes(
        issued_at,
    )
}

/// Canonical bytes of a batch record as exported.
pub open spec fn record_bytes(b: BatchDetails) -> Seq<u8> {
    field_bytes(str_bytes(b.id)) + u64_bytes(b.brewer) + u64_bytes(b.quantity) + u64_bytes(b.timestamp)
        + metrics_bytes(b.metrics) + field_bytes(str_bytes(b.facility_id)) + field_bytes(str_bytes(b.recipe_id))
        + u64_bytes(b.verification_data@.len() as u64) + accounts_bytes(oracles_of(b.verification_data@))
}

/// The session of `id`: the open one if any, else the first closed one.
pub open spec fn session_of(t: TelemetryManager, id: Seq<char>) -> Option<FermentationTelemetry> {
    if find_session(t.active(), id) != -1 {
        Some(t.active()[find_session(t.active(), id)])
    } else if find_session(t.historical(), id) != -1 {
        Some(t.historical()[find_session(t.historical(), id)])
    } else {
        None
    }
}

/// What exporting `id` gives: the session's and the record's canonical
/// bytes, protected by the correction pipeline.
pub open spec fn export_spec(t: TelemetryManager, reg: BatchRegistry, ec: MatrixMagiqErrorCorrection, id: Seq<char>) -> Result<
    Seq<u8>,
    CertificationError,
> {
    let i = find_batch(reg.batches(), id);
    if i == -1 {
        Err(CertificationError::BatchNotFound)
    } else if reg.batches()[i].status != VerificationStatus::Verified {
        Err(CertificationError::NotVerified)
    } else {
        match session_of(t, id) {
            None => Err(CertificationError::NoTelemetryData),
            Some(s) => {
                let bundle = session_bytes(s) + record_bytes(reg.batches()[i]);
                if !fits(bundle.len(), DATA_SHARDS as nat) {
                    Err(CertificationError::PayloadTooLarge)
                } else {
                    Ok(protect_spec(bundle, ec.data_shards(), ec.parity_shards(), ec.copies(), ec.distance()))
                }
            },
        }
    }
}

fn push_metrics(out: &mut Vec<u8>, m: &BatchMetrics)
    ensures
        final(out)@ == old(out)@ + metrics_bytes(*m),
{
    match m {
        BatchMetrics::Fermentation(f) => {
            push_u64(out, 0);
            push_u64(out, f.ph_level as u64);
            push_u64(out, f.sugar_content as u64);
            push_u64(out, f.alcohol_content as u64);
            push_u64(out, f.acidity as u64);
            push_u64(out, f.probiotic_count as u64);
            push_u64(out, f.quality_score as u64);
            push_u64(out, f.fermentation_time as u64);
        },
        BatchMetrics::Nutritional(n) => {
            push_u64(out, 1);
            push_u64(out, n.protein_content as u64);
            push_u64(out, n.chlorophyll_content as u64);
            push_u64(out, n.phycocyanin_content as u64);
            push_u64(out, n.beta_carotene_content as u64);
            push_u64(out, n.iron_content as u64);
            push_u64(out, n.quality_score as u64);
        },
    }
    assert(final(out)@ =~= old(out)@ + metrics_bytes(*m));
}

fn push_accounts(out: &mut Vec<u8>, a: &Vec<AccountId>)
    ensures
        final(out)@ == old(out)@ + accounts_bytes(a@),
{
    let ghost head = out@;
    let mut k: usize = 0;
    while k < a.len()
        invariant
            k <= a@.len(),
            out@ == head + accounts_bytes(a@.take(k as int)),
        decreases a@.len() - k,
    {
        push_u64(out, a[k]);
        assert(a@.take(k + 1).drop_last() =~= a@.take(k as int));
        k += 1;
        assert(out@ =~= head + accounts_bytes(a@.take(k as int)));
    }
    assert(a@.take(k as int) =~= a@);
}

fn oracle_list(subs: &Vec<VerificationData>) -> (r: Vec<AccountId>)
    ensures
        r@ == oracles_of(subs@),
{
    let mut out: Vec<AccountId> = Vec::new();
    let mut k: usize = 0;
    while k < subs.len()
        invariant
            k <= subs@.len(),
            out@ == oracles_of(subs@.take(k as int)),
        decreases subs@.len() - k,
    {
        out.push(subs[k].oracle);
        k += 1;
        assert(out@ =~= oracles_of(subs@.take(k as int)));
    }
    assert(subs@.take(k as int) =~= subs@);
    out
}

fn encode_record(b: &BatchDetails) -> (r: Vec<u8>)
    ensures
        r@ == record_bytes(*b),
{
    let mut out: Vec<u8> = Vec::new();
    push_field(&mut out, b.id.as_str().as_bytes());
    push_u64(&mut out, b.brewer);
    push_u64(&mut out, b.quantity);
    push_u64(&mut out, b.timestamp);
    push_metrics(&mut out, &b.metrics);
    push_field(&mut out, b.facility_id.as_str().as_bytes());
    push_field(&mut out, b.recipe_id.as_str().as_bytes());
    push_u64(&mut out, b.verification_data.len() as u64);
    let oracles = oracle_list(&b.verification_data);
    push_accounts(&mut out, &oracles);
    assert(out@ =~= record_bytes(*b));
    out
}

/// Certifies `batch_id`, which must be `Verified`, at time `issued_at`: the
/// certificate binds the batch id, its metrics, the oracles that assessed it,
/// and the issuance time, with the digest of all of these.
pub fn issue_certificate(registry: &BatchRegistry, batch_id: &str, issued_at: u64) -> (r: Result<
    Certificate,
    CertificationError,
>)
    ensures
        ({
            let i = find_batch(registry.batches(), batch_id@);
            let b = registry.batches()[i];
            &&& i == -1 ==> r == Err::<Certificate, CertificationError>(CertificationError::BatchNotFound)
            &&& i != -1 && b.status != VerificationStatus::Verified ==> r == Err::<Certificate, CertificationError>(
                CertificationError::NotVerified,
            )
            &&& i != -1 && b.status == VerificationStatus::Verified ==> (r matches Ok(c) && {
                &&& c.batch_id@ == batch_id@
                &&& c.metrics == b.metrics
                &&& c.verifiers@ == oracles_of(b.verification_data@)
                &&& c.issued_at == issued_at
                &&& c.digest@ == blake3_of(certificate_payload(str_bytes(b.id), b.metrics, c.verifiers@, issued_at))
            })
        }),
{
    let b = match registry.get_batch_details(batch_id) {
        None => return Err(CertificationError::BatchNotFound),
        Some(b) => b,
    };
    if b.status != VerificationStatus::Verified {
        return Err(CertificationError::NotVerified);
    }
    let verifiers = oracle_list(&b.verification_data);
    let mut payload: Vec<u8> = Vec::new();
    push_field(&mut payload, b.id.as_str().as_bytes());
    push_metrics(&mut payload, &b.metrics);
    push_u64(&mut payload, verifiers.len() as u64);
    push_accounts(&mut payload, &verifiers);
    push_u64(&mut payload, issued_at);
    assert(payload@ =~= certificate_payload(str_bytes(b.id), b.metrics, verifiers@, issued_at));
    let digest = blake3_digest(payload.as_slice());
    Ok(Certificate { batch_id: batch_id.to_owned(), metrics: b.metrics, verifiers, issued_at, digest })
}

/// Serialises the telemetry and record of the verified batch `batch_id`
/// and protects them for the ledger. The result depends on the stores and
/// the id alone, so a retried export yields the same bytes.
pub fn export_to_ledger(
    telemetry: &TelemetryManager,
    registry: &BatchRegistry,
    ec: &MatrixMagiqErrorCorrection,
    batch_id: &str,
) -> (r: Result<Vec<u8>, CertificationError>)
    requires
        ec.wf(),
    ensures
        match r {
            Ok(v) => export_spec(*telemetry, *registry, *ec, batch_id@) == Ok::<Seq<u8>, CertificationError>(v@),
            Err(e) => export_spec(*telemetry, *registry, *ec, batch_id@) == Err::<Seq<u8>, CertificationError>(e),
        },
{
    let b = match registry.get_batch_details(batch_id) {
        None => return Err(CertificationError::BatchNotFound),
        Some(b) => b,
    };
    if b.status != VerificationStatus::Verified {
        return Err(CertificationError::NotVerified);
    }
    let s = match telemetry.get_telemetry_data(batch_id) {
        None => return Err(CertificationError::NoTelemetryData),
        Some(s) => s,
    };
    let mut bundle = encode_session(s);
    let mut record = encode_record(b);
    bundle.append(&mut record);
    if bundle.len() > usize::MAX - 8 - DATA_SHARDS {
        return Err(CertificationError::PayloadTooLarge);
    }
    match ec.protect_data(bundle.as_slice()) {
        Ok(v) => Ok(v),
        Err(_) => Err(CertificationError::PayloadTooLarge),
    }
}

/// Exporting is idempotent: two exports of one batch from the same stores
/// give byte-identical results.
pub proof fn lemma_export_idempotent(
    t: TelemetryManager,
    reg: BatchRegistry,
    ec: MatrixMagiqErrorCorrection,
    id: Seq<char>,
    first: Result<Seq<u8>, CertificationError>,
    second: Result<Seq<u8>, CertificationError>,
)
    requires
        first == export_spec(t, reg, ec, id),
        second == export_spec(t, reg, ec, id),
    ensures
        first == second,
{
}

} // verus!
