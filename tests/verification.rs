use matrix_magiq::certification::{export_to_ledger, issue_certificate, CertificationError};
use matrix_magiq::pipeline::create_matrix_magiq_ec;
use matrix_magiq::telemetry::{
    DeviceStatus, FermentationStage, SensorDevice, SensorType, TelemetryManager, TelemetryReading,
};
use matrix_magiq::verification::{
    aggregate, AggregationOutcome, BatchMetrics, BatchRegistry, FermentationMetrics,
    NutritionalMetrics, VerificationData, VerificationError, VerificationStatus,
};

fn vd(oracle: u64, score: u8) -> VerificationData {
    VerificationData { oracle, timestamp: 100, score, comments: vec![], signature: vec![1] }
}

fn metrics() -> BatchMetrics {
    BatchMetrics::Fermentation(FermentationMetrics {
        ph_level: 35,
        sugar_content: 4,
        alcohol_content: 5,
        acidity: 12,
        probiotic_count: 8,
        quality_score: 90,
        fermentation_time: 240,
    })
}

fn registry_with_batch(min: u32, threshold: u8) -> BatchRegistry {
    let mut r = BatchRegistry::new(min, threshold);
    for o in 1..=4 {
        r.register_oracle(o);
    }
    r.register_batch("B1".to_string(), 42, 500, 7, metrics(), "F1".to_string(), "R1".to_string(), 1_000)
        .unwrap();
    r
}

#[test]
fn aggregate_mean_decides() {
    let pass = vec![vd(1, 80), vd(2, 75), vd(3, 60)];
    assert_eq!(aggregate(&pass, 3, 70), AggregationOutcome::Verified);
    let fail = vec![vd(1, 80), vd(2, 50), vd(3, 50)];
    assert_eq!(aggregate(&fail, 3, 70), AggregationOutcome::Failed);
}

#[test]
fn aggregate_needs_quorum() {
    let two = vec![vd(1, 100), vd(2, 100)];
    assert_eq!(aggregate(&two, 3, 70), AggregationOutcome::InsufficientVerifiers);
}

#[test]
fn aggregate_even_split_fails() {
    let split = vec![vd(1, 90), vd(2, 60)];
    assert_eq!(aggregate(&split, 2, 70), AggregationOutcome::Failed);
    let exact = vec![vd(1, 70), vd(2, 70), vd(3, 70)];
    assert_eq!(aggregate(&exact, 3, 70), AggregationOutcome::Verified);
}

#[test]
fn submissions_drive_status() {
    let mut r = registry_with_batch(3, 70);
    assert_eq!(r.batch_verification_status("B1"), Some(VerificationStatus::Pending));
    assert_eq!(r.submit_verification("B1", vd(1, 80), true), Ok(VerificationStatus::InProgress));
    assert_eq!(r.submit_verification("B1", vd(2, 75), true), Ok(VerificationStatus::InProgress));
    assert_eq!(r.submit_verification("B1", vd(3, 60), true), Ok(VerificationStatus::Verified));
    assert_eq!(r.get_batch_details("B1").unwrap().verification_data.len(), 3);
    assert!(r.reward_eligible("B1"));
    assert_eq!(r.submit_verification("B1", vd(4, 90), true), Err(VerificationError::InvalidTransition));
}

#[test]
fn failing_scores_fail_the_batch() {
    let mut r = registry_with_batch(3, 70);
    r.submit_verification("B1", vd(1, 80), true).unwrap();
    r.submit_verification("B1", vd(2, 50), true).unwrap();
    assert_eq!(r.submit_verification("B1", vd(3, 50), true), Ok(VerificationStatus::Failed));
    assert!(!r.reward_eligible("B1"));
}

#[test]
fn rejected_submissions_are_not_recorded() {
    let mut r = registry_with_batch(3, 70);
    assert_eq!(r.submit_verification("B9", vd(1, 80), true), Err(VerificationError::BatchNotFound));
    assert_eq!(r.submit_verification("B1", vd(99, 80), true), Err(VerificationError::UnauthorizedOracle));
    assert_eq!(r.submit_verification("B1", vd(1, 80), false), Err(VerificationError::RejectedSubmission));
    assert_eq!(r.get_batch_details("B1").unwrap().verification_data.len(), 0);
    assert_eq!(r.batch_verification_status("B1"), Some(VerificationStatus::Pending));
    r.submit_verification("B1", vd(1, 80), true).unwrap();
    assert_eq!(r.submit_verification("B1", vd(1, 10), true), Err(VerificationError::DuplicateSubmission));
    assert_eq!(r.get_batch_details("B1").unwrap().verification_data.len(), 1);
}

#[test]
fn dispute_suspends_rewards_until_resolved() {
    let mut r = registry_with_batch(1, 70);
    assert_eq!(r.dispute("B1", b"lab report".to_vec()), Err(VerificationError::InvalidTransition));
    assert_eq!(r.submit_verification("B1", vd(1, 95), true), Ok(VerificationStatus::Verified));
    assert!(r.reward_eligible("B1"));
    assert_eq!(r.dispute("B1", b"lab report".to_vec()), Ok(()));
    assert_eq!(r.batch_verification_status("B1"), Some(VerificationStatus::Disputed));
    assert_eq!(r.get_batch_details("B1").unwrap().dispute_evidence, b"lab report".to_vec());
    assert!(!r.reward_eligible("B1"));
    assert_eq!(r.submit_verification("B1", vd(2, 95), true), Err(VerificationError::InvalidTransition));
    assert_eq!(r.dispute("B1", b"lab report".to_vec()), Err(VerificationError::InvalidTransition));
    assert!(!r.reward_eligible("B1"));
    assert_eq!(r.resolve_dispute("B1", true), Ok(VerificationStatus::Verified));
    assert!(r.reward_eligible("B1"));
    assert_eq!(r.dispute("B1", b"lab report".to_vec()), Err(VerificationError::InvalidTransition));
    assert_eq!(r.resolve_dispute("B1", false), Err(VerificationError::InvalidTransition));
}

#[test]
fn registry_queries() {
    let mut r = registry_with_batch(3, 70);
    assert_eq!(
        r.register_batch("B1".to_string(), 1, 1, 1, metrics(), "F".to_string(), "R".to_string(), 0),
        Err(VerificationError::BatchAlreadyExists)
    );
    r.register_batch("B2".to_string(), 7, 1, 1, metrics(), "F".to_string(), "R".to_string(), 0).unwrap();
    r.register_batch("B3".to_string(), 42, 1, 1, metrics(), "F".to_string(), "R".to_string(), 0).unwrap();
    assert_eq!(r.get_producer_batches(42), vec!["B1".to_string(), "B3".to_string()]);
    assert_eq!(r.get_producer_batches(5), Vec::<String>::new());
    assert_eq!(r.batch_verification_status("none"), None);
    assert!(r.get_batch_details("none").is_none());
    assert_eq!(r.get_batch_details("B2").unwrap().brewer, 7);
}

fn verified_world() -> (TelemetryManager, BatchRegistry) {
    let mut t = TelemetryManager::new();
    t.start_telemetry_session("B1".to_string(), "F1".to_string(), "R1".to_string(), 5).unwrap();
    t.register_sensor(
        "B1",
        SensorDevice {
            id: "ph-1".to_string(),
            sensor_type: SensorType::PH,
            last_calibration: 1,
            status: DeviceStatus::Active,
            public_key: vec![9],
        },
    )
    .unwrap();
    t.add_reading(
        "B1",
        TelemetryReading {
            sensor_id: "ph-1".to_string(),
            timestamp: 6,
            value: 342,
            unit: "pH".to_string(),
            signature: vec![3],
        },
        true,
    )
    .unwrap();
    t.update_fermentation_stage("B1", FermentationStage::Secondary, 7).unwrap();
    let mut r = registry_with_batch(1, 70);
    r.submit_verification("B1", vd(2, 88), true).unwrap();
    (t, r)
}

#[test]
fn certificate_binds_the_verified_batch() {
    let (_, r) = verified_world();
    let c = issue_certificate(&r, "B1", 99).unwrap();
    assert_eq!(c.batch_id, "B1");
    assert_eq!(c.verifiers, vec![2]);
    assert_eq!(c.issued_at, 99);
    assert_eq!(c.metrics, metrics());
    assert_eq!(c.digest.len(), 32);
    let later = issue_certificate(&r, "B1", 100).unwrap();
    assert_ne!(c.digest, later.digest);
    assert!(matches!(issue_certificate(&r, "B7", 1), Err(CertificationError::BatchNotFound)));
    let pending = registry_with_batch(3, 70);
    assert!(matches!(issue_certificate(&pending, "B1", 1), Err(CertificationError::NotVerified)));
}

#[test]
fn export_is_idempotent_and_recoverable() {
    let (t, r) = verified_world();
    let ec = create_matrix_magiq_ec();
    let first = export_to_ledger(&t, &r, &ec, "B1").unwrap();
    let second = export_to_ledger(&t, &r, &ec, "B1").unwrap();
    assert_eq!(first, second);
    let bundle = ec.recover_data(&first).unwrap();
    assert!(bundle.windows(2).any(|w| w == b"B1"));
}

#[test]
fn export_errors() {
    let (_, r) = verified_world();
    let ec = create_matrix_magiq_ec();
    let empty = TelemetryManager::new();
    assert_eq!(export_to_ledger(&empty, &r, &ec, "B1"), Err(CertificationError::NoTelemetryData));
    let (t, _) = verified_world();
    let pending = registry_with_batch(3, 70);
    assert_eq!(export_to_ledger(&t, &pending, &ec, "B1"), Err(CertificationError::NotVerified));
    assert_eq!(export_to_ledger(&t, &r, &ec, "B5"), Err(CertificationError::BatchNotFound));
}

#[test]
fn nutritional_batches_certify_too() {
    let mut r = BatchRegistry::new(1, 50);
    r.register_oracle(9);
    let nutrition = BatchMetrics::Nutritional(NutritionalMetrics {
        protein_content: 60,
        chlorophyll_content: 10,
        phycocyanin_content: 12,
        beta_carotene_content: 2,
        iron_content: 5,
        quality_score: 88,
    });
    r.register_batch("S1".to_string(), 3, 10, 1, nutrition, "F".to_string(), "R".to_string(), 0).unwrap();
    assert_eq!(r.submit_verification("S1", vd(9, 50), true), Ok(VerificationStatus::Verified));
    let c = issue_certificate(&r, "S1", 5).unwrap();
    assert_eq!(c.metrics, nutrition);
}
