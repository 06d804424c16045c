use matrix_magiq::cultivation::{
    conditions_digest, verify_conditions, CultivationConditions, CultivationError, CultivationRegistry,
};
use matrix_magiq::spirulina::{BatchStatus, SpirulinaError, SpirulinaRegistry};
use matrix_magiq::telemetry::{TelemetryError, TelemetryManager};

fn conditions(temperature: u32) -> CultivationConditions {
    CultivationConditions {
        temperature,
        ph_level: 950,
        light_intensity: 3000,
        nutrient_hash: vec![1, 2],
        water_source: b"well".to_vec(),
    }
}

#[test]
fn conditions_ranges() {
    assert!(verify_conditions(&conditions(3000)));
    assert!(verify_conditions(&conditions(2500)));
    assert!(verify_conditions(&conditions(3500)));
    assert!(!verify_conditions(&conditions(2499)));
    assert!(!verify_conditions(&conditions(3501)));
    let mut acid = conditions(3000);
    acid.ph_level = 799;
    assert!(!verify_conditions(&acid));
    let mut dark = conditions(3000);
    dark.light_intensity = 1999;
    assert!(!verify_conditions(&dark));
}

#[test]
fn cultivation_lifecycle() {
    let mut r = CultivationRegistry::new(10);
    assert_eq!(r.register_batch(1, b"C1".to_vec(), 20, conditions(3000), 10), Ok(()));
    assert_eq!(
        r.register_batch(1, b"C1".to_vec(), 30, conditions(3000), 10),
        Err(CultivationError::BatchIdExists)
    );
    assert_eq!(
        r.register_batch(1, b"C2".to_vec(), 19, conditions(3000), 10),
        Err(CultivationError::InvalidCultivationPeriod)
    );
    assert_eq!(
        r.register_batch(1, b"C2".to_vec(), 10, conditions(3000), 10),
        Err(CultivationError::InvalidCultivationPeriod)
    );
    assert_eq!(
        r.register_batch(1, Vec::new(), 30, conditions(3000), 10),
        Err(CultivationError::ErrorCorrectionFailed)
    );
    assert_eq!(r.batch_count(), 1);
    let id = b"C1".to_vec();
    let before = r.cultivation_batch(&id).unwrap().conditions_hash.clone();
    assert_eq!(before, conditions_digest(&conditions(3000)));
    assert_eq!(before.len(), 32);
    assert_eq!(r.update_conditions(2, &id, conditions(2800)), Err(CultivationError::NotAuthorized));
    assert_eq!(r.update_conditions(1, &b"zz".to_vec(), conditions(2800)), Err(CultivationError::BatchNotFound));
    assert_eq!(r.update_conditions(1, &id, conditions(2800)), Ok(()));
    assert_ne!(r.cultivation_batch(&id).unwrap().conditions_hash, before);
    assert_eq!(r.certify_batch(1, &id, vec![7], 19), Err(CultivationError::NotReadyForCertification));
    assert_eq!(r.certify_batch(2, &id, vec![7], 25), Err(CultivationError::NotAuthorized));
    assert_eq!(r.certify_batch(1, &id, vec![], 25), Err(CultivationError::QuantumVerificationFailed));
    assert!(!r.cultivation_batch(&id).unwrap().certified);
    assert_eq!(r.certify_batch(1, &id, vec![7], 20), Ok(()));
    let b = r.cultivation_batch(&id).unwrap();
    assert!(b.certified);
    assert_eq!(b.quantum_proof, Some(vec![7]));
    assert_eq!(b.start_block, 10);
    r.register_batch(2, b"D1".to_vec(), 40, conditions(3000), 10).unwrap();
    r.register_batch(1, b"C3".to_vec(), 40, conditions(3000), 10).unwrap();
    assert_eq!(r.grower_batches(1), vec![b"C1".to_vec(), b"C3".to_vec()]);
}

#[test]
fn spirulina_producers_and_batches() {
    let mut r = SpirulinaRegistry::new(8);
    assert_eq!(
        r.register_batch(5, b"S1".to_vec(), 100, b"lake".to_vec()),
        Err(SpirulinaError::ProducerNotRegistered)
    );
    assert_eq!(r.register_producer(5, b"Farm".to_vec(), b"lake".to_vec()), Ok(()));
    assert!(r.registered_producer(5));
    assert_eq!(
        r.register_producer(5, b"Farm".to_vec(), b"lake".to_vec()),
        Err(SpirulinaError::ProducerAlreadyRegistered)
    );
    assert_eq!(
        r.register_producer(6, b"a very long name".to_vec(), b"x".to_vec()),
        Err(SpirulinaError::BatchIdTooLong)
    );
    assert!(!r.registered_producer(6));
    assert_eq!(
        r.register_batch(5, b"too-long-id".to_vec(), 100, b"lake".to_vec()),
        Err(SpirulinaError::BatchIdTooLong)
    );
    assert_eq!(r.register_batch(5, b"S1".to_vec(), 100, b"lake".to_vec()), Ok(()));
    assert_eq!(
        r.register_batch(5, b"S1".to_vec(), 100, b"lake".to_vec()),
        Err(SpirulinaError::BatchAlreadyExists)
    );
    let id = b"S1".to_vec();
    assert_eq!(r.spirulina_batch(&id).unwrap().status, BatchStatus::Registered);
    assert_eq!(r.process_batch(6, &id, b"dry".to_vec()), Err(SpirulinaError::Unauthorized));
    assert_eq!(r.process_batch(5, &b"S9".to_vec(), b"dry".to_vec()), Err(SpirulinaError::BatchNotFound));
    assert_eq!(r.process_batch(5, &id, b"dry".to_vec()), Ok(()));
    let b = r.spirulina_batch(&id).unwrap();
    assert_eq!(b.status, BatchStatus::Processed);
    assert_eq!(b.processing_steps, vec![b"dry".to_vec()]);
}

#[test]
fn spirulina_step_list_is_bounded() {
    let mut r = SpirulinaRegistry::new(2);
    r.register_producer(1, b"F".to_vec(), b"L".to_vec()).unwrap();
    r.register_batch(1, b"S".to_vec(), 1, b"L".to_vec()).unwrap();
    let id = b"S".to_vec();
    r.process_batch(1, &id, b"a".to_vec()).unwrap();
    r.process_batch(1, &id, b"b".to_vec()).unwrap();
    assert_eq!(r.spirulina_batch(&id).unwrap().processing_steps.len(), 2);
    r.process_batch(1, &id, b"c".to_vec()).unwrap();
    assert!(r.spirulina_batch(&id).unwrap().processing_steps.is_empty());
}

#[test]
fn telemetry_export_serialises_the_session() {
    let mut m = TelemetryManager::new();
    assert_eq!(m.export_to_blockchain("B"), Err(TelemetryError::SessionNotFound));
    m.start_telemetry_session("B".to_string(), "F".to_string(), "R".to_string(), 3).unwrap();
    let open = m.export_to_blockchain("B").unwrap();
    assert_eq!(&open[0..8], &1u64.to_le_bytes());
    assert_eq!(open[8], b'B');
    m.end_telemetry_session("B", 9).unwrap();
    let closed = m.export_to_blockchain("B").unwrap();
    assert_eq!(closed.len(), open.len());
    assert_ne!(closed, open);
}
