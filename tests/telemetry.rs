use matrix_magiq::analytics::{
    calculate_average, check_optimal_conditions, check_stage_progression,
    detect_fermentation_issues, generate_quality_score, FermentationIssue, TargetRange,
};
use matrix_magiq::telemetry::{
    encode_reading, encode_session, DeviceStatus, FermentationStage, SensorDevice, SensorType, TelemetryError,
    TelemetryManager, TelemetryReading,
};

fn sensor(id: &str, sensor_type: SensorType) -> SensorDevice {
    SensorDevice {
        id: id.to_string(),
        sensor_type,
        last_calibration: 1_000,
        status: DeviceStatus::Active,
        public_key: vec![1, 2, 3],
    }
}

fn reading(sensor_id: &str, timestamp: u64, value: i64) -> TelemetryReading {
    TelemetryReading {
        sensor_id: sensor_id.to_string(),
        timestamp,
        value,
        unit: "pH".to_string(),
        signature: vec![0xAA],
    }
}

#[test]
fn session_lifecycle_scenario() {
    let mut m = TelemetryManager::new();
    assert_eq!(m.start_telemetry_session("B1".to_string(), "F1".to_string(), "R1".to_string(), 10), Ok(()));
    assert_eq!(m.register_sensor("B1", sensor("ph-1", SensorType::PH)), Ok(()));
    assert_eq!(m.add_reading("B1", reading("ph-1", 11, 345), true), Ok(()));
    assert_eq!(
        m.add_reading("B1", reading("temp-9", 12, 2200), true),
        Err(TelemetryError::UnknownSensor)
    );
    assert_eq!(
        m.update_fermentation_stage("B1", FermentationStage::Completed, 13),
        Err(TelemetryError::InvalidTransition)
    );
    assert_eq!(m.update_fermentation_stage("B1", FermentationStage::Secondary, 14), Ok(()));
    assert_eq!(m.update_fermentation_stage("B1", FermentationStage::Maturation, 15), Ok(()));
    assert!(m.has_active_session("B1"));
    assert_eq!(m.update_fermentation_stage("B1", FermentationStage::Completed, 16), Ok(()));
    assert!(!m.has_active_session("B1"));
    let closed = m.get_telemetry_data("B1").unwrap();
    assert_eq!(closed.end_time, 16);
    assert_eq!(closed.stage, FermentationStage::Completed);
    assert_eq!(closed.readings.len(), 1);
    assert_eq!(closed.content_hash.len(), 32);
}

#[test]
fn unknown_sensor_leaves_readings_untouched() {
    let mut m = TelemetryManager::new();
    m.start_telemetry_session("B2".to_string(), "F1".to_string(), "R1".to_string(), 1).unwrap();
    m.register_sensor("B2", sensor("ph-1", SensorType::PH)).unwrap();
    assert_eq!(m.add_reading("B2", reading("nope", 2, 1), true), Err(TelemetryError::UnknownSensor));
    assert_eq!(m.get_telemetry_data("B2").unwrap().readings.len(), 0);
}

#[test]
fn stage_skip_and_backward_are_refused() {
    let mut m = TelemetryManager::new();
    m.start_telemetry_session("B3".to_string(), "F1".to_string(), "R1".to_string(), 1).unwrap();
    assert_eq!(
        m.update_fermentation_stage("B3", FermentationStage::Maturation, 2),
        Err(TelemetryError::InvalidTransition)
    );
    assert_eq!(m.get_telemetry_data("B3").unwrap().stage, FermentationStage::Primary);
    assert_eq!(
        m.update_fermentation_stage("B3", FermentationStage::Primary, 2),
        Err(TelemetryError::InvalidTransition)
    );
    m.update_fermentation_stage("B3", FermentationStage::Secondary, 3).unwrap();
    assert_eq!(
        m.update_fermentation_stage("B3", FermentationStage::Primary, 4),
        Err(TelemetryError::InvalidTransition)
    );
    assert_eq!(m.get_telemetry_data("B3").unwrap().stage, FermentationStage::Secondary);
}

#[test]
fn errors_for_missing_sessions_and_duplicates() {
    let mut m = TelemetryManager::new();
    assert_eq!(m.register_sensor("X", sensor("s", SensorType::PH)), Err(TelemetryError::SessionNotFound));
    assert_eq!(m.add_reading("X", reading("s", 1, 1), true), Err(TelemetryError::SessionNotFound));
    assert_eq!(
        m.update_fermentation_stage("X", FermentationStage::Secondary, 1),
        Err(TelemetryError::SessionNotFound)
    );
    assert_eq!(m.end_telemetry_session("X", 1), Err(TelemetryError::SessionNotFound));
    m.start_telemetry_session("B".to_string(), "F".to_string(), "R".to_string(), 1).unwrap();
    assert_eq!(
        m.start_telemetry_session("B".to_string(), "F".to_string(), "R".to_string(), 2),
        Err(TelemetryError::AlreadyExists)
    );
    m.register_sensor("B", sensor("s", SensorType::PH)).unwrap();
    assert_eq!(
        m.register_sensor("B", sensor("s", SensorType::Temperature)),
        Err(TelemetryError::SensorAlreadyRegistered)
    );
    assert_eq!(m.add_reading("B", reading("s", 2, 3), false), Err(TelemetryError::InvalidSignature));
    assert_eq!(m.get_telemetry_data("B").unwrap().readings.len(), 0);
    assert!(m.get_telemetry_data("missing").is_none());
}

#[test]
fn closed_sessions_chain_by_facility() {
    let mut m = TelemetryManager::new();
    m.start_telemetry_session("A1".to_string(), "F1".to_string(), "R".to_string(), 1).unwrap();
    assert!(m.get_telemetry_data("A1").unwrap().previous_hash.is_empty());
    m.end_telemetry_session("A1", 5).unwrap();
    let first_hash = m.get_telemetry_data("A1").unwrap().content_hash.clone();
    assert_eq!(first_hash.len(), 32);
    let first_bytes = encode_session(m.get_telemetry_data("A1").unwrap());
    assert_ne!(first_hash, first_bytes);
    m.start_telemetry_session("A2".to_string(), "F1".to_string(), "R".to_string(), 6).unwrap();
    m.start_telemetry_session("C1".to_string(), "F2".to_string(), "R".to_string(), 6).unwrap();
    assert_eq!(m.get_telemetry_data("A2").unwrap().previous_hash, first_hash);
    assert!(m.get_telemetry_data("C1").unwrap().previous_hash.is_empty());
    // a batch id can be reused once its earlier session has closed
    assert_eq!(m.start_telemetry_session("A1".to_string(), "F1".to_string(), "R".to_string(), 7), Ok(()));
    assert_eq!(m.get_telemetry_data("A1").unwrap().end_time, 0);
}

#[test]
fn session_encoding_layout() {
    let mut m = TelemetryManager::new();
    m.start_telemetry_session("B".to_string(), "F".to_string(), "R".to_string(), 2).unwrap();
    let bytes = encode_session(m.get_telemetry_data("B").unwrap());
    let mut expected: Vec<u8> = Vec::new();
    for field in [b"B", b"F", b"R"] {
        expected.extend_from_slice(&1u64.to_le_bytes());
        expected.extend_from_slice(field);
    }
    expected.extend_from_slice(&2u64.to_le_bytes());
    expected.extend_from_slice(&0u64.to_le_bytes());
    expected.extend_from_slice(&0u64.to_le_bytes());
    expected.extend_from_slice(&0u64.to_le_bytes());
    expected.extend_from_slice(&0u64.to_le_bytes());
    assert_eq!(bytes, expected);
}

fn fixtures() -> (Vec<SensorDevice>, Vec<TargetRange>) {
    let sensors = vec![sensor("ph-1", SensorType::PH), sensor("t-1", SensorType::Temperature)];
    let targets = vec![
        TargetRange { sensor_type: SensorType::PH, min: 250, max: 400 },
        TargetRange { sensor_type: SensorType::Temperature, min: 2000, max: 3000 },
    ];
    (sensors, targets)
}

#[test]
fn average_over_window_and_type() {
    let (sensors, _) = fixtures();
    let readings = vec![
        reading("ph-1", 10, 300),
        reading("ph-1", 20, 351),
        reading("t-1", 20, 2500),
        reading("ph-1", 40, 100),
    ];
    assert_eq!(calculate_average(&readings, &sensors, SensorType::PH, 10, 30), Some(325));
    assert_eq!(calculate_average(&readings, &sensors, SensorType::Temperature, 0, 100), Some(2500));
    assert_eq!(calculate_average(&readings, &sensors, SensorType::Sugar, 0, 100), None);
    let negative = vec![reading("t-1", 1, -5), reading("t-1", 2, -4)];
    assert_eq!(calculate_average(&negative, &sensors, SensorType::Temperature, 0, 10), Some(-4));
}

#[test]
fn target_checks_score_and_issues() {
    let (sensors, targets) = fixtures();
    let good = vec![reading("ph-1", 1, 300), reading("t-1", 1, 2500)];
    assert!(check_optimal_conditions(&good, &sensors, &targets));
    assert_eq!(generate_quality_score(&good, &sensors, &targets), 100);
    assert!(check_stage_progression(&FermentationStage::Primary, &good, &sensors, &targets));
    assert!(!check_stage_progression(&FermentationStage::Completed, &good, &sensors, &targets));
    assert!(!check_stage_progression(&FermentationStage::Primary, &[], &sensors, &targets));

    let mixed = vec![
        reading("ph-1", 1, 200),
        reading("t-1", 1, 3100),
        reading("ph-1", 2, 300),
    ];
    assert!(!check_optimal_conditions(&mixed, &sensors, &targets));
    assert_eq!(generate_quality_score(&mixed, &sensors, &targets), 33);
    assert_eq!(
        detect_fermentation_issues(&mixed, &sensors, &targets),
        vec![
            FermentationIssue::BelowTarget(SensorType::PH),
            FermentationIssue::AboveTarget(SensorType::Temperature)
        ]
    );
    assert_eq!(generate_quality_score(&[], &sensors, &targets), 0);
}

#[test]
fn readings_are_stored_redundantly_and_recovered() {
    let mut m = TelemetryManager::new();
    m.start_telemetry_session("B".to_string(), "F".to_string(), "R".to_string(), 1).unwrap();
    m.register_sensor("B", sensor("ph-1", SensorType::PH)).unwrap();
    let r = reading("ph-1", 2, -17);
    let expected = encode_reading(&r);
    m.add_reading("B", r, true).unwrap();
    let s = m.get_telemetry_data("B").unwrap();
    assert_eq!(s.stored_readings.len(), 1);
    assert_eq!(s.stored_readings[0].len(), 3);
    assert_ne!(s.stored_readings[0][0], expected);
    assert_eq!(m.recover_reading("B", 0), Ok(expected.clone()));
    assert_eq!(m.recover_reading("B", 1), Err(TelemetryError::ReadingNotFound));
    assert_eq!(m.recover_reading("Z", 0), Err(TelemetryError::SessionNotFound));
    m.end_telemetry_session("B", 3).unwrap();
    assert_eq!(m.recover_reading("B", 0), Ok(expected));
}
