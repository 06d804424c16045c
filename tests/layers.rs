use matrix_magiq::layers::{
    apply_bridge_correction, apply_classical_correction, apply_comprehensive_correction,
    apply_quantum_correction, ErrorCorrectionFailure,
};

#[test]
fn test_classical_correction() {
    let data = vec![1, 2, 3, 4];
    assert!(apply_classical_correction(&data).is_ok());

    let empty_data: Vec<u8> = Vec::new();
    assert!(apply_classical_correction(&empty_data).is_err());
}

#[test]
fn test_bridge_correction() {
    let data = vec![1, 2, 3, 4];
    assert!(apply_bridge_correction(&data).is_ok());

    let empty_data: Vec<u8> = Vec::new();
    assert!(apply_bridge_correction(&empty_data).is_err());
}

#[test]
fn test_quantum_correction() {
    let data = vec![1, 2, 3, 4];
    assert!(apply_quantum_correction(&data).is_ok());

    let empty_data: Vec<u8> = Vec::new();
    assert!(apply_quantum_correction(&empty_data).is_err());
}

#[test]
fn test_comprehensive_correction() {
    let data = vec![1, 2, 3, 4];
    assert!(apply_comprehensive_correction(&data).is_ok());

    let empty_data: Vec<u8> = Vec::new();
    assert!(apply_comprehensive_correction(&empty_data).is_err());
}

#[test]
fn comprehensive_names_the_classical_layer_first() {
    let empty_data: Vec<u8> = Vec::new();
    assert_eq!(
        apply_comprehensive_correction(&empty_data),
        Err(ErrorCorrectionFailure::ClassicalCorrectionFailed)
    );
}
