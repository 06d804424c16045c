use matrix_magiq::bridge::BridgeErrorCorrection;
use matrix_magiq::classical::ReedSolomonCorrector;
use matrix_magiq::codec::CodecError;
use matrix_magiq::pipeline::{create_matrix_magiq_ec, MatrixMagiqError};
use matrix_magiq::quantum::QuantumErrorCorrection;
use matrix_magiq::surface::SurfaceCodeQEC;
use matrix_magiq::transmission;

#[test]
fn quantum_encode_repeats_distance_squared_times() {
    let q = QuantumErrorCorrection::new(3);
    let enc = q.encode_qubit(true);
    assert_eq!(enc.len(), 9);
    assert!(enc.iter().all(|&b| b));
    assert_eq!(q.correct_and_decode(&enc), Ok(true));
    assert_eq!(q.correct_and_decode(&q.encode_qubit(false)), Ok(false));
}

#[test]
fn quantum_decode_tolerates_up_to_half_flipped() {
    for distance in 1..6usize {
        let q = QuantumErrorCorrection::new(distance);
        let n = distance * distance;
        for bit in [true, false] {
            let mut enc = q.encode_qubit(bit);
            let mut flips = n / 2;
            if bit && n % 2 == 0 {
                flips -= 1;
            }
            for i in 0..flips {
                enc[i] = !enc[i];
            }
            assert_eq!(q.correct_and_decode(&enc), Ok(bit), "distance {} bit {}", distance, bit);
        }
    }
}

#[test]
fn quantum_decode_tie_reads_false() {
    let q = QuantumErrorCorrection::new(2);
    assert_eq!(q.correct_and_decode(&[true, true, false, false]), Ok(false));
}

#[test]
fn quantum_decode_empty_is_an_error() {
    let q = QuantumErrorCorrection::new(3);
    assert_eq!(q.correct_and_decode(&[]), Err(CodecError::Empty));
}

#[test]
fn bridge_copies_and_majority() {
    let b = BridgeErrorCorrection::new(3, 2);
    let copies = b.prepare_for_quantum(&[7, 8, 9]);
    assert_eq!(copies, vec![vec![7, 8, 9], vec![7, 8, 9], vec![7, 8, 9]]);
    let mut damaged = copies.clone();
    damaged[1] = vec![0, 0, 0];
    assert_eq!(b.verify_from_quantum(damaged), Ok(vec![7, 8, 9]));
}

#[test]
fn bridge_without_strict_majority_fails() {
    let b = BridgeErrorCorrection::new(2, 1);
    assert_eq!(b.verify_from_quantum(vec![vec![1], vec![2]]), Err(CodecError::NoQuorum));
    assert_eq!(b.verify_from_quantum(vec![]), Err(CodecError::NoQuorum));
}

#[test]
fn classical_round_trip_with_lost_shards() {
    let rs = ReedSolomonCorrector::new(4, 2);
    let data: Vec<u8> = b"fermentation telemetry payload".to_vec();
    let shards = rs.encode(&data);
    assert_eq!(shards.len(), 6);
    let size = shards[0].len();
    assert!(shards.iter().all(|s| s.len() == size));
    // the parity is computed, not copied from the data
    assert!(shards[4] != shards[0] || shards[5] != shards[1]);
    let mut received: Vec<Option<Vec<u8>>> = shards.into_iter().map(Some).collect();
    received[0] = None;
    received[3] = None;
    assert_eq!(rs.decode(&received), Ok(data));
}

#[test]
fn classical_round_trip_empty_payload() {
    let rs = ReedSolomonCorrector::new(3, 1);
    let shards = rs.encode(&[]);
    let mut received: Vec<Option<Vec<u8>>> = shards.into_iter().map(Some).collect();
    received[2] = None;
    assert_eq!(rs.decode(&received), Ok(vec![]));
}

#[test]
fn classical_decode_with_too_few_shards_fails() {
    let rs = ReedSolomonCorrector::new(4, 2);
    let shards = rs.encode(&[1, 2, 3, 4, 5]);
    let mut received: Vec<Option<Vec<u8>>> = shards.into_iter().map(Some).collect();
    received[0] = None;
    received[1] = None;
    received[2] = None;
    assert_eq!(rs.decode(&received), Err(CodecError::InsufficientShards));
    assert_eq!(rs.decode(&received[..5]), Err(CodecError::InsufficientShards));
}

#[test]
fn classical_reconstruct_fills_missing_shards() {
    let rs = ReedSolomonCorrector::new(2, 2);
    let shards = rs.encode(&[9, 8, 7, 6, 5, 4]);
    let mut received: Vec<Option<Vec<u8>>> = shards.iter().cloned().map(Some).collect();
    received[1] = None;
    received[2] = None;
    assert_eq!(rs.reconstruct(&mut received), Ok(()));
    let restored: Vec<Vec<u8>> = received.into_iter().map(|s| s.unwrap()).collect();
    assert_eq!(restored, shards);
}

#[test]
fn classical_decode_rejects_malformed_frame() {
    let rs = ReedSolomonCorrector::new(1, 1);
    let shards = rs.encode(&[1, 2]);
    let mut frame = shards[0].clone();
    frame[0] = 200;
    let forged = rs.encode(&frame);
    let inner: Vec<Option<Vec<u8>>> = vec![Some(forged[0][8..].to_vec()), None];
    assert_eq!(rs.decode(&inner), Err(CodecError::MalformedFrame));
}

#[test]
fn pipeline_round_trip() {
    let ec = create_matrix_magiq_ec();
    let data = b"batch B1".to_vec();
    let protected = ec.protect_data(&data).unwrap();
    assert!(protected.iter().all(|&b| b == 0 || b == 1));
    assert_eq!(protected.len() % 49, 0);
    assert_eq!(ec.recover_data(&protected), Ok(data));
}

#[test]
fn pipeline_survives_flipped_qubits() {
    let ec = create_matrix_magiq_ec();
    let data = vec![0xAB, 0xCD, 0xEF];
    let mut protected = ec.protect_data(&data).unwrap();
    for block in 0..protected.len() / 49 {
        for j in 0..10 {
            let i = block * 49 + j * 3;
            protected[i] ^= 1;
        }
    }
    assert_eq!(ec.recover_data(&protected), Ok(data));
}

#[test]
fn pipeline_reports_the_failing_layer() {
    let ec = create_matrix_magiq_ec();
    assert_eq!(
        ec.recover_data(&[1, 0, 1]),
        Err(MatrixMagiqError::QuantumError(CodecError::MalformedFrame))
    );
    assert_eq!(
        ec.recover_data(&[]),
        Err(MatrixMagiqError::ClassicalError(CodecError::InsufficientShards))
    );
}

#[test]
fn transmission_round_trip_and_majority() {
    let t = transmission::BridgeErrorCorrection::new(3, 1);
    let enc = t.encode_for_quantum_transmission(&[1, 2]);
    assert_eq!(enc, vec![1, 2, 1, 2, 1, 2]);
    let mut damaged = enc.clone();
    damaged[0] = 9;
    assert_eq!(t.decode_from_quantum_transmission(&damaged), Ok(vec![1, 2]));
    assert_eq!(
        t.decode_from_quantum_transmission(&[1, 2, 3, 4]),
        Err(CodecError::MalformedFrame)
    );
}

#[test]
fn surface_code_syndrome_and_correction() {
    let s = SurfaceCodeQEC::new(3, 2);
    let mut enc = s.encode(&[true, false]);
    assert_eq!(enc.len(), 2);
    assert_eq!(enc[0].len(), 9);
    enc[0][2] = false;
    enc[1][5] = true;
    let syndrome = s.syndrome_measurement(&enc);
    assert_eq!(syndrome, vec![true, true]);
    s.correct_errors(&mut enc, &syndrome);
    assert_eq!(enc[0], vec![true; 9]);
    assert_eq!(enc[1], vec![false; 9]);
    assert_eq!(s.syndrome_measurement(&enc), vec![false, false]);
}
