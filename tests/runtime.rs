use std::cell::RefCell;

use matrix_magiq::actorx::{Actor, ActorRef, ErrorCorrectionLayer, Message, QuantumError};
use matrix_magiq::process::{AOProcess, CircuitBreaker, SecurityLevel};

struct Recorder {
    fills: RefCell<u32>,
    kills: RefCell<u32>,
}

impl Actor for Recorder {
    fn receive<M: Message>(&self, _msg: M) {
        *self.fills.borrow_mut() += 1;
    }

    fn receive_once<M: Message>(&self, _msg: M) {
        *self.kills.borrow_mut() += 1;
    }

    fn address(&self) -> String {
        "recorder".to_string()
    }

    fn quantum_correct(&self) -> Result<(), QuantumError> {
        Ok(())
    }
}

#[test]
fn actor_ref_delivers_through_the_layers() {
    let r = ActorRef::new(Recorder { fills: RefCell::new(0), kills: RefCell::new(0) });
    assert!(r.send("hello".to_string()).is_ok());
    assert!(r.send(5u32).is_ok());
    assert!(r.send_kill(vec![1u8]).is_ok());
}

#[test]
fn correction_layer_passes_messages_unchanged() {
    let l = ErrorCorrectionLayer::new();
    assert_eq!(l.apply_classical_correction(7u8).unwrap(), 7);
    assert_eq!(l.apply_bridge_correction("x".to_string()).unwrap(), "x");
    assert_eq!(l.apply_quantum_correction(vec![1, 2]).unwrap(), vec![1, 2]);
}

#[test]
fn circuit_breaker_trips_and_backs_off() {
    let mut cb = CircuitBreaker::new(3);
    assert!(!cb.record_failure());
    assert!(!cb.record_failure());
    assert!(cb.record_failure());
    assert!(cb.record_failure());
    cb.reset();
    assert!(!cb.record_failure());
    let mut zero = CircuitBreaker::new(0);
    for _ in 0..80 {
        assert!(zero.record_failure());
    }
}

#[test]
fn process_fails_after_three_errors() {
    let mut p = AOProcess::new("p1".to_string(), SecurityLevel::Critical);
    p.start();
    p.handle_error("disk");
    p.handle_error("disk");
    p.handle_error("disk full");
}
