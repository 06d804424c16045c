//! Actor messaging: a message passes the three correction layers before
//! the actor receives it, with persistent (fill) or one-shot (kill)
//! semantics.

use vstd::prelude::*;

verus! {

/// Failures of the classical layer.
#[derive(Debug)]
pub enum ClassicalError {
    InvalidInput(String),
    ProcessingFailed(String),
    DataCorruption(String),
    NetworkError(String),
    OperationTimeout(String),
}

/// Failures at the classical/quantum interface.
#[derive(Debug)]
pub enum BridgeError {
    InterfaceFailure(String),
    DataTransmissionError(String),
    ProtocolViolation(String),
    StatePreparationFailed(String),
    MeasurementError(String),
}

/// Failures of the quantum layer.
#[derive(Debug)]
pub enum QuantumError {
    Decoherence(String),
    GateError(String),
    StateCollapse(String),
    EntanglementLoss(String),
    SuperpositionFailure(String),
}

/// The layer that stopped a message.
#[derive(Debug)]
pub enum LayerError {
    Classical(ClassicalError),
    Bridge(BridgeError),
    Quantum(QuantumError),
}

/// A value that actors exchange.
pub trait Message: Clone {}

impl<T: Clone> Message for T {}

/// An actor: it receives messages with persistent or one-shot semantics.
pub trait Actor: Sized {
    /// Handles `msg` with persistent (fill) semantics.
    fn receive<M: Message>(&self, msg: M);

    /// Handles `msg` with one-shot (kill) semantics.
    fn receive_once<M: Message>(&self, msg: M);

    /// The actor's address.
    fn address(&self) -> String;

    /// Applies quantum correction to the actor's own state.
    fn quantum_correct(&self) -> Result<(), QuantumError>;
}

/// The three correction layers applied to in-process messages. A message
/// that stays within one process crosses no lossy channel, so each layer
/// hands it on unchanged.
pub struct ErrorCorrectionLayer;

impl ErrorCorrectionLayer {
    pub fn new() -> (r: Self) {
        ErrorCorrectionLayer
    }

    pub fn apply_classical_correction<T: Clone>(&self, data: T) -> (r: Result<T, ClassicalError>)
        ensures
            r matches Ok(x) && x == data,
    {
        Ok(data)
    }

    pub fn apply_bridge_correction<T: Clone>(&self, data: T) -> (r: Result<T, BridgeError>)
        ensures
            r matches Ok(x) && x == data,
    {
        Ok(data)
    }

    pub fn apply_quantum_correction<T: Clone>(&self, data: T) -> (r: Result<T, QuantumError>)
        ensures
            r matches Ok(x) && x == data,
    {
        Ok(data)
    }
}

/// A handle through which messages reach an actor.
pub struct ActorRef<A: Actor> {
    inner: A,
    error_correction: ErrorCorrectionLayer,
}

impl<A: Actor> ActorRef<A> {
    pub fn new(actor: A) -> (r: Self)
        ensures
            r.actor() == actor,
    {
        ActorRef { inner: actor, error_correction: ErrorCorrectionLayer::new() }
    }

    pub closed spec fn actor(&self) -> A {
        self.inner
    }

    /// Passes `msg` through the three layers and delivers it with fill
    /// semantics.
    pub fn send<M: Message>(&self, msg: M) -> (r: Result<(), LayerError>)
        ensures
            r is Ok,
    {
        let m1 = match self.error_correction.apply_classical_correction(msg) {
            Ok(m) => m,
            Err(e) => return Err(LayerError::Classical(e)),
        };
        let m2 = match self.error_correction.apply_bridge_correction(m1) {
            Ok(m) => m,
            Err(e) => return Err(LayerError::Bridge(e)),
        };
        let m3 = match self.error_correction.apply_quantum_correction(m2) {
            Ok(m) => m,
            Err(e) => return Err(LayerError::Quantum(e)),
        };
        self.inner.receive(m3);
        Ok(())
    }

    /// Passes `msg` through the three layers and delivers it with kill
    /// semantics.
    pub fn send_kill<M: Message>(&self, msg: M) -> (r: Result<(), LayerError>)
        ensures
            r is Ok,
    {
        let m1 = match self.error_correction.apply_classical_correction(msg) {
            Ok(m) => m,
            Err(e) => return Err(LayerError::Classical(e)),
        };
        let m2 = match self.error_correction.apply_bridge_correction(m1) {
            Ok(m) => m,
            Err(e) => return Err(LayerError::Bridge(e)),
        };
        let m3 = match self.error_correction.apply_quantum_correction(m2) {
            Ok(m) => m,
            Err(e) => return Err(LayerError::Quantum(e)),
        };
        self.inner.receive_once(m3);
        Ok(())
    }
}

} // verus!
