//! Gates of the three correction layers on ledger payloads: each refuses an
//! empty payload, and together they report which layer refused.

use vstd::prelude::*;

verus! {

/// The layer that refused a payload.
#[derive(Debug, Clone, Copy, PartialEq, Eq, Structural)]
pub enum ErrorCorrectionFailure {
    ClassicalCorrectionFailed,
    BridgeCorrectionFailed,
    QuantumCorrectionFailed,
}

/// Classical layer gate: refuses an empty payload.
pub fn apply_classical_correction(data: &[u8]) -> (r: Result<(), ()>)
    ensures
        r is Err <==> data@.len() == 0,
{
    if data.len() == 0 {
        Err(())
    } else {
        Ok(())
    }
}

/// Bridge layer gate: refuses an empty payload.
pub fn apply_bridge_correction(data: &[u8]) -> (r: Result<(), ()>)
    ensures
        r is Err <==> data@.len() == 0,
{
    if data.len() == 0 {
        Err(())
    } else {
        Ok(())
    }
}

/// Quantum layer gate: refuses an empty payload.
pub fn apply_quantum_correction(data: &[u8]) -> (r: Result<(), ()>)
    ensures
        r is Err <==> data@.len() == 0,
{
    if data.len() == 0 {
        Err(())
    } else {
        Ok(())
    }
}

/// All three gates in order; the first refusal names its layer.
pub fn apply_comprehensive_correction(data: &[u8]) -> (r: Result<(), ErrorCorrectionFailure>)
    ensures
        r is Err <==> data@.len() == 0,
        data@.len() == 0 ==> r == Err::<(), ErrorCorrectionFailure>(ErrorCorrectionFailure::ClassicalCorrectionFailed),
{
    if apply_classical_correction(data).is_err() {
        return Err(ErrorCorrectionFailure::ClassicalCorrectionFailed);
    }
    if apply_bridge_correction(data).is_err() {
        return Err(ErrorCorrectionFailure::BridgeCorrectionFailed);
    }
    if apply_quantum_correction(data).is_err() {
        return Err(ErrorCorrectionFailure::QuantumCorrectionFailed);
    }
    Ok(())
}

} // verus!
