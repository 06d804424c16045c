//! Bridge layer as a flat byte stream: the payload repeated
//! `redundancy_factor` times, read back by strict majority over the copies.

use vstd::prelude::*;
use crate::codec::CodecError;
use crate::bridge::{BridgeErrorCorrection as CopyBridge, bridge_decode};
use crate::classical::{concat, chunks};
use crate::pipeline::{join, split};

verus! {

/// What reading a stream of `r` copies gives.
pub open spec fn transmission_decode(data: Seq<u8>, r: nat) -> Result<Seq<u8>, CodecError> {
    if r == 0 || data.len() % r != 0 {
        Err(CodecError::MalformedFrame)
    } else {
        bridge_decode(chunks(data, r, data.len() / r))
    }
}

pub struct BridgeErrorCorrection {
    pub redundancy_factor: u32,
    pub verification_rounds: u32,
}

impl BridgeErrorCorrection {
    pub fn new(redundancy_factor: u32, verification_rounds: u32) -> (r: Self)
        ensures
            r.redundancy_factor == redundancy_factor,
            r.verification_rounds == verification_rounds,
    {
        BridgeErrorCorrection { redundancy_factor, verification_rounds }
    }

    /// `redundancy_factor` copies of `data`, back to back.
    pub fn encode_for_quantum_transmission(&self, data: &[u8]) -> (r: Vec<u8>)
        ensures
            r@ == concat(Seq::new(self.redundancy_factor as nat, |_i: int| data@)),
    {
        let copies = CopyBridge::new(self.redundancy_factor as usize, self.verification_rounds as usize);
        let v = copies.prepare_for_quantum(data);
        join(&v)
    }

    /// The copy that a strict majority of the `redundancy_factor` equal
    /// parts of `data` hold.
    pub fn decode_from_quantum_transmission(&self, data: &[u8]) -> (r: Result<Vec<u8>, CodecError>)
        ensures
            match r {
                Ok(v) => transmission_decode(data@, self.redundancy_factor as nat) == Ok::<Seq<u8>, CodecError>(v@),
                Err(e) => transmission_decode(data@, self.redundancy_factor as nat) == Err::<Seq<u8>, CodecError>(e),
            },
    {
        let r = self.redundancy_factor as usize;
        if r == 0 || data.len() % r != 0 {
            return Err(CodecError::MalformedFrame);
        }
        let owned = vstd::slice::slice_to_vec(data);
        let parts = split(&owned, r);
        let copies = CopyBridge::new(r, self.verification_rounds as usize);
        copies.verify_from_quantum(parts)
    }
}

} // verus!
