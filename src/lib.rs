//! Verified core of a batch-tracking ledger: layered error correction for
//! telemetry payloads (erasure coding, redundant copies, majority-vote
//! qubits), telemetry sessions with redundant reading storage and a
//! per-facility hash chain, batch verification by independent oracles,
//! certificate export, cultivation and production registries, and
//! supervised processes.

pub mod codec;
pub mod encoding;
pub mod digest;
pub mod telemetry;
pub mod storage;
pub mod verification;
pub mod quantum;
pub mod classical;
pub mod bridge;
pub mod pipeline;
pub mod certification;
pub mod surface;
pub mod transmission;
pub mod layers;
pub mod actorx;
pub mod process;
pub mod analytics;
pub mod cultivation;
pub mod spirulina;
