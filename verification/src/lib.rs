//! Verified core of a command-line client for the GasTank contract: notes and
//! their Merkle proofs, the contract calls, frame transactions and their
//! signatures, the spending protocol, and the rendering of traces.
pub mod bytes;
pub mod calldata;
pub mod contract;
pub mod contract_laws;
pub mod convert;
pub mod envelope_laws;
pub mod envelope_plan;
pub mod frame;
pub mod frame_laws;
pub mod hash;
pub mod hex_text;
pub mod keys;
pub mod merkle;
pub mod plan;
pub mod plan_laws;
pub mod preparation;
pub mod report;
pub mod spend;
pub mod spend_laws;
pub mod text;
pub mod text_laws;
pub mod trace;
pub mod trace_laws;
pub mod tree_laws;
pub mod u256;
