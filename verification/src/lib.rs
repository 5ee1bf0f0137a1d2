//! Fraud proofs of domain blocks.
//!
//! A fraud proof shows the consensus chain that an execution receipt of a domain block is wrong.
//! [`fraud_proof`] and [`proofs`] hold the proofs and their targets, [`execution_phase`] what is
//! needed to verify a challenged state transition, [`extrinsic_digest`] the digests of the
//! extrinsics of a bundle, and [`scale`] the encoding that the proofs are hashed in. [`laws`] states
//! what holds of all of them, and [`encoding_laws`] the bytes of every encoding.

pub mod encoding_laws;
pub mod error;
pub mod execution_phase;
pub mod extrinsic_digest;
pub mod fraud_proof;
pub mod hashing;
pub mod header;
pub mod laws;
pub mod primitives;
pub mod proofs;
pub mod receipt;
pub mod scale;
pub mod storage_keys;
pub mod storage_proof;
