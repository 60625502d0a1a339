//! Verification of Groth16 and PLONK zero-knowledge proofs over the BN254
//! curve.
//!
//! The crate models field elements canonically (a fixed-width big integer
//! with a proved decimal codec), validates verification keys, curve points
//! and the byte-level shape of proofs and keys before any pairing work, and
//! dispatches the algebraic pairing checks to the `gnark-bn254-verifier`
//! crate behind a small set of trusted wrappers.

pub mod codec;
pub mod dispatch;
pub mod error;
pub mod key;
pub mod points;
pub mod shape;
pub mod u252;
