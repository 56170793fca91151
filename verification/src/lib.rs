//! Schnorr signatures over the prime-order group G1 of the BLS12-381 curve.
//!
//! The group arithmetic, the scalar-field arithmetic, the hash function and the
//! random source are those of the arkworks, `sha2` and `rand` crates. Around
//! them this crate states, and proves with Verus, what key generation, signing
//! and verification compute.

pub mod base_field;
pub mod digest;
pub mod group;
pub mod scalar;
pub mod schnorr;
pub mod theorems;
