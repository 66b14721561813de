//! Verifiable product-compliance commitments: canonical hashing of claims,
//! Merkle commitments with inclusion proofs, domain-separated claim
//! encodings, Ed25519 signing over roots, and witness assembly for an
//! external prover.

pub mod binding;
pub mod canonical;
pub mod encode;
pub mod api;
pub mod hashing;
pub mod hex;
pub mod keys;
pub mod merkle;
pub mod numbers;
pub mod orchestrator;
pub mod predicate;
pub mod strutil;
pub mod witness;
pub mod zkp;
