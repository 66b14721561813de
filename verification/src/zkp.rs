//! Proof packages as a verifier consumes them: structural validation
//! of hex-encoded fields, and the (fail-closed) verification entry
//! point. Actual circuit verification belongs to the external prover
//! toolchain; until it is wired in, verification always fails rather
//! than ever returning a false positive.

use vstd::prelude::*;
use crate::canonical::JsonValue;
use crate::hex::{from_hex, is_hex_str, HexError};
use crate::predicate::{dots_to_underscores, PredicateId};
use crate::strutil::str_eq;

verus! {

/// Errors during proof validation and verification.
#[derive(Debug)]
pub enum ZkpError {
    /// The proof bytes are not valid hex.
    InvalidProofFormat,
    /// A public input is not a 32-byte hex value.
    InvalidPublicInputs,
    /// No verification key matches the predicate; carries its
    /// canonical name.
    VerificationKeyNotFound(String),
    /// The proof did not verify.
    VerificationFailed,
    /// A hex field failed to decode.
    HexDecode(HexError),
}

/// Public inputs of a proof, visible to the verifier.
#[derive(Debug)]
pub struct PublicInputs {
    /// The predicate-specific threshold or comparison value.
    pub threshold: Option<u64>,
    /// Merkle root of the supplier's commitment, hex-encoded.
    pub commitment_root: String,
    /// Binding to the product identifier, hex-encoded.
    pub product_binding: String,
    /// Binding to the requester identifier, hex-encoded.
    pub requester_binding: String,
    /// Timestamp for time-based predicates.
    pub timestamp: Option<u64>,
    /// Additional predicate-specific public inputs.
    pub extra: JsonValue,
}

/// A complete proof package ready for verification.
#[derive(Debug)]
pub struct ProofPackage {
    /// The predicate being proved.
    pub predicate_id: PredicateId,
    /// The proof bytes, hex-encoded.
    pub proof: String,
    /// Public inputs visible to the verifier.
    pub public_inputs: PublicInputs,
    /// Nonce against replay, hex-encoded.
    pub nonce: String,
    /// When the proof was generated (unix seconds).
    pub generated_at: u64,
    /// Supplier's signature over the package, if any.
    pub supplier_signature: Option<String>,
}

/// A verification key for a predicate circuit.
#[derive(Debug)]
pub struct VerificationKey {
    /// The predicate this key verifies.
    pub predicate_id: PredicateId,
    /// The verification key bytes, hex-encoded.
    pub key: String,
    /// Hash of the circuit, for integrity checks.
    pub circuit_hash: String,
}

/// The outcome of a verification attempt.
#[derive(Debug)]
pub struct VerificationResult {
    /// Whether the proof verified.
    pub valid: bool,
    /// The predicate that was checked.
    pub predicate_id: PredicateId,
    /// The public inputs that were checked.
    pub public_inputs: PublicInputs,
    /// When verification ran (unix seconds).
    pub verified_at: u64,
    /// The failure message, if any.
    pub error: Option<String>,
}

/// A 32-byte value spelled in hex: 64 hex digits.
pub open spec fn is_hex_32_field(s: Seq<char>) -> bool {
    is_hex_str(s) && s.len() == 64
}

/// What structural validation of a proof package requires: proof and
/// nonce are hex, and the root and both bindings are 32-byte hex
/// values.
pub open spec fn validate_package_spec(p: ProofPackage) -> Result<(), ZkpError> {
    if !is_hex_str(p.proof@) {
        Err(ZkpError::InvalidProofFormat)
    } else if !is_hex_32_field(p.public_inputs.commitment_root@) {
        Err(ZkpError::InvalidPublicInputs)
    } else if !is_hex_32_field(p.public_inputs.product_binding@) {
        Err(ZkpError::InvalidPublicInputs)
    } else if !is_hex_32_field(p.public_inputs.requester_binding@) {
        Err(ZkpError::InvalidPublicInputs)
    } else if !is_hex_str(p.nonce@) {
        Err(ZkpError::InvalidProofFormat)
    } else {
        Ok(())
    }
}

/// Validates a proof package's structure without verifying the proof:
/// every hex field decodes and the 32-byte fields have 64 digits.
pub fn validate_proof_package(package: &ProofPackage) -> (r: Result<(), ZkpError>)
    ensures
        r is Ok <==> validate_package_spec(*package) is Ok,
        r matches Err(e) ==> validate_package_spec(*package) matches Err(e2) && (e matches
            ZkpError::InvalidProofFormat <==> e2 is InvalidProofFormat) && (e matches
            ZkpError::InvalidPublicInputs <==> e2 is InvalidPublicInputs),
{
    if from_hex(package.proof.as_str()).is_err() {
        return Err(ZkpError::InvalidProofFormat);
    }
    match from_hex(package.public_inputs.commitment_root.as_str()) {
        Ok(root_bytes) => {
            if root_bytes.len() != 32 {
                return Err(ZkpError::InvalidPublicInputs);
            }
        },
        Err(_) => {
            return Err(ZkpError::InvalidPublicInputs);
        },
    }
    match from_hex(package.public_inputs.product_binding.as_str()) {
        Ok(product_bytes) => {
            if product_bytes.len() != 32 {
                return Err(ZkpError::InvalidPublicInputs);
            }
        },
        Err(_) => {
            return Err(ZkpError::InvalidPublicInputs);
        },
    }
    match from_hex(package.public_inputs.requester_binding.as_str()) {
        Ok(requester_bytes) => {
            if requester_bytes.len() != 32 {
                return Err(ZkpError::InvalidPublicInputs);
            }
        },
        Err(_) => {
            return Err(ZkpError::InvalidPublicInputs);
        },
    }
    if from_hex(package.nonce.as_str()).is_err() {
        return Err(ZkpError::InvalidProofFormat);
    }
    Ok(())
}

/// Verifies a proof against a verification key. The predicate ids
/// must match and the hex fields must decode; actual circuit
/// verification is not wired in, so this fails closed rather than
/// ever returning a false positive.
pub fn verify_proof(package: &ProofPackage, vkey: &VerificationKey) -> (r: Result<
    VerificationResult, ZkpError>)
    ensures
        r is Err,
        !(package.predicate_id.name@ == vkey.predicate_id.name@
            && package.predicate_id.version@ == vkey.predicate_id.version@) ==> (r matches Err(
        ZkpError::VerificationKeyNotFound(s)) && s@ == package.predicate_id.name@ + seq!['_']
            + dots_to_underscores(package.predicate_id.version@)),
        (package.predicate_id.name@ == vkey.predicate_id.name@ && package.predicate_id.version@
            == vkey.predicate_id.version@ && is_hex_str(package.proof@) && is_hex_str(vkey.key@))
            ==> r matches Err(ZkpError::VerificationFailed),
        (package.predicate_id.name@ == vkey.predicate_id.name@ && package.predicate_id.version@
            == vkey.predicate_id.version@ && !(is_hex_str(package.proof@) && is_hex_str(
        vkey.key@))) ==> r matches Err(ZkpError::HexDecode(_)),
{
    let names_match = str_eq(package.predicate_id.name.as_str(), vkey.predicate_id.name.as_str());
    let versions_match = str_eq(package.predicate_id.version.as_str(),
        vkey.predicate_id.version.as_str());
    if !(names_match && versions_match) {
        return Err(ZkpError::VerificationKeyNotFound(package.predicate_id.canonical()));
    }
    if let Err(e) = from_hex(package.proof.as_str()) {
        return Err(ZkpError::HexDecode(e));
    }
    if let Err(e) = from_hex(vkey.key.as_str()) {
        return Err(ZkpError::HexDecode(e));
    }
    // circuit verification is the external toolchain's job: fail
    // closed until it is wired in
    Err(ZkpError::VerificationFailed)
}

} // verus!
