use zkdpp::canonical::JsonValue;
use zkdpp::predicate::PredicateId;
use zkdpp::zkp::{
    validate_proof_package, verify_proof, ProofPackage, PublicInputs, VerificationKey, ZkpError,
};

fn make_test_package() -> ProofPackage {
    ProofPackage {
        predicate_id: PredicateId::new("RECYCLED_CONTENT_GTE", "V1"),
        proof: "00".repeat(64),
        public_inputs: PublicInputs {
            threshold: Some(20),
            commitment_root: "01".repeat(32),
            product_binding: "02".repeat(32),
            requester_binding: "03".repeat(32),
            timestamp: None,
            extra: JsonValue::Null,
        },
        nonce: "04".repeat(16),
        generated_at: 1704067200,
        supplier_signature: None,
    }
}

fn make_test_vkey() -> VerificationKey {
    VerificationKey {
        predicate_id: PredicateId::new("RECYCLED_CONTENT_GTE", "V1"),
        key: "00".repeat(32),
        circuit_hash: "00".repeat(32),
    }
}

#[test]
fn test_predicate_id_canonical() {
    let id = PredicateId::new("RECYCLED_CONTENT_GTE", "V1");
    assert_eq!(id.canonical(), "RECYCLED_CONTENT_GTE_V1");

    let id2 = PredicateId::new("CERT_VALID", "1.0.0");
    assert_eq!(id2.canonical(), "CERT_VALID_1_0_0");
}

#[test]
fn test_validate_proof_package() {
    let package = make_test_package();
    assert!(validate_proof_package(&package).is_ok());
}

#[test]
fn test_validate_proof_package_invalid_root() {
    let mut package = make_test_package();
    package.public_inputs.commitment_root = "invalid".to_string();
    assert!(matches!(
        validate_proof_package(&package),
        Err(ZkpError::InvalidPublicInputs)
    ));
}

#[test]
fn test_validate_proof_package_wrong_length() {
    let mut package = make_test_package();
    package.public_inputs.commitment_root = "00".repeat(16);
    assert!(matches!(
        validate_proof_package(&package),
        Err(ZkpError::InvalidPublicInputs)
    ));
}

#[test]
fn test_verify_proof_structure() {
    let package = make_test_package();
    let vkey = make_test_vkey();

    assert!(matches!(
        verify_proof(&package, &vkey),
        Err(ZkpError::VerificationFailed)
    ));
}

#[test]
fn test_verify_proof_wrong_predicate() {
    let package = make_test_package();
    let mut vkey = make_test_vkey();
    vkey.predicate_id = PredicateId::new("CARBON_FOOTPRINT_LTE", "V1");

    match verify_proof(&package, &vkey) {
        Err(ZkpError::VerificationKeyNotFound(name)) => {
            assert_eq!(name, "RECYCLED_CONTENT_GTE_V1");
        },
        other => panic!("expected VerificationKeyNotFound, got {:?}", other),
    }
}

#[test]
fn validate_rejects_bad_proof_and_nonce() {
    let mut package = make_test_package();
    package.proof = "xyz".to_string();
    assert!(matches!(
        validate_proof_package(&package),
        Err(ZkpError::InvalidProofFormat)
    ));

    let mut package2 = make_test_package();
    package2.nonce = "123".to_string();
    assert!(matches!(
        validate_proof_package(&package2),
        Err(ZkpError::InvalidProofFormat)
    ));
}
