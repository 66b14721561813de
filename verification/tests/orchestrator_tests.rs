use zkdpp::canonical::JsonValue;
use zkdpp::encode::ClaimData;
use zkdpp::hex::from_hex;
use zkdpp::keys::KeyPair;
use zkdpp::orchestrator::{
    assemble_proof_package, build_commitment_record, prepare_proof_request, GenerateProofInput,
    ProofError, WitnessRequest,
};
use zkdpp::witness::{
    build_recycled_content_prover_toml, build_substance_not_in_list_prover_toml,
    pad_merkle_indices, pad_merkle_path, pad_substances, WitnessError,
};

fn num(s: &str) -> JsonValue {
    JsonValue::Num(s.to_string())
}

fn text(s: &str) -> JsonValue {
    JsonValue::Str(s.to_string())
}

fn obj(entries: Vec<(&str, JsonValue)>) -> JsonValue {
    JsonValue::Obj(entries.into_iter().map(|(k, v)| (k.to_string(), v)).collect())
}

fn claim(claim_type: &str, value: JsonValue, unit: &str) -> ClaimData {
    ClaimData {
        claim_type: claim_type.to_string(),
        value,
        unit: unit.to_string(),
        record: JsonValue::Null,
    }
}

fn sample_claims() -> Vec<ClaimData> {
    vec![
        claim("recycled_content", num("25"), "percent"),
        claim("carbon_footprint", num("12.34"), "kg"),
        claim(
            "certification",
            obj(vec![("valid_from", num("100")), ("valid_until", num("2000000000"))]),
            "",
        ),
    ]
}

fn request(predicate: &str, index: usize) -> GenerateProofInput {
    GenerateProofInput {
        commitment_id: "c-1".to_string(),
        predicate_id: predicate.to_string(),
        claim_index: index,
        threshold: Some(20),
        timestamp: None,
        extra: None,
        product_id: "prod-1".to_string(),
        requester_id: "req-1".to_string(),
    }
}

#[test]
fn commitment_record_roundtrip() {
    let kp = KeyPair::generate();
    let claims = sample_claims();
    let ids = vec!["a".to_string(), "b".to_string(), "c".to_string()];
    let rec =
        build_commitment_record("id-1".to_string(), ids, &claims, &kp, 1_700_000_000, Some(30))
            .unwrap();
    assert_eq!(rec.claim_count, 3);
    assert_eq!(rec.root.len(), 64);
    assert_eq!(rec.valid_until, Some(1_700_000_000 + 30 * 86400));
    assert!(!rec.revoked);

    // the stored signature verifies over the root bytes under the
    // stored public key
    let pk = zkdpp::keys::PublicKey::from_hex(&rec.public_key).unwrap();
    let root_bytes = from_hex(&rec.root).unwrap();
    assert!(pk.verify_hex(root_bytes.as_slice(), &rec.signature).unwrap());
}

#[test]
fn empty_commitment_fails() {
    let kp = KeyPair::generate();
    let claims: Vec<ClaimData> = Vec::new();
    let r = build_commitment_record("id".to_string(), Vec::new(), &claims, &kp, 0, None);
    assert!(matches!(
        r,
        Err(ProofError::Merkle(zkdpp::merkle::CommitmentError::EmptyClaims))
    ));
}

#[test]
fn prepare_recycled_content_proof() {
    let kp = KeyPair::generate();
    let claims = sample_claims();
    let ids = vec!["a".to_string(), "b".to_string(), "c".to_string()];
    let rec =
        build_commitment_record("id-1".to_string(), ids, &claims, &kp, 1_700_000_000, None)
            .unwrap();

    let prepared = prepare_proof_request(
        Some(&rec),
        &claims,
        request("RECYCLED_CONTENT_GTE_V1", 0),
        1_700_000_100,
    )
    .unwrap();

    assert_eq!(prepared.predicate.name, "RECYCLED_CONTENT_GTE");
    assert_eq!(prepared.predicate.version, "V1");
    match &prepared.witness {
        WitnessRequest::RecycledContent(w) => {
            assert_eq!(w.threshold, 20);
            assert_eq!(w.actual_value, 25);
            assert_eq!(w.commitment_root, from_hex(&rec.root).unwrap());
            assert_eq!(w.tree_depth, 2);
            assert_eq!(w.merkle_path.len(), 2);
            // the witness toml serializes
            let toml = build_recycled_content_prover_toml(w).unwrap();
            assert!(toml.starts_with("threshold = \"20\"\n"));
            assert!(toml.contains("actual_value = \"25\""));
            assert!(toml.contains("tree_depth = \"2\""));
        },
        other => panic!("wrong witness: {:?}", other),
    }

    // the package assembles with the prepared bindings
    let package = assemble_proof_package(
        prepared,
        rec.root.clone(),
        Some(20),
        "aabb".to_string(),
        "cc".repeat(16),
        1_700_000_200,
        Some("supplier-1".to_string()),
        "req-1".to_string(),
        "prod-1".to_string(),
    );
    assert_eq!(package.public_inputs.commitment_root, rec.root);
    assert_eq!(package.proof, "aabb");
    assert_eq!(package.context.product_id.as_deref(), Some("prod-1"));
}

#[test]
fn prepare_gate_errors() {
    let kp = KeyPair::generate();
    let claims = sample_claims();
    let ids = vec!["a".to_string(), "b".to_string(), "c".to_string()];
    let mut rec =
        build_commitment_record("id-1".to_string(), ids, &claims, &kp, 1_700_000_000, Some(1))
            .unwrap();

    assert!(matches!(
        prepare_proof_request(None, &claims, request("RECYCLED_CONTENT_GTE_V1", 0), 0),
        Err(ProofError::NotFound)
    ));
    assert!(matches!(
        prepare_proof_request(
            Some(&rec),
            &claims,
            request("RECYCLED_CONTENT_GTE_V1", 9),
            1_700_000_100
        ),
        Err(ProofError::IndexOutOfRange)
    ));
    // past the validity window
    assert!(matches!(
        prepare_proof_request(
            Some(&rec),
            &claims,
            request("RECYCLED_CONTENT_GTE_V1", 0),
            1_700_000_000 + 2 * 86400
        ),
        Err(ProofError::Expired)
    ));
    rec.revoked = true;
    assert!(matches!(
        prepare_proof_request(
            Some(&rec),
            &claims,
            request("RECYCLED_CONTENT_GTE_V1", 0),
            1_700_000_100
        ),
        Err(ProofError::Revoked)
    ));
}

#[test]
fn prepare_dispatch_errors() {
    let kp = KeyPair::generate();
    let claims = sample_claims();
    let ids = vec!["a".to_string(), "b".to_string(), "c".to_string()];
    let rec =
        build_commitment_record("id-1".to_string(), ids, &claims, &kp, 1_700_000_000, None)
            .unwrap();

    assert!(matches!(
        prepare_proof_request(Some(&rec), &claims, request("NOSEPARATOR", 0), 1_700_000_100),
        Err(ProofError::Predicate(_))
    ));
    assert!(matches!(
        prepare_proof_request(Some(&rec), &claims, request("UNKNOWN_V1", 0), 1_700_000_100),
        Err(ProofError::PredicateUnsupported)
    ));
    // the value is parsed before the type tag is checked: a carbon
    // claim's decimal fails the integer parse first
    assert!(matches!(
        prepare_proof_request(
            Some(&rec),
            &claims,
            request("RECYCLED_CONTENT_GTE_V1", 1),
            1_700_000_100
        ),
        Err(ProofError::Encode(_))
    ));
    // a parseable value on the wrong claim type is a type mismatch
    assert!(matches!(
        prepare_proof_request(
            Some(&rec),
            &claims,
            request("CARBON_FOOTPRINT_LTE_V1", 0),
            1_700_000_100
        ),
        Err(ProofError::ClaimTypeMismatch)
    ));
    // threshold required
    let mut no_threshold = request("RECYCLED_CONTENT_GTE_V1", 0);
    no_threshold.threshold = None;
    assert!(matches!(
        prepare_proof_request(Some(&rec), &claims, no_threshold, 1_700_000_100),
        Err(ProofError::ThresholdRequired)
    ));
}

#[test]
fn prepare_cert_valid_proof_defaults_timestamp() {
    let kp = KeyPair::generate();
    let claims = sample_claims();
    let ids = vec!["a".to_string(), "b".to_string(), "c".to_string()];
    let rec =
        build_commitment_record("id-1".to_string(), ids, &claims, &kp, 1_700_000_000, None)
            .unwrap();

    let prepared = prepare_proof_request(
        Some(&rec),
        &claims,
        request("CERT_VALID_V1", 2),
        1_700_000_123,
    )
    .unwrap();
    match &prepared.witness {
        WitnessRequest::CertValid(w) => {
            assert_eq!(w.valid_from, 100);
            assert_eq!(w.valid_until, 2_000_000_000);
            assert_eq!(w.check_timestamp, 1_700_000_123);
        },
        other => panic!("wrong witness: {:?}", other),
    }
    assert_eq!(prepared.timestamp, Some(1_700_000_123));
}

#[test]
fn prepare_substance_proof_records_forbidden_hash() {
    let kp = KeyPair::generate();
    let claims = vec![claim(
        "substance_content",
        obj(vec![("substances", JsonValue::Arr(vec![text("lead"), text("tin")]))]),
        "",
    )];
    let ids = vec!["a".to_string()];
    let rec =
        build_commitment_record("id-1".to_string(), ids, &claims, &kp, 1_700_000_000, None)
            .unwrap();

    let mut input = request("SUBSTANCE_NOT_IN_LIST_V1", 0);
    input.extra = Some(obj(vec![(
        "forbidden_substances",
        JsonValue::Arr(vec![text("mercury")]),
    )]));
    let prepared =
        prepare_proof_request(Some(&rec), &claims, input, 1_700_000_100).unwrap();
    match &prepared.witness {
        WitnessRequest::SubstanceNotInList(w) => {
            assert_eq!(w.num_substances, 2);
            assert_eq!(w.num_forbidden, 1);
            let toml = build_substance_not_in_list_prover_toml(w).unwrap();
            assert!(toml.contains("num_substances = \"2\""));
            // the extras carry the forbidden-list hash for packaging
            match &prepared.extra {
                Some(JsonValue::Obj(es)) => {
                    let found = es.iter().any(|(k, v)| {
                        k == "forbiddenListHash"
                            && matches!(v, JsonValue::Str(h)
                                if *h == zkdpp::hex::to_hex(w.forbidden_list_hash.as_slice()))
                    });
                    assert!(found);
                },
                other => panic!("extras not an object: {:?}", other),
            }
        },
        other => panic!("wrong witness: {:?}", other),
    }

    // a request without the forbidden list fails
    let bare = request("SUBSTANCE_NOT_IN_LIST_V1", 0);
    assert!(matches!(
        prepare_proof_request(Some(&rec), &claims, bare, 1_700_000_100),
        Err(ProofError::MissingForbiddenList)
    ));
}

#[test]
fn merkle_padding_to_fixed_depth() {
    // a 3-entry list pads with 5 zero entries to reach length 8
    let indices = vec![1u8, 0u8, 1u8];
    assert_eq!(
        pad_merkle_indices(&indices, 8).unwrap(),
        "[1, 0, 1, 0, 0, 0, 0, 0]"
    );

    let row = vec![7u8; 32];
    let path = vec![row.clone(), row.clone(), row];
    let rendered = pad_merkle_path(&path, 8).unwrap();
    assert_eq!(rendered.matches("[7, 7,").count(), 3);
    let zero_row = format!("[{}]", vec!["0"; 32].join(", "));
    assert_eq!(rendered.matches(zero_row.as_str()).count(), 5);

    // a 9-entry path fails
    let long = vec![vec![0u8; 32]; 9];
    assert!(matches!(pad_merkle_path(&long, 8), Err(WitnessError::PathTooLong)));
    assert!(matches!(
        pad_merkle_indices(&vec![0u8; 9], 8),
        Err(WitnessError::IndicesTooLong)
    ));
    assert!(matches!(
        pad_substances(&vec![vec![0u8; 32]; 33], 32),
        Err(WitnessError::SubstanceListTooLong)
    ));
    let padded = pad_substances(&vec![vec![1u8; 32]], 32).unwrap();
    assert_eq!(padded.len(), 32);
    assert_eq!(padded[1], vec![0u8; 32]);
}

#[test]
fn command_response_shapes() {
    let ok: zkdpp::api::CommandResponse<u32> = zkdpp::api::CommandResponse::ok(7);
    assert!(ok.success);
    assert_eq!(ok.data, Some(7));
    assert!(ok.error.is_none());

    let err: zkdpp::api::CommandResponse<u32> = zkdpp::api::CommandResponse::err("nope");
    assert!(!err.success);
    assert!(err.data.is_none());
    assert_eq!(err.error.as_deref(), Some("nope"));
}

#[test]
fn prepare_claim_list_and_root_errors() {
    let kp = KeyPair::generate();
    let claims = sample_claims();
    let ids = vec!["a".to_string(), "b".to_string(), "c".to_string()];
    let mut rec =
        build_commitment_record("id-1".to_string(), ids, &claims, &kp, 1_700_000_000, None)
            .unwrap();

    // fewer resolved claims than the commitment lists
    let short = vec![claim("recycled_content", num("25"), "percent")];
    assert!(matches!(
        prepare_proof_request(
            Some(&rec),
            &short,
            request("RECYCLED_CONTENT_GTE_V1", 0),
            1_700_000_100
        ),
        Err(ProofError::ClaimNotFound)
    ));

    // a stored root that is not 64 hex digits
    rec.root = "zz".to_string();
    assert!(matches!(
        prepare_proof_request(
            Some(&rec),
            &claims,
            request("RECYCLED_CONTENT_GTE_V1", 0),
            1_700_000_100
        ),
        Err(ProofError::InvalidHex)
    ));
}
