use zkdpp::binding::normalize_binding;
use zkdpp::canonical::JsonValue;
use zkdpp::encode::{
    compute_claim_hash, domain_product_bytes, extract_cert_window, hash_claim_bytes,
    hash_claim_type, hash_claim_value, hash_substance_list, hash_unit, parse_scaled_u32_value,
    parse_string_list, parse_u32_value, parse_u64_timestamp, substance_id_from_str, ClaimData,
    EncodeError,
};
use zkdpp::hashing::{concat_bytes, hash_bytes};
use zkdpp::hex::{from_hex, to_hex, HexError};
use zkdpp::predicate::{parse_predicate_id, PredicateError};

fn num(s: &str) -> JsonValue {
    JsonValue::Num(s.to_string())
}

fn text(s: &str) -> JsonValue {
    JsonValue::Str(s.to_string())
}

fn obj(entries: Vec<(&str, JsonValue)>) -> JsonValue {
    JsonValue::Obj(entries.into_iter().map(|(k, v)| (k.to_string(), v)).collect())
}

fn claim(claim_type: &str, value: JsonValue, unit: &str) -> ClaimData {
    ClaimData {
        claim_type: claim_type.to_string(),
        value,
        unit: unit.to_string(),
        record: JsonValue::Null,
    }
}

#[test]
fn recycled_content_leaf_layout() {
    // leaf == H(H("recycled_content") ++ be64(25) ++ H("percent")), 72 bytes
    let th = hash_claim_type("recycled_content");
    let uh = hash_unit("percent");
    let leaf = hash_claim_value(&th, 25, &uh);

    let mut buf = Vec::new();
    buf.extend_from_slice(th.as_slice());
    buf.extend_from_slice(&25u64.to_be_bytes());
    buf.extend_from_slice(uh.as_slice());
    assert_eq!(buf.len(), 72);
    assert_eq!(leaf, hash_bytes(buf.as_slice()));

    let c = claim("recycled_content", num("25"), "percent");
    assert_eq!(compute_claim_hash(&c).unwrap(), leaf);
}

#[test]
fn carbon_footprint_scaling() {
    let c = claim("carbon_footprint", num("25.34"), "kg");
    let th = hash_claim_type("carbon_footprint");
    let uh = hash_unit("kg");
    assert_eq!(compute_claim_hash(&c).unwrap(), hash_claim_value(&th, 2534, &uh));

    assert_eq!(parse_scaled_u32_value(&num("25")), Ok(2500));
    assert_eq!(parse_scaled_u32_value(&num("25.3")), Ok(2530));
    // tiny float noise within a millionth still rounds cleanly
    assert_eq!(parse_scaled_u32_value(&num("25.340000000000003")), Ok(2534));
    assert_eq!(parse_scaled_u32_value(&num("25.339999999")), Ok(2534));
    assert_eq!(parse_scaled_u32_value(&num("12.345")), Err(EncodeError::TooManyDecimals));
    assert_eq!(parse_scaled_u32_value(&text("25")), Ok(2500));
    assert_eq!(
        parse_scaled_u32_value(&text("25.5")),
        Err(EncodeError::InvalidNumericString)
    );
}

#[test]
fn numeric_value_parsing() {
    assert_eq!(parse_u32_value(&num("25")), Ok(25));
    assert_eq!(parse_u32_value(&num("25.000")), Ok(25));
    assert_eq!(parse_u32_value(&text("42")), Ok(42));
    assert_eq!(parse_u32_value(&num("25.5")), Err(EncodeError::NotANumber));
    assert_eq!(parse_u32_value(&num("99999999999")), Err(EncodeError::OutOfRange));
    assert_eq!(parse_u32_value(&text("12x")), Err(EncodeError::InvalidNumericString));
    assert_eq!(parse_u32_value(&JsonValue::Bool(true)), Err(EncodeError::NotANumber));
}

#[test]
fn certificate_window_aliases() {
    let value = obj(vec![
        ("validFrom", num("100")),
        ("notAfter", text("2024-01-01T00:00:00Z")),
    ]);
    assert_eq!(extract_cert_window(&value).unwrap(), (100, 1704067200));

    assert_eq!(
        extract_cert_window(&text("nope")),
        Err(EncodeError::NotAnObject)
    );
    assert_eq!(
        extract_cert_window(&obj(vec![("valid_until", num("5"))])),
        Err(EncodeError::MissingValidFrom)
    );
    assert_eq!(
        extract_cert_window(&obj(vec![("valid_from", num("5"))])),
        Err(EncodeError::MissingValidUntil)
    );
    assert_eq!(
        extract_cert_window(&obj(vec![("valid_from", num("5")), ("valid_until", text("eh"))])),
        Err(EncodeError::InvalidTimestamp)
    );
}

#[test]
fn timestamp_parsing() {
    assert_eq!(parse_u64_timestamp(&num("1700000000")), Ok(1700000000));
    assert_eq!(parse_u64_timestamp(&text("1700000000")), Ok(1700000000));
    assert_eq!(parse_u64_timestamp(&text("2024-01-01T00:00:00Z")), Ok(1704067200));
    assert_eq!(
        parse_u64_timestamp(&JsonValue::Null),
        Err(EncodeError::InvalidTimestamp)
    );
}

#[test]
fn substance_identifiers() {
    // a plain name is hashed
    assert_eq!(substance_id_from_str("lead"), hash_bytes(b"lead"));
    // a 64-hex name decodes, lower-cased
    let hex_name = "AB".repeat(32);
    let id = substance_id_from_str(&hex_name);
    assert_eq!(to_hex(id.as_slice()), "ab".repeat(32));
}

#[test]
fn substance_list_leaf() {
    let ids = vec![substance_id_from_str("lead"), substance_id_from_str("cadmium")];
    let th = hash_claim_type("substance_content");
    let domain = domain_product_bytes();
    assert_eq!(domain, b"SUBP".to_vec());

    let seed = hash_bytes(concat_bytes(&domain, &th).as_slice());
    let step1 = hash_bytes(concat_bytes(&seed, &ids[0]).as_slice());
    let expected = hash_bytes(concat_bytes(&step1, &ids[1]).as_slice());
    assert_eq!(hash_substance_list(&domain, &th, &ids, 2), expected);

    let c = claim(
        "substance_content",
        obj(vec![("substances", JsonValue::Arr(vec![text("lead"), text("cadmium")]))]),
        "",
    );
    assert_eq!(compute_claim_hash(&c).unwrap(), expected);
}

#[test]
fn string_claim_types() {
    let c = claim("battery_chemistry", text("LFP"), "");
    let th = hash_claim_type("battery_chemistry");
    let vh = substance_id_from_str("LFP");
    assert_eq!(compute_claim_hash(&c).unwrap(), hash_claim_bytes(&th, &vh));

    let bad = claim("cobalt_origin_country", num("5"), "");
    assert_eq!(compute_claim_hash(&bad), Err(EncodeError::NotAString));
}

#[test]
fn unknown_claim_type_falls_back_to_record_hash() {
    let record = obj(vec![("k", num("1"))]);
    let c = ClaimData {
        claim_type: "color".to_string(),
        value: text("red"),
        unit: String::new(),
        record,
    };
    let expected = zkdpp::canonical::hash_claim(&obj(vec![("k", num("1"))]));
    assert_eq!(compute_claim_hash(&c).unwrap(), expected);
}

#[test]
fn substance_claim_shape_errors() {
    let not_obj = claim("substance_content", text("x"), "");
    assert_eq!(compute_claim_hash(&not_obj), Err(EncodeError::NotAnObject));

    let missing = claim("substance_content", obj(vec![("other", num("1"))]), "");
    assert_eq!(compute_claim_hash(&missing), Err(EncodeError::MissingSubstances));

    let not_arr = claim("substance_content", obj(vec![("substances", num("1"))]), "");
    assert_eq!(compute_claim_hash(&not_arr), Err(EncodeError::NotAnArray));

    let bad_item = claim(
        "substance_content",
        obj(vec![("substances", JsonValue::Arr(vec![num("1")]))]),
        "",
    );
    assert_eq!(compute_claim_hash(&bad_item), Err(EncodeError::ItemNotAString));

    assert!(matches!(
        parse_string_list(&JsonValue::Arr(vec![text("a")])),
        Ok(ref l) if l.len() == 1 && l[0] == "a"
    ));
}

#[test]
fn binding_normalization() {
    // a raw identifier is hashed under its prefix
    assert_eq!(
        normalize_binding("product", "abc123"),
        to_hex(hash_bytes(b"product:abc123").as_slice())
    );
    // an already-hashed value passes through lower-cased
    let pre_hashed = "AB".repeat(32);
    assert_eq!(normalize_binding("product", &pre_hashed), "ab".repeat(32));
}

#[test]
fn predicate_id_parsing() {
    let p = parse_predicate_id("RECYCLED_CONTENT_GTE_V1").unwrap();
    assert_eq!(p.name, "RECYCLED_CONTENT_GTE");
    assert_eq!(p.version, "V1");

    let p2 = parse_predicate_id("CERT_VALID@V2").unwrap();
    assert_eq!(p2.name, "CERT_VALID");
    assert_eq!(p2.version, "V2");

    assert!(matches!(
        parse_predicate_id("NOSEPARATOR"),
        Err(PredicateError::MissingVersion)
    ));
}

#[test]
fn hex_error_variants() {
    assert!(matches!(from_hex("abc"), Err(HexError::OddLength)));
    assert!(matches!(from_hex("0g"), Err(HexError::InvalidChar)));
    assert_eq!(from_hex("00ff").unwrap(), vec![0u8, 255u8]);
}
