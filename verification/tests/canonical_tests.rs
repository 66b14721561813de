use zkdpp::canonical::{canonicalize, hash_claim, JsonValue};
use zkdpp::hashing::hash_bytes;
use zkdpp::hex::to_hex;

fn num(s: &str) -> JsonValue {
    JsonValue::Num(s.to_string())
}

fn obj(entries: Vec<(&str, JsonValue)>) -> JsonValue {
    JsonValue::Obj(entries.into_iter().map(|(k, v)| (k.to_string(), v)).collect())
}

#[test]
fn test_canonicalize_sorts_keys() {
    let value = obj(vec![("z", num("1")), ("a", num("2")), ("m", num("3"))]);
    let canonical = canonicalize(&value);
    assert_eq!(canonical, r#"{"a":2,"m":3,"z":1}"#);
}

#[test]
fn test_canonicalize_nested() {
    let inner = obj(vec![("z", num("1")), ("a", num("2"))]);
    let value = obj(vec![("outer", inner)]);
    let canonical = canonicalize(&value);
    assert_eq!(canonical, r#"{"outer":{"a":2,"z":1}}"#);
}

#[test]
fn test_hash_claim_deterministic() {
    let claim = obj(vec![
        ("type", JsonValue::Str("recycled_content".to_string())),
        ("value", num("25")),
        ("unit", JsonValue::Str("percent".to_string())),
    ]);
    let hash1 = hash_claim(&claim);
    let hash2 = hash_claim(&claim);
    assert_eq!(hash1, hash2);
}

#[test]
fn test_hash_claim_key_order_independent() {
    let claim1 = obj(vec![("a", num("1")), ("b", num("2"))]);
    let claim2 = obj(vec![("b", num("2")), ("a", num("1"))]);
    let hash1 = hash_claim(&claim1);
    let hash2 = hash_claim(&claim2);
    assert_eq!(hash1, hash2);
}

#[test]
fn test_hex_roundtrip() {
    let bytes = hash_bytes(b"test");
    let hex_str = to_hex(bytes.as_slice());
    let parsed = zkdpp::hex::from_hex(&hex_str).unwrap();
    assert_eq!(bytes, parsed);
}

#[test]
fn canonicalize_scalars_and_arrays() {
    assert_eq!(canonicalize(&JsonValue::Null), "null");
    assert_eq!(canonicalize(&JsonValue::Bool(true)), "true");
    assert_eq!(canonicalize(&JsonValue::Bool(false)), "false");
    assert_eq!(canonicalize(&JsonValue::Str("hi".to_string())), r#""hi""#);
    let arr = JsonValue::Arr(vec![num("1"), num("2"), JsonValue::Null]);
    assert_eq!(canonicalize(&arr), "[1,2,null]");
}

#[test]
fn canonicalize_escapes_strings() {
    let value = JsonValue::Str("a\"b\\c\nd\u{01}".to_string());
    assert_eq!(canonicalize(&value), "\"a\\\"b\\\\c\\nd\\u0001\"");
}

#[test]
fn canonicalize_matches_reference_json() {
    // the canonical form must byte-match serde_json's compact output
    // of a key-sorted value: that is what verifiers recompute
    let value = obj(vec![
        ("b", JsonValue::Arr(vec![num("1"), JsonValue::Str("x".to_string())])),
        ("a", JsonValue::Bool(false)),
    ]);
    let reference: serde_json::Value =
        serde_json::from_str(r#"{"a":false,"b":[1,"x"]}"#).unwrap();
    assert_eq!(canonicalize(&value), serde_json::to_string(&reference).unwrap());
}

#[test]
fn blake3_known_digest() {
    // BLAKE3 of the empty string, from the reference test vectors
    let digest = hash_bytes(b"");
    assert_eq!(
        to_hex(digest.as_slice()),
        "af1349b9f5f9a1a6a0404dea36dcc9499bcb25c9adc112b7cc9a93cae41f3262"
    );
}
