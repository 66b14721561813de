use zkdpp::hex::to_hex;
use zkdpp::keys::{CryptoError, KeyPair, PublicKey};

#[test]
fn test_generate_keypair() {
    let kp = KeyPair::generate();
    let pk = kp.public_key();
    assert_eq!(pk.key.len(), 64);
}

#[test]
fn test_sign_and_verify() {
    let kp = KeyPair::generate();
    let message = b"Hello, ZK-DPP!";

    let signature = kp.sign(message);
    let pk = kp.public_key();

    assert!(pk.verify(message, signature.as_slice()).unwrap());
}

#[test]
fn test_sign_and_verify_hex() {
    let kp = KeyPair::generate();
    let message = b"Hello, ZK-DPP!";

    let signature_hex = kp.sign_hex(message);
    let pk = kp.public_key();

    assert!(pk.verify_hex(message, &signature_hex).unwrap());
}

#[test]
fn test_invalid_signature() {
    let kp1 = KeyPair::generate();
    let kp2 = KeyPair::generate();
    let message = b"Hello, ZK-DPP!";

    let signature = kp1.sign(message);
    let pk2 = kp2.public_key();

    assert!(!pk2.verify(message, signature.as_slice()).unwrap());
}

#[test]
fn test_wrong_message() {
    let kp = KeyPair::generate();
    let message1 = b"Original message";
    let message2 = b"Different message";

    let signature = kp.sign(message1);
    let pk = kp.public_key();

    assert!(!pk.verify(message2, signature.as_slice()).unwrap());
}

#[test]
fn test_keypair_serialization() {
    let kp = KeyPair::generate();
    let serializable = kp.to_serializable();

    let restored = KeyPair::from_serializable(&serializable).unwrap();

    let message = b"Test message";
    assert_eq!(kp.sign(message), restored.sign(message));
}

#[test]
fn test_from_hex() {
    let kp = KeyPair::generate();
    let hex_secret = to_hex(kp.secret_bytes().as_slice());

    let restored = KeyPair::from_hex(&hex_secret).unwrap();
    assert_eq!(kp.public_key().key, restored.public_key().key);
}

#[test]
fn test_deterministic_signatures() {
    let kp = KeyPair::generate();
    let message = b"Same message";

    let sig1 = kp.sign(message);
    let sig2 = kp.sign(message);

    assert_eq!(sig1, sig2);
}

#[test]
fn key_length_errors() {
    assert!(matches!(
        KeyPair::from_bytes(&[0u8; 16]),
        Err(CryptoError::InvalidKeyLength { expected: 32, got: 16 })
    ));
    assert!(matches!(
        KeyPair::from_hex("abcd"),
        Err(CryptoError::InvalidKeyLength { expected: 32, got: 2 })
    ));
    assert!(matches!(KeyPair::from_hex("zz"), Err(CryptoError::HexDecode(_))));
    assert!(matches!(
        PublicKey::from_hex(&"ab".repeat(16)),
        Err(CryptoError::InvalidKeyLength { expected: 32, got: 16 })
    ));
}

#[test]
fn signature_length_errors() {
    let kp = KeyPair::generate();
    let pk = kp.public_key();
    assert!(matches!(
        pk.verify(b"m", &[0u8; 10]),
        Err(CryptoError::InvalidSignature)
    ));
    assert!(matches!(
        pk.verify_hex(b"m", &"00".repeat(10)),
        Err(CryptoError::InvalidSignature)
    ));
}

#[test]
fn public_key_roundtrip() {
    let kp = KeyPair::generate();
    let pk = kp.public_key();
    let restored = PublicKey::from_hex(&pk.key).unwrap();
    assert_eq!(restored.key, pk.key);
}
