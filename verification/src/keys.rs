//! Ed25519 key management: generation, signing of byte strings
//! (notably Merkle roots), and signature verification. Secret key
//! material is owned by the `KeyPair` value and leaves it only through
//! the explicit `secret_bytes` accessor.

use vstd::prelude::*;
use vstd::slice::slice_to_vec;
use ed25519_dalek::{Signer, Verifier};
use crate::hex::{from_hex, hex_decode, hex_of, is_hex_str, to_hex, HexError};

verus! {

/// The public key ed25519-dalek derives from a 32-byte secret key;
/// a function of the secret key alone.
pub uninterp spec fn ed25519_pubkey_of(secret: Seq<u8>) -> Seq<u8>;

/// The RFC 8032 Ed25519 signature over a message: deterministic in
/// the secret key and message alone.
pub uninterp spec fn ed25519_sig_of(secret: Seq<u8>, message: Seq<u8>) -> Seq<u8>;

/// Whether 32 bytes are a well-formed Ed25519 public key encoding.
pub uninterp spec fn ed25519_pk_valid(pk: Seq<u8>) -> bool;

/// Whether a signature verifies under a public key and message; a
/// function of the three byte strings alone.
pub uninterp spec fn ed25519_verifies(pk: Seq<u8>, message: Seq<u8>, sig: Seq<u8>) -> bool;

/// Errors in cryptographic operations.
#[derive(Debug, Clone, Copy, PartialEq, Eq, Structural)]
pub enum CryptoError {
    /// A key had the wrong byte length.
    InvalidKeyLength { expected: usize, got: usize },
    /// A signature had the wrong byte length.
    InvalidSignature,
    /// The key bytes do not encode a curve point.
    KeyParsing,
    /// A hex field failed to decode.
    HexDecode(HexError),
}

/// A keypair for signing commitments; owns its secret key bytes.
#[derive(Debug)]
pub struct KeyPair {
    secret: Vec<u8>,
}

/// A serializable representation of a keypair, both keys hex-encoded.
#[derive(Debug)]
pub struct SerializableKeyPair {
    /// Secret key bytes (hex-encoded).
    pub secret_key: String,
    /// Public key bytes (hex-encoded).
    pub public_key: String,
}

/// A shareable public key for verification, hex-encoded.
#[derive(Debug)]
pub struct PublicKey {
    /// Public key bytes (hex-encoded).
    pub key: String,
}

impl View for KeyPair {
    type V = Seq<u8>;

    closed spec fn view(&self) -> Seq<u8> {
        self.secret@
    }
}

/// Relies on ed25519_dalek::SigningKey::generate with OsRng: a fresh
/// 32-byte secret key from the operating system's secure randomness.
#[verifier::external_body]
fn dalek_generate() -> (r: Vec<u8>)
    ensures
        r@.len() == 32,
{
    let signing_key = ed25519_dalek::SigningKey::generate(&mut rand::rngs::OsRng);
    signing_key.to_bytes().to_vec()
}

/// Relies on ed25519_dalek::SigningKey::from_bytes and verifying_key:
/// the public key is a function of the secret key alone.
#[verifier::external_body]
fn dalek_public_key(secret: &Vec<u8>) -> (r: Vec<u8>)
    requires
        secret@.len() == 32,
    ensures
        r@ == ed25519_pubkey_of(secret@),
        r@.len() == 32,
{
    let mut key_bytes = [0u8; 32];
    key_bytes.copy_from_slice(secret.as_slice());
    let signing_key = ed25519_dalek::SigningKey::from_bytes(&key_bytes);
    signing_key.verifying_key().to_bytes().to_vec()
}

/// Relies on ed25519_dalek's Signer::sign for SigningKey: RFC 8032
/// signing, a 64-byte signature deterministic in key and message.
#[verifier::external_body]
fn dalek_sign(secret: &Vec<u8>, message: &[u8]) -> (r: Vec<u8>)
    requires
        secret@.len() == 32,
    ensures
        r@ == ed25519_sig_of(secret@, message@),
        r@.len() == 64,
{
    let mut key_bytes = [0u8; 32];
    key_bytes.copy_from_slice(secret.as_slice());
    let signing_key = ed25519_dalek::SigningKey::from_bytes(&key_bytes);
    signing_key.sign(message).to_bytes().to_vec()
}

/// Relies on ed25519_dalek::VerifyingKey::from_bytes (None exactly on
/// bytes that are no valid key) and Verifier::verify (whether the
/// signature verifies, a function of key, message and signature).
#[verifier::external_body]
fn dalek_verify(pk: &Vec<u8>, message: &[u8], sig: &Vec<u8>) -> (r: Option<bool>)
    requires
        pk@.len() == 32,
        sig@.len() == 64,
    ensures
        r is Some <==> ed25519_pk_valid(pk@),
        r matches Some(b) ==> b == ed25519_verifies(pk@, message@, sig@),
{
    let mut key_bytes = [0u8; 32];
    key_bytes.copy_from_slice(pk.as_slice());
    let verifying_key = match ed25519_dalek::VerifyingKey::from_bytes(&key_bytes) {
        Ok(k) => k,
        Err(_) => {
            return None;
        },
    };
    let mut sig_bytes = [0u8; 64];
    sig_bytes.copy_from_slice(sig.as_slice());
    let signature = ed25519_dalek::Signature::from_bytes(&sig_bytes);
    Some(verifying_key.verify(message, &signature).is_ok())
}

impl KeyPair {
    /// A keypair holds exactly 32 secret bytes.
    pub open spec fn wf(self) -> bool {
        self@.len() == 32
    }

    /// Generates a new random keypair from OS entropy.
    pub fn generate() -> (r: KeyPair)
        ensures
            r.wf(),
    {
        KeyPair { secret: dalek_generate() }
    }

    /// A keypair from raw secret key bytes; exactly 32 are accepted.
    pub fn from_bytes(secret_bytes: &[u8]) -> (r: Result<KeyPair, CryptoError>)
        ensures
            r is Ok <==> secret_bytes@.len() == 32,
            r matches Ok(kp) ==> kp.wf() && kp@ == secret_bytes@,
            r matches Err(e) ==> e == (CryptoError::InvalidKeyLength {
                expected: 32usize,
                got: secret_bytes@.len() as usize,
            }),
    {
        if secret_bytes.len() != 32 {
            return Err(CryptoError::InvalidKeyLength { expected: 32, got: secret_bytes.len() });
        }
        Ok(KeyPair { secret: slice_to_vec(secret_bytes) })
    }

    /// A keypair from a hex-encoded secret key.
    pub fn from_hex(hex_str: &str) -> (r: Result<KeyPair, CryptoError>)
        ensures
            r is Ok <==> is_hex_str(hex_str@) && hex_str@.len() == 64,
            r matches Ok(kp) ==> kp.wf() && kp@ == hex_decode(hex_str@),
            r matches Err(CryptoError::HexDecode(he)) ==> !is_hex_str(hex_str@) && (he
                == HexError::OddLength <==> hex_str@.len() % 2 != 0),
            is_hex_str(hex_str@) && hex_str@.len() != 64 ==> r == Err::<KeyPair, CryptoError>(
                CryptoError::InvalidKeyLength {
                    expected: 32usize,
                    got: (hex_str@.len() / 2) as usize,
                }),
    {
        let bytes = match from_hex(hex_str) {
            Ok(b) => b,
            Err(e) => {
                return Err(CryptoError::HexDecode(e));
            },
        };
        KeyPair::from_bytes(bytes.as_slice())
    }

    /// The public key, hex-encoded.
    pub fn public_key(&self) -> (r: PublicKey)
        requires
            self.wf(),
        ensures
            r.key@ == hex_of(ed25519_pubkey_of(self@)),
    {
        let pk = dalek_public_key(&self.secret);
        PublicKey { key: to_hex(pk.as_slice()) }
    }

    /// The raw secret key bytes (handle with care).
    pub fn secret_bytes(&self) -> (r: Vec<u8>)
        requires
            self.wf(),
        ensures
            r@ == self@,
            r@.len() == 32,
    {
        crate::hashing::copy_bytes(&self.secret)
    }

    /// The keypair in its portable, hex-encoded form.
    pub fn to_serializable(&self) -> (r: SerializableKeyPair)
        requires
            self.wf(),
        ensures
            r.secret_key@ == hex_of(self@),
            r.public_key@ == hex_of(ed25519_pubkey_of(self@)),
    {
        let secret = self.secret_bytes();
        SerializableKeyPair {
            secret_key: to_hex(secret.as_slice()),
            public_key: self.public_key().key,
        }
    }

    /// A keypair restored from its portable form.
    pub fn from_serializable(s: &SerializableKeyPair) -> (r: Result<KeyPair, CryptoError>)
        ensures
            r is Ok <==> is_hex_str(s.secret_key@) && s.secret_key@.len() == 64,
            r matches Ok(kp) ==> kp.wf() && kp@ == hex_decode(s.secret_key@),
    {
        KeyPair::from_hex(s.secret_key.as_str())
    }

    /// Signs a message; Ed25519 signatures are deterministic for the
    /// same key and message.
    pub fn sign(&self, message: &[u8]) -> (r: Vec<u8>)
        requires
            self.wf(),
        ensures
            r@ == ed25519_sig_of(self@, message@),
            r@.len() == 64,
    {
        dalek_sign(&self.secret, message)
    }

    /// Signs a message and hex-encodes the signature.
    pub fn sign_hex(&self, message: &[u8]) -> (r: String)
        requires
            self.wf(),
        ensures
            r@ == hex_of(ed25519_sig_of(self@, message@)),
    {
        let sig = self.sign(message);
        to_hex(sig.as_slice())
    }
}

impl PublicKey {
    /// A public key from hex; exactly 64 hex digits are accepted, and
    /// the given spelling is kept.
    pub fn from_hex(hex_str: &str) -> (r: Result<PublicKey, CryptoError>)
        ensures
            r is Ok <==> is_hex_str(hex_str@) && hex_str@.len() == 64,
            r matches Ok(p) ==> p.key@ == hex_str@,
            r matches Err(CryptoError::HexDecode(he)) ==> !is_hex_str(hex_str@) && (he
                == HexError::OddLength <==> hex_str@.len() % 2 != 0),
            is_hex_str(hex_str@) && hex_str@.len() != 64 ==> r == Err::<PublicKey, CryptoError>(
                CryptoError::InvalidKeyLength {
                    expected: 32usize,
                    got: (hex_str@.len() / 2) as usize,
                }),
    {
        let bytes = match from_hex(hex_str) {
            Ok(b) => b,
            Err(e) => {
                return Err(CryptoError::HexDecode(e));
            },
        };
        if bytes.len() != 32 {
            return Err(CryptoError::InvalidKeyLength { expected: 32, got: bytes.len() });
        }
        Ok(PublicKey { key: String::from_str(hex_str) })
    }

    /// Verifies a 64-byte signature over a message. `Ok(b)` says
    /// whether the signature verifies; malformed keys and signatures
    /// are errors, distinct from a verification result of false.
    pub fn verify(&self, message: &[u8], signature: &[u8]) -> (r: Result<bool, CryptoError>)
        ensures
            r matches Ok(b) ==> is_hex_str(self.key@) && self.key@.len() == 64
                && ed25519_pk_valid(hex_decode(self.key@)) && signature@.len() == 64 && b
                == ed25519_verifies(hex_decode(self.key@), message@, signature@),
            r is Ok <==> signature@.len() == 64 && is_hex_str(self.key@) && self.key@.len() == 64
                && ed25519_pk_valid(hex_decode(self.key@)),
            signature@.len() != 64 ==> r == Err::<bool, CryptoError>(
                CryptoError::InvalidSignature),
    {
        if signature.len() != 64 {
            return Err(CryptoError::InvalidSignature);
        }
        let key_bytes = match from_hex(self.key.as_str()) {
            Ok(b) => b,
            Err(e) => {
                return Err(CryptoError::HexDecode(e));
            },
        };
        if key_bytes.len() != 32 {
            return Err(CryptoError::InvalidKeyLength { expected: 32, got: key_bytes.len() });
        }
        let sig = slice_to_vec(signature);
        match dalek_verify(&key_bytes, message, &sig) {
            Some(b) => Ok(b),
            None => Err(CryptoError::KeyParsing),
        }
    }

    /// Verifies a hex-encoded signature over a message.
    pub fn verify_hex(&self, message: &[u8], signature_hex: &str) -> (r: Result<bool,
        CryptoError>)
        ensures
            r matches Ok(b) ==> is_hex_str(signature_hex@) && signature_hex@.len() == 128
                && is_hex_str(self.key@) && self.key@.len() == 64 && ed25519_pk_valid(hex_decode(
                self.key@)) && b == ed25519_verifies(hex_decode(self.key@), message@, hex_decode(
                signature_hex@)),
            r is Ok <==> is_hex_str(signature_hex@) && signature_hex@.len() == 128 && is_hex_str(
                self.key@) && self.key@.len() == 64 && ed25519_pk_valid(hex_decode(self.key@)),
    {
        let sig_bytes = match from_hex(signature_hex) {
            Ok(b) => b,
            Err(e) => {
                return Err(CryptoError::HexDecode(e));
            },
        };
        if sig_bytes.len() != 64 {
            return Err(CryptoError::InvalidSignature);
        }
        self.verify(message, sig_bytes.as_slice())
    }
}

/// Generates a new keypair.
pub fn generate_keypair() -> (r: KeyPair)
    ensures
        r.wf(),
{
    KeyPair::generate()
}

/// Signs a message with a keypair.
pub fn sign(keypair: &KeyPair, message: &[u8]) -> (r: Vec<u8>)
    requires
        keypair.wf(),
    ensures
        r@ == ed25519_sig_of(keypair@, message@),
        r@.len() == 64,
{
    keypair.sign(message)
}

/// Verifies a signature against a message under a public key.
pub fn verify(public_key: &PublicKey, message: &[u8], signature: &[u8]) -> (r: Result<bool,
    CryptoError>)
    ensures
        r matches Ok(b) ==> is_hex_str(public_key.key@) && public_key.key@.len() == 64
            && ed25519_pk_valid(hex_decode(public_key.key@)) && signature@.len() == 64 && b
            == ed25519_verifies(hex_decode(public_key.key@), message@, signature@),
        r is Ok <==> signature@.len() == 64 && is_hex_str(public_key.key@)
            && public_key.key@.len() == 64 && ed25519_pk_valid(hex_decode(public_key.key@)),
{
    public_key.verify(message, signature)
}

} // verus!
