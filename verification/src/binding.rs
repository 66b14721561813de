//! Binding normalization: ties a proof to a product or requester
//! identity. A raw identifier is hashed under a fixed prefix; an
//! already-hashed 64-character hex value passes through lower-cased.

use vstd::prelude::*;
use vstd::string::StrSliceExecFns;
use vstd::string::StringExecFns;
use crate::hashing::{hash_str, hash_str_spec};
use crate::hex::{hex_of, is_hex_digit_char, lower_hex, to_hex, to_lower_hex};
use crate::strutil::push_char;

verus! {

/// Whether a string is the hex spelling of 32 bytes: exactly 64 hex
/// digits, either case.
pub open spec fn is_hex_32_spec(s: Seq<char>) -> bool {
    s.len() == 64 && forall|k: int| 0 <= k < s.len() ==> is_hex_digit_char(#[trigger] s[k])
}

/// Decides `is_hex_32_spec`.
pub fn is_hex_32(value: &str) -> (r: bool)
    ensures
        r == is_hex_32_spec(value@),
{
    let len = value.unicode_len();
    if len != 64 {
        return false;
    }
    let mut i: usize = 0;
    while i < len
        invariant
            len == value@.len(),
            i <= len,
            forall|k: int| 0 <= k < i ==> is_hex_digit_char(#[trigger] value@[k]),
        decreases len - i,
    {
        let c = value.get_char(i);
        let cu = c as u32;
        let ok = (48 <= cu && cu <= 57) || (97 <= cu && cu <= 102) || (65 <= cu && cu <= 70);
        if !ok {
            return false;
        }
        i = i + 1;
    }
    true
}

/// The binding payload `prefix ++ ":" ++ value`.
pub open spec fn binding_payload(prefix: Seq<char>, value: Seq<char>) -> Seq<char> {
    prefix + seq![':'] + value
}

/// Hashes `prefix:value` and returns the digest in hex.
pub fn hash_binding(prefix: &str, value: &str) -> (r: String)
    ensures
        r@ == hex_of(hash_str_spec(binding_payload(prefix@, value@))),
        r@.len() == 64,
{
    let mut payload = String::from_str(prefix);
    push_char(&mut payload, ':');
    payload.append(value);
    proof {
        assert(payload@ =~= binding_payload(prefix@, value@));
    }
    let digest = hash_str(payload.as_str());
    to_hex(digest.as_slice())
}

/// Normalizes an identifier into a binding: a 64-hex-digit value is
/// lower-cased and used as-is; anything else is hashed under the
/// prefix.
pub fn normalize_binding(prefix: &str, value: &str) -> (r: String)
    ensures
        is_hex_32_spec(value@) ==> r@ == lower_hex(value@),
        !is_hex_32_spec(value@) ==> r@ == hex_of(hash_str_spec(binding_payload(prefix@,
            value@))),
        r@.len() == 64,
{
    if is_hex_32(value) {
        to_lower_hex(value)
    } else {
        hash_binding(prefix, value)
    }
}

} // verus!
