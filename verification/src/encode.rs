//! Per-claim-type encoding: turns a claim's semantic value into its
//! 32-byte, domain-separated leaf hash. Each claim type has a fixed
//! byte layout; unrecognized types fall back to the canonical-JSON
//! hash of the whole claim record. Every shape error is typed and
//! recoverable.

use vstd::prelude::*;
use vstd::string::StrSliceExecFns;
use crate::binding::{is_hex_32, is_hex_32_spec};
use crate::canonical::{hash_claim, hash_claim_spec, JsonValue};
use crate::hashing::{
    be64, be64_bytes, blake3_of, concat_bytes, hash_bytes, hash_concat, hash_str, hash_str_spec,
};
use crate::hex::{from_hex, hex_decode, is_hex_digit_char, lower_hex, to_lower_hex};
use crate::numbers::{
    all_digits, all_zeros, check_all_digits, dec_val, dec_value_of, digit_val, find_dot, frac2,
    frac_tail, int_lit_value, is_digit_char, scaled100_value, split_dot, tail_rounding,
    zeros_from,
};
use crate::predicate::find_char;
use crate::strutil::str_eq;

verus! {

broadcast use crate::hashing::lemma_bytes_deep_view;

/// The factor by which carbon-footprint values are scaled, preserving
/// two decimal digits.
pub const CARBON_FOOTPRINT_SCALE: u32 = 100;

/// A claim value whose shape does not match its declared type.
#[derive(Debug, Clone, Copy, PartialEq, Eq, Structural)]
pub enum EncodeError {
    /// The value is not a number where one is required.
    NotANumber,
    /// A numeric value does not fit the required range.
    OutOfRange,
    /// A numeric string did not parse.
    InvalidNumericString,
    /// A decimal value carries more precision than can be kept.
    TooManyDecimals,
    /// The value is not an object where one is required.
    NotAnObject,
    /// No validity-window start key was found.
    MissingValidFrom,
    /// No validity-window end key was found.
    MissingValidUntil,
    /// A timestamp is neither unix seconds nor RFC 3339.
    InvalidTimestamp,
    /// The value is not an array where one is required.
    NotAnArray,
    /// A list item is not a string.
    ItemNotAString,
    /// The substances list is missing.
    MissingSubstances,
    /// The value is not a string where one is required.
    NotAString,
}

/// A claim as the encoder sees it: its type tag, semantic value and
/// unit, and the full structured record used by the fallback hash.
#[derive(Debug)]
pub struct ClaimData {
    pub claim_type: String,
    pub value: JsonValue,
    pub unit: String,
    pub record: JsonValue,
}

// ---------------------------------------------------------------------
// numeric value parsing over structured values
// ---------------------------------------------------------------------

/// What `parse_u32_value` accepts: an integer-valued number literal or
/// an all-digit string, within 32 bits.
pub open spec fn parse_u32_spec(v: JsonValue) -> Option<u32> {
    match v {
        JsonValue::Num(lit) => match int_lit_value(lit@) {
            Some(n) => if n <= u32::MAX {
                Some(n as u32)
            } else {
                None
            },
            None => None,
        },
        JsonValue::Str(s) => if all_digits(s@) && dec_val(s@) <= u32::MAX {
            Some(dec_val(s@) as u32)
        } else {
            None
        },
        _ => None,
    }
}

/// The error `parse_u32_value` reports, per rejected input.
pub open spec fn parse_u32_err(v: JsonValue) -> EncodeError {
    match v {
        JsonValue::Num(lit) => if int_lit_value(lit@) is Some {
            EncodeError::OutOfRange
        } else {
            EncodeError::NotANumber
        },
        JsonValue::Str(s) => EncodeError::InvalidNumericString,
        _ => EncodeError::NotANumber,
    }
}

/// Reads a claim value as a non-negative 32-bit integer. Accepts an
/// integer number literal (also with an all-zero fraction) and an
/// all-digit numeric string; everything else is a typed error.
pub fn parse_u32_value(value: &JsonValue) -> (r: Result<u32, EncodeError>)
    ensures
        r matches Ok(n) ==> parse_u32_spec(*value) == Some(n),
        r is Ok <==> parse_u32_spec(*value) is Some,
        r matches Err(e) ==> e == parse_u32_err(*value),
{
    match value {
        JsonValue::Num(lit) => {
            match find_dot(lit.as_str()) {
                None => {
                    if !check_all_digits(lit.as_str()) {
                        return Err(EncodeError::NotANumber);
                    }
                    match dec_value_of(lit.as_str()) {
                        None => Err(EncodeError::OutOfRange),
                        Some(n) => {
                            if n <= u32::MAX as u64 {
                                Ok(n as u32)
                            } else {
                                Err(EncodeError::OutOfRange)
                            }
                        },
                    }
                },
                Some(d) => {
                    let len = lit.as_str().unicode_len();
                    proof {
                        lemma_find_char_in_bounds(lit@, '.', d as int);
                    }
                    let ip = lit.as_str().substring_char(0, d);
                    let fp = lit.as_str().substring_char(d + 1, len);
                    proof {
                        assert(ip@ =~= lit@.take(d as int));
                        assert(fp@ =~= lit@.skip(d + 1));
                    }
                    if !check_all_digits(ip) {
                        return Err(EncodeError::NotANumber);
                    }
                    if fp.unicode_len() == 0 {
                        return Err(EncodeError::NotANumber);
                    }
                    if !zeros_from(fp, 0) {
                        proof {
                            assert(fp@.skip(0) =~= fp@);
                        }
                        return Err(EncodeError::NotANumber);
                    }
                    proof {
                        assert(fp@.skip(0) =~= fp@);
                    }
                    match dec_value_of(ip) {
                        None => Err(EncodeError::OutOfRange),
                        Some(n) => {
                            if n <= u32::MAX as u64 {
                                Ok(n as u32)
                            } else {
                                Err(EncodeError::OutOfRange)
                            }
                        },
                    }
                },
            }
        },
        JsonValue::Str(s) => {
            match dec_value_of(s.as_str()) {
                Some(n) => {
                    if n <= u32::MAX as u64 {
                        Ok(n as u32)
                    } else {
                        Err(EncodeError::InvalidNumericString)
                    }
                },
                None => Err(EncodeError::InvalidNumericString),
            }
        },
        _ => Err(EncodeError::NotANumber),
    }
}

/// What `parse_scaled_u32_value` accepts: a decimal scaled by 100 with
/// at most a millionth of rounding error, or an all-digit string whose
/// value times 100 fits 32 bits.
pub open spec fn parse_scaled_spec(v: JsonValue) -> Option<u32> {
    match v {
        JsonValue::Num(lit) => match scaled100_value(lit@) {
            Some(n) => if n <= u32::MAX {
                Some(n as u32)
            } else {
                None
            },
            None => None,
        },
        JsonValue::Str(s) => if all_digits(s@) && dec_val(s@) <= u32::MAX && dec_val(s@) * 100
            <= u32::MAX {
            Some((dec_val(s@) * 100) as u32)
        } else {
            None
        },
        _ => None,
    }
}

/// The error `parse_scaled_u32_value` reports, per rejected input.
pub open spec fn parse_scaled_err(v: JsonValue) -> EncodeError {
    match v {
        JsonValue::Num(lit) => if scaled100_value(lit@) is Some {
            EncodeError::OutOfRange
        } else {
            EncodeError::TooManyDecimals
        },
        JsonValue::Str(s) => if all_digits(s@) && dec_val(s@) <= u32::MAX {
            EncodeError::OutOfRange
        } else {
            EncodeError::InvalidNumericString
        },
        _ => EncodeError::NotANumber,
    }
}

/// The dotted-literal arm of `parse_scaled_u32_value`: integer part
/// times 100 plus the first two fractional digits, with the remaining
/// digits rounding within a millionth or failing.
fn parse_scaled_fraction(lit: &str, d: usize) -> (r: Result<u32, EncodeError>)
    requires
        find_char(lit@, '.') == Some(d as int),
    ensures
        r matches Ok(n) ==> scaled100_value(lit@) == Some(n as nat),
        r is Ok <==> (scaled100_value(lit@) is Some && scaled100_value(lit@)->Some_0 <= u32::MAX),
        r matches Err(e) ==> e == (if scaled100_value(lit@) is Some {
            EncodeError::OutOfRange
        } else {
            EncodeError::TooManyDecimals
        }),
{
    let len = lit.unicode_len();
    proof {
        lemma_find_char_in_bounds(lit@, '.', d as int);
    }
    let ip = lit.substring_char(0, d);
    let fp = lit.substring_char(d + 1, len);
    proof {
        assert(ip@ =~= lit@.take(d as int));
        assert(fp@ =~= lit@.skip(d + 1));
        assert(split_dot(lit@) == Some((ip@, fp@)));
    }
    if !check_all_digits(ip) {
        return Err(EncodeError::TooManyDecimals);
    }
    let flen = fp.unicode_len();
    if flen == 0 {
        return Err(EncodeError::TooManyDecimals);
    }
    if !check_all_digits(fp) {
        return Err(EncodeError::TooManyDecimals);
    }
    let d0: u32 = (fp.get_char(0) as u32) - 48;
    let d1: u32 = if flen >= 2 {
        (fp.get_char(1) as u32) - 48
    } else {
        0
    };
    let f2v: u32 = d0 * 10 + d1;
    proof {
        assert(f2v == frac2(fp@));
    }
    let mut up: bool = false;
    if flen <= 2 {
        proof {
            assert(frac_tail(fp@) =~= Seq::<char>::empty());
            assert(tail_rounding(frac_tail(fp@)) == Some(false));
        }
    } else if zeros_from(fp, 2) {
        proof {
            assert(frac_tail(fp@) =~= fp@.skip(2));
            assert(tail_rounding(frac_tail(fp@)) == Some(false));
        }
    } else if flen >= 8 {
        let ghost tail = fp@.skip(2);
        proof {
            assert(frac_tail(fp@) =~= tail);
            assert(!all_zeros(tail));
            assert(forall|k: int| 0 <= k < tail.len() ==> #[trigger] tail[k] == fp@[k + 2]);
        }
        let t0 = fp.get_char(2);
        let t1 = fp.get_char(3);
        let t2 = fp.get_char(4);
        let t3 = fp.get_char(5);
        let t4 = fp.get_char(6);
        let t5 = fp.get_char(7);
        if t0 == '0' && t1 == '0' && t2 == '0' && t3 == '0' && t4 == '0' {
            proof {
                assert forall|k: int| 0 <= k < 5 implies #[trigger] tail[k] == '0' by {
                    assert(tail[k] == fp@[k + 2]);
                }
            }
            if t5 == '0' {
                proof {
                    assert(tail[5] == '0');
                    assert(forall|k: int| 0 <= k < 6 ==> #[trigger] tail[k] == '0');
                    assert(tail_rounding(tail) == Some(false));
                }
            } else if t5 == '1' && zeros_from(fp, 8) {
                proof {
                    assert(tail[5] == '1');
                    assert(tail.skip(6) =~= fp@.skip(8));
                    assert(tail_rounding(tail) == Some(false));
                }
            } else {
                proof {
                    assert(tail[5] == fp@[7]);
                    assert(tail[5] != '0');
                    if t5 == '1' {
                        assert(tail.skip(6) =~= fp@.skip(8));
                        assert(!all_zeros(tail.skip(6)));
                    }
                    assert(tail[0] == '0');
                    assert(tail_rounding(tail) is None);
                }
                return Err(EncodeError::TooManyDecimals);
            }
        } else if t0 == '9' && t1 == '9' && t2 == '9' && t3 == '9' && t4 == '9' && t5 == '9' {
            proof {
                assert forall|k: int| 0 <= k < 6 implies #[trigger] tail[k] == '9' by {
                    assert(tail[k] == fp@[k + 2]);
                }
                assert(tail[0] == '9');
                assert(tail_rounding(tail) == Some(true));
            }
            up = true;
        } else {
            proof {
                assert(tail[0] == fp@[2]);
                assert(tail[1] == fp@[3]);
                assert(tail[2] == fp@[4]);
                assert(tail[3] == fp@[5]);
                assert(tail[4] == fp@[6]);
                assert(tail[5] == fp@[7]);
                assert(tail_rounding(tail) is None);
            }
            return Err(EncodeError::TooManyDecimals);
        }
    } else {
        proof {
            let tail = fp@.skip(2);
            assert(frac_tail(fp@) =~= tail);
            assert(!all_zeros(tail));
            assert(tail.len() < 6);
            assert(tail_rounding(tail) is None);
        }
        return Err(EncodeError::TooManyDecimals);
    }
    match dec_value_of(ip) {
        None => {
            proof {
                assert(dec_val(ip@) > u64::MAX);
            }
            Err(EncodeError::OutOfRange)
        },
        Some(n) => {
            if n > u32::MAX as u64 {
                return Err(EncodeError::OutOfRange);
            }
            let total: u64 = n * 100 + (f2v as u64) + (if up {
                1u64
            } else {
                0u64
            });
            if total <= u32::MAX as u64 {
                proof {
                    assert(scaled100_value(lit@) == Some(total as nat));
                }
                Ok(total as u32)
            } else {
                Err(EncodeError::OutOfRange)
            }
        },
    }
}

proof fn lemma_find_char_in_bounds(s: Seq<char>, c: char, i: int)
    requires
        find_char(s, c) == Some(i),
    ensures
        0 <= i < s.len(),
        s[i] == c,
    decreases s.len(),
{
    if s.len() == 0 {
    } else if s[0] == c {
    } else {
        lemma_find_char_in_bounds(s.drop_first(), c, i - 1);
    }
}

/// Reads a claim value scaled by 100 (two decimal digits kept) as a
/// 32-bit integer; fails when the remaining fractional precision
/// exceeds one millionth.
pub fn parse_scaled_u32_value(value: &JsonValue) -> (r: Result<u32, EncodeError>)
    ensures
        r matches Ok(n) ==> parse_scaled_spec(*value) == Some(n),
        r is Ok <==> parse_scaled_spec(*value) is Some,
        r matches Err(e) ==> e == parse_scaled_err(*value),
{
    match value {
        JsonValue::Num(lit) => {
            match find_dot(lit.as_str()) {
                None => {
                    if !check_all_digits(lit.as_str()) {
                        return Err(EncodeError::TooManyDecimals);
                    }
                    match dec_value_of(lit.as_str()) {
                        None => Err(EncodeError::OutOfRange),
                        Some(n) => {
                            if n <= (u32::MAX / 100) as u64 {
                                Ok((n as u32) * 100)
                            } else {
                                Err(EncodeError::OutOfRange)
                            }
                        },
                    }
                },
                Some(d) => parse_scaled_fraction(lit.as_str(), d),
            }
        },
        JsonValue::Str(s) => {
            match dec_value_of(s.as_str()) {
                Some(n) => {
                    if n <= u32::MAX as u64 {
                        if n <= (u32::MAX / 100) as u64 {
                            Ok((n as u32) * 100)
                        } else {
                            Err(EncodeError::OutOfRange)
                        }
                    } else {
                        Err(EncodeError::InvalidNumericString)
                    }
                },
                None => Err(EncodeError::InvalidNumericString),
            }
        },
        _ => Err(EncodeError::NotANumber),
    }
}

// ---------------------------------------------------------------------
// timestamps and certificate validity windows
// ---------------------------------------------------------------------

/// The unix seconds chrono reads from an RFC 3339 timestamp string,
/// taken as unsigned; a function of the string alone.
pub uninterp spec fn rfc3339_epoch_of(s: Seq<char>) -> Option<u64>;

/// Relies on chrono's DateTime::parse_from_rfc3339 and
/// DateTime::timestamp: parses an RFC 3339 timestamp string and takes
/// its unix seconds, a function of the string alone.
#[verifier::external_body]
fn parse_rfc3339_epoch(s: &str) -> (r: Option<u64>)
    ensures
        r == rfc3339_epoch_of(s@),
{
    match chrono::DateTime::parse_from_rfc3339(s) {
        Ok(dt) => Some(dt.timestamp() as u64),
        Err(_) => None,
    }
}

/// What a timestamp value means: a non-negative integer of unix
/// seconds, a numeric string, or an RFC 3339 string.
pub open spec fn ts_value_spec(v: JsonValue) -> Option<u64> {
    match v {
        JsonValue::Num(lit) => if all_digits(lit@) && dec_val(lit@) <= u64::MAX {
            Some(dec_val(lit@) as u64)
        } else {
            None
        },
        JsonValue::Str(s) => if all_digits(s@) && dec_val(s@) <= u64::MAX {
            Some(dec_val(s@) as u64)
        } else {
            rfc3339_epoch_of(s@)
        },
        _ => None,
    }
}

/// Reads a timestamp claim field as unix seconds.
pub fn parse_u64_timestamp(value: &JsonValue) -> (r: Result<u64, EncodeError>)
    ensures
        r matches Ok(n) ==> ts_value_spec(*value) == Some(n),
        r is Ok <==> ts_value_spec(*value) is Some,
        r matches Err(e) ==> e == EncodeError::InvalidTimestamp,
{
    match value {
        JsonValue::Num(lit) => {
            match dec_value_of(lit.as_str()) {
                Some(n) => Ok(n),
                None => Err(EncodeError::InvalidTimestamp),
            }
        },
        JsonValue::Str(s) => {
            match dec_value_of(s.as_str()) {
                Some(n) => Ok(n),
                None => {
                    match parse_rfc3339_epoch(s.as_str()) {
                        Some(t) => Ok(t),
                        None => Err(EncodeError::InvalidTimestamp),
                    }
                },
            }
        },
        _ => Err(EncodeError::InvalidTimestamp),
    }
}

/// The value under the first entry with the given key, if any.
pub open spec fn lookup_key(es: Seq<(String, JsonValue)>, k: Seq<char>) -> Option<JsonValue>
    decreases es.len(),
{
    if es.len() == 0 {
        None
    } else if es[0].0@ == k {
        Some(es[0].1)
    } else {
        lookup_key(es.drop_first(), k)
    }
}

pub proof fn lemma_lookup_at(es: Seq<(String, JsonValue)>, k: Seq<char>, i: int)
    requires
        0 <= i < es.len(),
        es[i].0@ == k,
        forall|q: int| 0 <= q < i ==> #[trigger] es[q].0@ != k,
    ensures
        lookup_key(es, k) == Some(es[i].1),
    decreases es.len(),
{
    if i == 0 {
    } else {
        assert(es[0].0@ != k);
        lemma_lookup_at(es.drop_first(), k, i - 1);
    }
}

pub proof fn lemma_lookup_none(es: Seq<(String, JsonValue)>, k: Seq<char>)
    requires
        forall|q: int| 0 <= q < es.len() ==> #[trigger] es[q].0@ != k,
    ensures
        lookup_key(es, k) is None,
    decreases es.len(),
{
    if es.len() > 0 {
        lemma_lookup_none(es.drop_first(), k);
    }
}

/// Looks up a key in an object's entries, first match wins.
pub fn get_key<'a>(es: &'a Vec<(String, JsonValue)>, key: &str) -> (r: Option<&'a JsonValue>)
    ensures
        r is Some <==> lookup_key(es@, key@) is Some,
        r matches Some(x) ==> lookup_key(es@, key@) == Some(*x),
{
    let len = es.len();
    let mut i: usize = 0;
    while i < len
        invariant
            len == es@.len(),
            i <= len,
            forall|q: int| 0 <= q < i ==> #[trigger] es@[q].0@ != key@,
        decreases len - i,
    {
        if str_eq(es[i].0.as_str(), key) {
            proof {
                lemma_lookup_at(es@, key@, i as int);
            }
            return Some(&es[i].1);
        }
        i = i + 1;
    }
    proof {
        lemma_lookup_none(es@, key@);
    }
    None
}

/// The first of two optional values.
pub open spec fn or_opt(a: Option<JsonValue>, b: Option<JsonValue>) -> Option<JsonValue> {
    if a is Some {
        a
    } else {
        b
    }
}

/// The validity-window start field, under any of its accepted names.
pub open spec fn cert_from_field(es: Seq<(String, JsonValue)>) -> Option<JsonValue> {
    or_opt(lookup_key(es, "valid_from"@), or_opt(lookup_key(es, "validFrom"@), or_opt(
        lookup_key(es, "not_before"@), lookup_key(es, "notBefore"@))))
}

/// The validity-window end field, under any of its accepted names.
pub open spec fn cert_until_field(es: Seq<(String, JsonValue)>) -> Option<JsonValue> {
    or_opt(lookup_key(es, "valid_until"@), or_opt(lookup_key(es, "validUntil"@), or_opt(
        lookup_key(es, "expires_at"@), or_opt(lookup_key(es, "expiresAt"@), or_opt(lookup_key(
            es, "not_after"@), lookup_key(es, "notAfter"@))))))
}

/// What extracting a certificate's validity window yields on each
/// input: the parsed (start, end) unix seconds, or the first
/// applicable shape error.
pub open spec fn cert_window_spec(v: JsonValue) -> Result<(u64, u64), EncodeError> {
    match v {
        JsonValue::Obj(es) => match cert_from_field(es@) {
            None => Err(EncodeError::MissingValidFrom),
            Some(fv) => match cert_until_field(es@) {
                None => Err(EncodeError::MissingValidUntil),
                Some(uv) => match ts_value_spec(fv) {
                    None => Err(EncodeError::InvalidTimestamp),
                    Some(f) => match ts_value_spec(uv) {
                        None => Err(EncodeError::InvalidTimestamp),
                        Some(u) => Ok((f, u)),
                    },
                },
            },
        },
        _ => Err(EncodeError::NotAnObject),
    }
}

/// Extracts a certificate claim's validity window: start and end unix
/// seconds under any accepted key alias.
pub fn extract_cert_window(value: &JsonValue) -> (r: Result<(u64, u64), EncodeError>)
    ensures
        r == cert_window_spec(*value),
{
    let es = match value {
        JsonValue::Obj(es) => es,
        _ => {
            return Err(EncodeError::NotAnObject);
        },
    };
    let from_val = match get_key(es, "valid_from") {
        Some(x) => x,
        None => match get_key(es, "validFrom") {
            Some(x) => x,
            None => match get_key(es, "not_before") {
                Some(x) => x,
                None => match get_key(es, "notBefore") {
                    Some(x) => x,
                    None => {
                        return Err(EncodeError::MissingValidFrom);
                    },
                },
            },
        },
    };
    let until_val = match get_key(es, "valid_until") {
        Some(x) => x,
        None => match get_key(es, "validUntil") {
            Some(x) => x,
            None => match get_key(es, "expires_at") {
                Some(x) => x,
                None => match get_key(es, "expiresAt") {
                    Some(x) => x,
                    None => match get_key(es, "not_after") {
                        Some(x) => x,
                        None => match get_key(es, "notAfter") {
                            Some(x) => x,
                            None => {
                                return Err(EncodeError::MissingValidUntil);
                            },
                        },
                    },
                },
            },
        },
    };
    let valid_from = match parse_u64_timestamp(from_val) {
        Ok(f) => f,
        Err(_) => {
            return Err(EncodeError::InvalidTimestamp);
        },
    };
    let valid_until = match parse_u64_timestamp(until_val) {
        Ok(u) => u,
        Err(_) => {
            return Err(EncodeError::InvalidTimestamp);
        },
    };
    Ok((valid_from, valid_until))
}

// ---------------------------------------------------------------------
// substance lists and string values
// ---------------------------------------------------------------------

/// The strings of an all-string array, if the value is one.
pub open spec fn string_list_spec(v: JsonValue) -> Option<Seq<Seq<char>>> {
    match v {
        JsonValue::Arr(items) => if forall|i: int| 0 <= i < items@.len() ==> #[trigger] items@[
            i] is Str {
            Some(Seq::new(items@.len(), |i: int| items@[i]->Str_0@))
        } else {
            None
        },
        _ => None,
    }
}

/// The error `parse_string_list` reports, per rejected input.
pub open spec fn string_list_err(v: JsonValue) -> EncodeError {
    if v is Arr {
        EncodeError::ItemNotAString
    } else {
        EncodeError::NotAnArray
    }
}

/// Reads a claim field as a list of strings.
#[verifier::loop_isolation(false)]
pub fn parse_string_list(value: &JsonValue) -> (r: Result<Vec<String>, EncodeError>)
    ensures
        r matches Ok(l) ==> string_list_spec(*value) == Some(l.deep_view()),
        r is Ok <==> string_list_spec(*value) is Some,
        r matches Err(e) ==> e == string_list_err(*value),
{
    let items = match value {
        JsonValue::Arr(items) => items,
        _ => {
            return Err(EncodeError::NotAnArray);
        },
    };
    let len = items.len();
    let mut out: Vec<String> = Vec::new();
    let mut i: usize = 0;
    while i < len
        invariant
            len == items@.len(),
            i <= len,
            out@.len() == i,
            forall|q: int| 0 <= q < i ==> #[trigger] items@[q] is Str,
            forall|q: int| 0 <= q < i ==> #[trigger] out.deep_view()[q] == items@[q]->Str_0@,
        decreases len - i,
    {
        let ghost old_dv = out.deep_view();
        match &items[i] {
            JsonValue::Str(s) => {
                let copied = s.clone();
                let ghost cv = copied@;
                out.push(copied);
                proof {
                    assert(cv == items@[i as int]->Str_0@);
                    assert forall|q: int| 0 <= q < i + 1 implies #[trigger] out.deep_view()[q]
                        == items@[q]->Str_0@ by {
                        if q < i {
                            assert(out.deep_view()[q] == old_dv[q]);
                        } else {
                            assert(out.deep_view()[q] == cv);
                        }
                    }
                }
            },
            _ => {
                return Err(EncodeError::ItemNotAString);
            },
        }
        i = i + 1;
    }
    proof {
        assert(out.deep_view() =~= Seq::new(items@.len(), |q: int| items@[q]->Str_0@));
    }
    Ok(out)
}

/// A substance's 32-byte identifier: a 64-hex-digit name decodes
/// (lower-cased) to its bytes; any other name is hashed.
pub open spec fn substance_id_spec(s: Seq<char>) -> Seq<u8> {
    if is_hex_32_spec(s) {
        hex_decode(lower_hex(s))
    } else {
        hash_str_spec(s)
    }
}

/// Maps a substance name to its 32-byte identifier.
pub fn substance_id_from_str(value: &str) -> (r: Vec<u8>)
    ensures
        r@ == substance_id_spec(value@),
        r@.len() == 32,
{
    if is_hex_32(value) {
        let lowered = to_lower_hex(value);
        proof {
            assert(lowered@.len() == 64);
            assert forall|k: int| 0 <= k < lowered@.len() implies is_hex_digit_char(
                #[trigger] lowered@[k]) by {
                assert(lowered@[k] == crate::hex::lower_hex_char(value@[k]));
                assert(is_hex_digit_char(value@[k]));
            }
            assert(crate::hex::is_hex_str(lowered@));
        }
        match from_hex(lowered.as_str()) {
            Ok(bytes) => bytes,
            Err(_) => {
                proof {
                    assert(false);
                }
                Vec::new()
            },
        }
    } else {
        hash_str(value)
    }
}

/// The identifiers of a list of substance names, in order.
pub open spec fn substance_ids_spec(names: Seq<Seq<char>>) -> Seq<Seq<u8>> {
    Seq::new(names.len(), |i: int| substance_id_spec(names[i]))
}

/// Maps substance names to their identifiers.
#[verifier::loop_isolation(false)]
pub fn substance_ids(names: &Vec<String>) -> (r: Vec<Vec<u8>>)
    ensures
        r.deep_view() == substance_ids_spec(names.deep_view()),
        r@.len() == names@.len(),
{
    let len = names.len();
    let mut out: Vec<Vec<u8>> = Vec::new();
    let mut i: usize = 0;
    while i < len
        invariant
            len == names@.len(),
            i <= len,
            out@.len() == i,
            forall|q: int| 0 <= q < i ==> #[trigger] out.deep_view()[q] == substance_id_spec(
                names@[q]@),
        decreases len - i,
    {
        let ghost old_dv = out.deep_view();
        let id = substance_id_from_str(names[i].as_str());
        let ghost idv = id@;
        out.push(id);
        proof {
            assert forall|q: int| 0 <= q < i + 1 implies #[trigger] out.deep_view()[q]
                == substance_id_spec(names@[q]@) by {
                if q < i {
                    assert(out.deep_view()[q] == old_dv[q]);
                } else {
                    assert(out.deep_view()[q] == idv);
                }
            }
        }
        i = i + 1;
    }
    proof {
        assert(out.deep_view() =~= substance_ids_spec(names.deep_view()));
    }
    out
}

// ---------------------------------------------------------------------
// leaf hash layouts
// ---------------------------------------------------------------------

/// The ASCII domain tag for a product's own substance list, "SUBP".
pub open spec fn domain_product() -> Seq<u8> {
    seq![83u8, 85u8, 66u8, 80u8]
}

/// The ASCII domain tag for a forbidden-substance list, "SUBF".
pub open spec fn domain_forbidden() -> Seq<u8> {
    seq![83u8, 85u8, 66u8, 70u8]
}

/// The "SUBP" tag as bytes.
pub fn domain_product_bytes() -> (r: Vec<u8>)
    ensures
        r@ == domain_product(),
{
    let mut out: Vec<u8> = Vec::new();
    out.push(83);
    out.push(85);
    out.push(66);
    out.push(80);
    proof {
        assert(out@ =~= domain_product());
    }
    out
}

/// The "SUBF" tag as bytes.
pub fn domain_forbidden_bytes() -> (r: Vec<u8>)
    ensures
        r@ == domain_forbidden(),
{
    let mut out: Vec<u8> = Vec::new();
    out.push(83);
    out.push(85);
    out.push(66);
    out.push(70);
    proof {
        assert(out@ =~= domain_forbidden());
    }
    out
}

/// Hashes a claim-type tag.
pub fn hash_claim_type(claim_type: &str) -> (r: Vec<u8>)
    ensures
        r@ == hash_str_spec(claim_type@),
        r@.len() == 32,
{
    hash_str(claim_type)
}

/// Hashes a unit string.
pub fn hash_unit(unit: &str) -> (r: Vec<u8>)
    ensures
        r@ == hash_str_spec(unit@),
        r@.len() == 32,
{
    hash_str(unit)
}

/// The 72-byte numeric-claim layout: type hash, value as eight
/// big-endian bytes, unit hash — hashed.
pub open spec fn hash_claim_value_spec(th: Seq<u8>, value: u64, uh: Seq<u8>) -> Seq<u8> {
    blake3_of(th + be64(value) + uh)
}

/// Hashes the 72-byte numeric-claim layout.
pub fn hash_claim_value(claim_type_hash: &Vec<u8>, value: u64, unit_hash: &Vec<u8>) -> (r: Vec<
    u8>)
    ensures
        r@ == hash_claim_value_spec(claim_type_hash@, value, unit_hash@),
        r@.len() == 32,
{
    let value_bytes = be64_bytes(value);
    let head = concat_bytes(claim_type_hash, &value_bytes);
    let data = concat_bytes(&head, unit_hash);
    proof {
        assert(data@ =~= claim_type_hash@ + be64(value) + unit_hash@);
    }
    hash_bytes(data.as_slice())
}

/// The 64-byte layout pairing a type hash with a value hash — hashed.
pub open spec fn hash_claim_bytes_spec(th: Seq<u8>, vh: Seq<u8>) -> Seq<u8> {
    blake3_of(th + vh)
}

/// Hashes a type hash together with a 32-byte value hash.
pub fn hash_claim_bytes(claim_type_hash: &Vec<u8>, value_hash: &Vec<u8>) -> (r: Vec<u8>)
    ensures
        r@ == hash_claim_bytes_spec(claim_type_hash@, value_hash@),
        r@.len() == 32,
{
    hash_concat(claim_type_hash, value_hash)
}

/// The 48-byte certificate layout: type hash and the two window
/// timestamps as big-endian bytes — hashed.
pub open spec fn hash_cert_window_spec(th: Seq<u8>, valid_from: u64, valid_until: u64) -> Seq<
    u8> {
    blake3_of(th + be64(valid_from) + be64(valid_until))
}

/// Hashes the 48-byte certificate-window layout.
pub fn hash_cert_window(claim_type_hash: &Vec<u8>, valid_from: u64, valid_until: u64) -> (r: Vec<
    u8>)
    ensures
        r@ == hash_cert_window_spec(claim_type_hash@, valid_from, valid_until),
        r@.len() == 32,
{
    let from_bytes = be64_bytes(valid_from);
    let until_bytes = be64_bytes(valid_until);
    let head = concat_bytes(claim_type_hash, &from_bytes);
    let data = concat_bytes(&head, &until_bytes);
    proof {
        assert(data@ =~= claim_type_hash@ + be64(valid_from) + be64(valid_until));
    }
    hash_bytes(data.as_slice())
}

/// The domain-separated seed of a substance-list fold.
pub open spec fn substance_seed(domain: Seq<u8>, th: Seq<u8>) -> Seq<u8> {
    blake3_of(domain + th)
}

/// The running hash folded over substance identifiers in order.
pub open spec fn chain_hash(cur: Seq<u8>, ids: Seq<Seq<u8>>) -> Seq<u8>
    decreases ids.len(),
{
    if ids.len() == 0 {
        cur
    } else {
        chain_hash(blake3_of(cur + ids[0]), ids.drop_first())
    }
}

/// The leaf hash of a substance list: the seed folded over the first
/// `count` identifiers.
pub open spec fn hash_substance_list_spec(domain: Seq<u8>, th: Seq<u8>, ids: Seq<Seq<u8>>,
    count: nat) -> Seq<u8> {
    chain_hash(substance_seed(domain, th), ids.take(if count <= ids.len() {
        count as int
    } else {
        ids.len() as int
    }))
}

proof fn lemma_chain_snoc(cur: Seq<u8>, ids: Seq<Seq<u8>>, x: Seq<u8>)
    ensures
        chain_hash(cur, ids.push(x)) == blake3_of(chain_hash(cur, ids) + x),
    decreases ids.len(),
{
    if ids.len() == 0 {
        assert(ids.push(x)[0] == x);
        assert(ids.push(x).drop_first() =~= Seq::<Seq<u8>>::empty());
        assert(chain_hash(blake3_of(cur + x), Seq::<Seq<u8>>::empty()) == blake3_of(cur + x));
    } else {
        assert(ids.push(x)[0] == ids[0]);
        assert(ids.push(x).drop_first() =~= ids.drop_first().push(x));
        lemma_chain_snoc(blake3_of(cur + ids[0]), ids.drop_first(), x);
    }
}

/// Folds the chain over identifiers up to `upto`.
#[verifier::loop_isolation(false)]
fn chain_over(seed: Vec<u8>, ids: &Vec<Vec<u8>>, upto: usize) -> (r: Vec<u8>)
    requires
        upto <= ids@.len(),
        seed@.len() == 32,
    ensures
        r@ == chain_hash(seed@, ids.deep_view().take(upto as int)),
        r@.len() == 32,
{
    let ghost seedv = seed@;
    let mut current = seed;
    let mut i: usize = 0;
    proof {
        assert(ids.deep_view().take(0) =~= Seq::<Seq<u8>>::empty());
    }
    while i < upto
        invariant
            i <= upto,
            current@ == chain_hash(seedv, ids.deep_view().take(i as int)),
            current@.len() == 32,
        decreases upto - i,
    {
        proof {
            lemma_chain_snoc(seedv, ids.deep_view().take(i as int), ids.deep_view()[i as int]);
            assert(ids.deep_view().take(i + 1) =~= ids.deep_view().take(i as int).push(
                ids.deep_view()[i as int]));
        }
        current = hash_concat(&current, &ids[i]);
        i = i + 1;
    }
    current
}

/// Folds a domain-separated running hash over the first `count`
/// substance identifiers: the substance-list leaf hash.
pub fn hash_substance_list(domain: &Vec<u8>, claim_type_hash: &Vec<u8>, substances: &Vec<Vec<
    u8>>, count: u32) -> (r: Vec<u8>)
    ensures
        r@ == hash_substance_list_spec(domain@, claim_type_hash@, substances.deep_view(),
            count as nat),
        r@.len() == 32,
{
    let seed = hash_concat(domain, claim_type_hash);
    let len = substances.len();
    let bound: usize = if (count as usize) < len {
        count as usize
    } else {
        len
    };
    chain_over(seed, substances, bound)
}

// ---------------------------------------------------------------------
// the claim dispatcher
// ---------------------------------------------------------------------

/// The leaf hash of a claim, per claim type — or the shape error its
/// value deserves. Unrecognized types hash the whole record
/// canonically.
pub open spec fn compute_claim_hash_spec(c: ClaimData) -> Result<Seq<u8>, EncodeError> {
    let th = hash_str_spec(c.claim_type@);
    if c.claim_type@ == "recycled_content"@ {
        match parse_u32_spec(c.value) {
            Some(n) => Ok(hash_claim_value_spec(th, n as u64, hash_str_spec(c.unit@))),
            None => Err(parse_u32_err(c.value)),
        }
    } else if c.claim_type@ == "carbon_footprint"@ {
        match parse_scaled_spec(c.value) {
            Some(n) => Ok(hash_claim_value_spec(th, n as u64, hash_str_spec(c.unit@))),
            None => Err(parse_scaled_err(c.value)),
        }
    } else if c.claim_type@ == "certification"@ {
        match cert_window_spec(c.value) {
            Ok((f, u)) => Ok(hash_cert_window_spec(th, f, u)),
            Err(e) => Err(e),
        }
    } else if c.claim_type@ == "substance_content"@ {
        match c.value {
            JsonValue::Obj(es) => match lookup_key(es@, "substances"@) {
                None => Err(EncodeError::MissingSubstances),
                Some(x) => match string_list_spec(x) {
                    Some(names) => Ok(hash_substance_list_spec(domain_product(), th,
                        substance_ids_spec(names), names.len())),
                    None => Err(string_list_err(x)),
                },
            },
            _ => Err(EncodeError::NotAnObject),
        }
    } else if c.claim_type@ == "battery_chemistry"@ || c.claim_type@
        == "cobalt_origin_country"@ {
        match c.value {
            JsonValue::Str(s) => Ok(hash_claim_bytes_spec(th, substance_id_spec(s@))),
            _ => Err(EncodeError::NotAString),
        }
    } else {
        Ok(hash_claim_spec(c.record))
    }
}

/// Computes a claim's 32-byte leaf hash, dispatching on its type tag.
pub fn compute_claim_hash(claim: &ClaimData) -> (r: Result<Vec<u8>, EncodeError>)
    ensures
        r matches Ok(h) ==> compute_claim_hash_spec(*claim) == Ok::<Seq<u8>, EncodeError>(h@)
            && h@.len() == 32,
        r matches Err(e) ==> compute_claim_hash_spec(*claim) == Err::<Seq<u8>, EncodeError>(e),
{
    let ct = claim.claim_type.as_str();
    if str_eq(ct, "recycled_content") {
        let actual_value = match parse_u32_value(&claim.value) {
            Ok(n) => n,
            Err(e) => {
                return Err(e);
            },
        };
        let claim_type_hash = hash_claim_type(ct);
        let unit_hash = hash_unit(claim.unit.as_str());
        Ok(hash_claim_value(&claim_type_hash, actual_value as u64, &unit_hash))
    } else if str_eq(ct, "carbon_footprint") {
        let actual_value = match parse_scaled_u32_value(&claim.value) {
            Ok(n) => n,
            Err(e) => {
                return Err(e);
            },
        };
        let claim_type_hash = hash_claim_type(ct);
        let unit_hash = hash_unit(claim.unit.as_str());
        Ok(hash_claim_value(&claim_type_hash, actual_value as u64, &unit_hash))
    } else if str_eq(ct, "certification") {
        let window = match extract_cert_window(&claim.value) {
            Ok(w) => w,
            Err(e) => {
                return Err(e);
            },
        };
        let claim_type_hash = hash_claim_type(ct);
        Ok(hash_cert_window(&claim_type_hash, window.0, window.1))
    } else if str_eq(ct, "substance_content") {
        let es = match &claim.value {
            JsonValue::Obj(es) => es,
            _ => {
                return Err(EncodeError::NotAnObject);
            },
        };
        let substances_value = match get_key(es, "substances") {
            Some(x) => x,
            None => {
                return Err(EncodeError::MissingSubstances);
            },
        };
        let names = match parse_string_list(substances_value) {
            Ok(l) => l,
            Err(e) => {
                return Err(e);
            },
        };
        let ids = substance_ids(&names);
        let claim_type_hash = hash_claim_type(ct);
        let domain = domain_product_bytes();
        let seed = hash_concat(&domain, &claim_type_hash);
        let id_count = ids.len();
        let leaf = chain_over(seed, &ids, id_count);
        proof {
            assert(ids.deep_view().take(id_count as int) =~= ids.deep_view());
            assert(ids.deep_view().take(if names.deep_view().len() <= ids.deep_view().len() {
                names.deep_view().len() as int
            } else {
                ids.deep_view().len() as int
            }) =~= ids.deep_view());
        }
        Ok(leaf)
    } else if str_eq(ct, "battery_chemistry") || str_eq(ct, "cobalt_origin_country") {
        let s = match &claim.value {
            JsonValue::Str(s) => s,
            _ => {
                return Err(EncodeError::NotAString);
            },
        };
        let value_hash = substance_id_from_str(s.as_str());
        let claim_type_hash = hash_claim_type(ct);
        Ok(hash_claim_bytes(&claim_type_hash, &value_hash))
    } else {
        Ok(hash_claim(&claim.record))
    }
}

} // verus!
