//! Hexadecimal encoding and decoding, verified against character-level
//! specifications. Digests, keys, signatures and bindings all travel as
//! lower-case hex strings.

use vstd::prelude::*;
use vstd::string::StrSliceExecFns;
use crate::strutil::push_char;

verus! {

/// Why a hex string failed to decode.
#[derive(Debug, Clone, Copy, PartialEq, Eq, Structural)]
pub enum HexError {
    /// The string has an odd number of characters.
    OddLength,
    /// The string holds a character that is not a hex digit.
    InvalidChar,
}

/// The lower-case hex digit for a value below 16.
pub open spec fn hex_digit(n: u8) -> char {
    if n < 10 {
        (n + 48) as char
    } else {
        (n + 87) as char
    }
}

/// Lower-case hex encoding of a byte string: two digits per byte.
pub open spec fn hex_of(bytes: Seq<u8>) -> Seq<char>
    decreases bytes.len(),
{
    if bytes.len() == 0 {
        Seq::empty()
    } else {
        seq![hex_digit(bytes[0] / 16), hex_digit(bytes[0] % 16)] + hex_of(bytes.drop_first())
    }
}

/// Whether a character is a hex digit, upper or lower case.
pub open spec fn is_hex_digit_char(c: char) -> bool {
    (48 <= c as u32 && c as u32 <= 57) || (97 <= c as u32 && c as u32 <= 102) || (65 <= c as u32
        && c as u32 <= 70)
}

/// The value of a hex digit character.
pub open spec fn hex_char_val(c: char) -> u8 {
    if 48 <= c as u32 && c as u32 <= 57 {
        (c as u32 - 48) as u8
    } else if 97 <= c as u32 && c as u32 <= 102 {
        (c as u32 - 87) as u8
    } else if 65 <= c as u32 && c as u32 <= 70 {
        (c as u32 - 55) as u8
    } else {
        0
    }
}

/// Whether a character string is a well-formed hex encoding.
pub open spec fn is_hex_str(s: Seq<char>) -> bool {
    s.len() % 2 == 0 && forall|k: int| 0 <= k < s.len() ==> is_hex_digit_char(#[trigger] s[k])
}

/// The bytes a hex string decodes to, two characters per byte.
pub open spec fn hex_decode(s: Seq<char>) -> Seq<u8>
    decreases s.len(),
{
    if s.len() < 2 {
        Seq::empty()
    } else {
        seq![(hex_char_val(s[0]) * 16 + hex_char_val(s[1])) as u8] + hex_decode(s.skip(2))
    }
}

/// Lower-casing of hex digits: 'A'..'F' fold to 'a'..'f', everything
/// else is unchanged.
pub open spec fn lower_hex_char(c: char) -> char {
    if 65 <= c as u32 && c as u32 <= 70 {
        ((c as u32 + 32) as u8) as char
    } else {
        c
    }
}

/// Per-character lower-casing of a hex string.
pub open spec fn lower_hex(s: Seq<char>) -> Seq<char> {
    s.map(|_i: int, c: char| lower_hex_char(c))
}

/// Encodes bytes as a lower-case hex string.
pub fn to_hex(bytes: &[u8]) -> (r: String)
    ensures
        r@ == hex_of(bytes@),
        r@.len() == 2 * bytes@.len(),
{
    let mut out = String::new();
    let len = bytes.len();
    let mut i: usize = 0;
    proof {
        assert(bytes@.skip(0) =~= bytes@);
        lemma_hex_of_len(bytes@);
    }
    while i < len
        invariant
            len == bytes@.len(),
            i <= len,
            hex_of(bytes@) =~= out@ + hex_of(bytes@.skip(i as int)),
            out@.len() == 2 * i,
        decreases len - i,
    {
        let b = bytes[i];
        proof {
            assert(bytes@.skip(i as int)[0] == bytes@[i as int]);
            assert(bytes@.skip(i as int).drop_first() =~= bytes@.skip(i + 1));
        }
        push_char(&mut out, hex_digit_exec(b / 16));
        push_char(&mut out, hex_digit_exec(b % 16));
        i = i + 1;
    }
    proof {
        assert(hex_of(bytes@.skip(len as int)) =~= Seq::<char>::empty());
        assert(out@ =~= hex_of(bytes@));
    }
    out
}

/// The lower-case hex digit character for a value below 16.
pub fn hex_digit_exec(n: u8) -> (c: char)
    requires
        n < 16,
    ensures
        c == hex_digit(n),
{
    if n < 10 {
        (n + 48) as char
    } else {
        (n + 87) as char
    }
}

proof fn lemma_hex_of_len(bytes: Seq<u8>)
    ensures
        hex_of(bytes).len() == 2 * bytes.len(),
    decreases bytes.len(),
{
    if bytes.len() > 0 {
        lemma_hex_of_len(bytes.drop_first());
    }
}

/// The value of a hex digit character, or `None` where the character is
/// not one.
pub fn hex_val_exec(c: char) -> (r: Option<u8>)
    ensures
        r is Some <==> is_hex_digit_char(c),
        r matches Some(v) ==> v == hex_char_val(c),
{
    let cu = c as u32;
    if 48 <= cu && cu <= 57 {
        Some((cu - 48) as u8)
    } else if 97 <= cu && cu <= 102 {
        Some((cu - 87) as u8)
    } else if 65 <= cu && cu <= 70 {
        Some((cu - 55) as u8)
    } else {
        None
    }
}

/// Decodes a hex string to bytes. Fails on an odd length or a character
/// that is not a hex digit; succeeds exactly on well-formed hex strings.
pub fn from_hex(s: &str) -> (r: Result<Vec<u8>, HexError>)
    ensures
        r matches Ok(v) ==> is_hex_str(s@) && v@ == hex_decode(s@) && v@.len() == s@.len() / 2,
        r matches Err(e) ==> !is_hex_str(s@) && (e == HexError::OddLength <==> s@.len() % 2 != 0),
        is_hex_str(s@) ==> r is Ok,
{
    let len = s.unicode_len();
    if len % 2 != 0 {
        return Err(HexError::OddLength);
    }
    let mut out: Vec<u8> = Vec::new();
    let mut i: usize = 0;
    proof {
        assert(s@.skip(0) =~= s@);
    }
    while i < len
        invariant
            len == s@.len(),
            len % 2 == 0,
            i % 2 == 0,
            i <= len,
            forall|k: int| 0 <= k < i ==> is_hex_digit_char(#[trigger] s@[k]),
            hex_decode(s@) =~= out@ + hex_decode(s@.skip(i as int)),
            out@.len() == i / 2,
        decreases len - i,
    {
        let c0 = s.get_char(i);
        let c1 = s.get_char(i + 1);
        let v0 = match hex_val_exec(c0) {
            Some(v) => v,
            None => {
                return Err(HexError::InvalidChar);
            },
        };
        let v1 = match hex_val_exec(c1) {
            Some(v) => v,
            None => {
                return Err(HexError::InvalidChar);
            },
        };
        proof {
            assert(s@.skip(i as int)[0] == s@[i as int]);
            assert(s@.skip(i as int)[1] == s@[i + 1]);
            assert(s@.skip(i as int).skip(2) =~= s@.skip(i + 2));
        }
        out.push(v0 * 16 + v1);
        i = i + 2;
    }
    proof {
        assert(hex_decode(s@.skip(len as int)) =~= Seq::<u8>::empty());
        assert(out@ =~= hex_decode(s@));
    }
    Ok(out)
}

/// Hex encoding yields only hex digits: its output always decodes.
pub proof fn lemma_hex_of_is_hex(bytes: Seq<u8>)
    ensures
        is_hex_str(hex_of(bytes)),
        hex_of(bytes).len() == 2 * bytes.len(),
    decreases bytes.len(),
{
    lemma_hex_of_len(bytes);
    if bytes.len() == 0 {
    } else {
        lemma_hex_of_is_hex(bytes.drop_first());
        let h = hex_of(bytes);
        let rest = hex_of(bytes.drop_first());
        assert forall|k: int| 0 <= k < h.len() implies is_hex_digit_char(#[trigger] h[k]) by {
            if k == 0 {
                assert(h[0] == hex_digit(bytes[0] / 16));
            } else if k == 1 {
                assert(h[1] == hex_digit(bytes[0] % 16));
            } else {
                assert(h[k] == rest[k - 2]);
                assert(is_hex_digit_char(rest[k - 2]));
            }
        }
    }
}

/// Lower-casing a string of hex digits yields hex digits of the same
/// length.
pub proof fn lemma_lower_hex_is_hex(s: Seq<char>)
    requires
        forall|k: int| 0 <= k < s.len() ==> is_hex_digit_char(#[trigger] s[k]),
    ensures
        lower_hex(s).len() == s.len(),
        forall|k: int| 0 <= k < s.len() ==> is_hex_digit_char(#[trigger] lower_hex(s)[k]),
{
    assert forall|k: int| 0 <= k < s.len() implies is_hex_digit_char(#[trigger] lower_hex(s)[k])
        by {
        assert(lower_hex(s)[k] == lower_hex_char(s[k]));
        assert(is_hex_digit_char(s[k]));
    }
}

/// Lower-cases the hex digits of a string, leaving other characters
/// unchanged.
pub fn to_lower_hex(s: &str) -> (r: String)
    ensures
        r@ == lower_hex(s@),
{
    let mut out = String::new();
    let len = s.unicode_len();
    let mut i: usize = 0;
    while i < len
        invariant
            len == s@.len(),
            i <= len,
            out@ =~= lower_hex(s@).take(i as int),
        decreases len - i,
    {
        let c = s.get_char(i);
        let cu = c as u32;
        let lc: char = if 65 <= cu && cu <= 70 {
            ((cu + 32) as u8) as char
        } else {
            c
        };
        proof {
            assert(lower_hex(s@)[i as int] == lower_hex_char(s@[i as int]));
        }
        push_char(&mut out, lc);
        proof {
            assert(out@ =~= lower_hex(s@).take(i + 1));
        }
        i = i + 1;
    }
    proof {
        assert(out@ =~= lower_hex(s@));
    }
    out
}

} // verus!
