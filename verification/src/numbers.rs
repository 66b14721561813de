//! Decimal readings of JSON number literals and numeric strings:
//! plain integers, integral decimals, and the two-decimal scaling used
//! for carbon-footprint values, with its small rounding tolerance.

use vstd::prelude::*;
use vstd::string::StrSliceExecFns;
use crate::predicate::{find_char, lemma_find_char_at, lemma_find_char_none};

verus! {

/// Whether a character is a decimal digit.
pub open spec fn is_digit_char(c: char) -> bool {
    48 <= c as u32 <= 57
}

/// The numeric value of a digit character (0 for anything else).
pub open spec fn digit_val(c: char) -> nat {
    if is_digit_char(c) {
        (c as u32 - 48) as nat
    } else {
        0
    }
}

/// A non-empty, all-digit string.
pub open spec fn all_digits(s: Seq<char>) -> bool {
    s.len() > 0 && forall|k: int| 0 <= k < s.len() ==> is_digit_char(#[trigger] s[k])
}

/// Every character is '0' (vacuously true of the empty string).
pub open spec fn all_zeros(s: Seq<char>) -> bool {
    forall|k: int| 0 <= k < s.len() ==> #[trigger] s[k] == '0'
}

/// The value of a digit string, read most significant digit first.
pub open spec fn dec_val(s: Seq<char>) -> nat
    decreases s.len(),
{
    if s.len() == 0 {
        0
    } else {
        dec_val(s.drop_last()) * 10 + digit_val(s.last())
    }
}

/// A literal split at its first dot, if it has one.
pub open spec fn split_dot(s: Seq<char>) -> Option<(Seq<char>, Seq<char>)> {
    match find_char(s, '.') {
        Some(i) => Some((s.take(i), s.skip(i + 1))),
        None => None,
    }
}

/// The value of an integer-valued literal: either all digits, or
/// digits with an all-zero fractional part.
pub open spec fn int_lit_value(lit: Seq<char>) -> Option<nat> {
    match split_dot(lit) {
        None => if all_digits(lit) {
            Some(dec_val(lit))
        } else {
            None
        },
        Some((ip, fp)) => if all_digits(ip) && fp.len() > 0 && all_zeros(fp) {
            Some(dec_val(ip))
        } else {
            None
        },
    }
}

/// The first two fractional digits, read as hundredths.
pub open spec fn frac2(fp: Seq<char>) -> nat {
    (if fp.len() >= 1 {
        digit_val(fp[0]) * 10
    } else {
        0
    }) + (if fp.len() >= 2 {
        digit_val(fp[1])
    } else {
        0
    })
}

/// The fractional digits beyond the second.
pub open spec fn frac_tail(fp: Seq<char>) -> Seq<char> {
    if fp.len() > 2 {
        fp.skip(2)
    } else {
        Seq::empty()
    }
}

/// How the digits beyond the second decimal place round, under a
/// tolerance of one millionth: `Some(false)` rounds down, `Some(true)`
/// rounds up, `None` is too much precision to represent.
pub open spec fn tail_rounding(tail: Seq<char>) -> Option<bool> {
    if all_zeros(tail) {
        Some(false)
    } else if tail.len() >= 6 && (forall|k: int| 0 <= k < 6 ==> #[trigger] tail[k] == '0') {
        Some(false)
    } else if tail.len() >= 6 && (forall|k: int| 0 <= k < 5 ==> #[trigger] tail[k] == '0')
        && tail[5] == '1' && all_zeros(tail.skip(6)) {
        Some(false)
    } else if tail.len() >= 6 && (forall|k: int| 0 <= k < 6 ==> #[trigger] tail[k] == '9') {
        Some(true)
    } else {
        None
    }
}

/// A literal's value scaled by 100, keeping two decimal digits; `None`
/// where the remaining precision exceeds the tolerance.
pub open spec fn scaled100_value(lit: Seq<char>) -> Option<nat> {
    match split_dot(lit) {
        None => if all_digits(lit) {
            Some(dec_val(lit) * 100)
        } else {
            None
        },
        Some((ip, fp)) => if all_digits(ip) && fp.len() > 0 && (forall|k: int| 0 <= k < fp.len()
            ==> is_digit_char(#[trigger] fp[k])) {
            match tail_rounding(frac_tail(fp)) {
                Some(up) => Some(dec_val(ip) * 100 + frac2(fp) + if up {
                    1nat
                } else {
                    0nat
                }),
                None => None,
            }
        } else {
            None
        },
    }
}

proof fn lemma_dec_val_prefix(s: Seq<char>, k: int)
    requires
        0 <= k <= s.len(),
    ensures
        dec_val(s) >= dec_val(s.take(k)),
    decreases s.len() - k,
{
    if k == s.len() {
        assert(s.take(k) =~= s);
    } else {
        lemma_dec_val_prefix(s, k + 1);
        assert(s.take(k + 1).drop_last() =~= s.take(k));
        assert(s.take(k + 1).last() == s[k]);
        assert(dec_val(s.take(k + 1)) == dec_val(s.take(k)) * 10 + digit_val(s[k]));
    }
}

/// Reads a whole string as a decimal number; `None` where it is not
/// all digits or does not fit in 64 bits.
pub fn dec_value_of(s: &str) -> (r: Option<u64>)
    ensures
        r is Some <==> (all_digits(s@) && dec_val(s@) <= u64::MAX),
        r matches Some(n) ==> n == dec_val(s@),
{
    let len = s.unicode_len();
    if len == 0 {
        return None;
    }
    let mut acc: u64 = 0;
    let mut i: usize = 0;
    proof {
        assert(s@.take(0) =~= Seq::<char>::empty());
    }
    while i < len
        invariant
            len == s@.len(),
            i <= len,
            forall|k: int| 0 <= k < i ==> is_digit_char(#[trigger] s@[k]),
            acc == dec_val(s@.take(i as int)),
        decreases len - i,
    {
        let c = s.get_char(i);
        let cu = c as u32;
        if !(48 <= cu && cu <= 57) {
            return None;
        }
        let d = (cu - 48) as u64;
        proof {
            assert(s@.take(i + 1).drop_last() =~= s@.take(i as int));
            assert(s@.take(i + 1).last() == s@[i as int]);
            assert(dec_val(s@.take(i + 1)) == dec_val(s@.take(i as int)) * 10 + digit_val(s@[
                i as int]));
        }
        if acc > (u64::MAX - d) / 10 {
            proof {
                let m = u64::MAX as nat;
                assert((m - d) / 10 * 10 + (m - d) % 10 == m - d);
                assert(acc * 10 >= ((m - d) / 10 + 1) * 10);
                assert(dec_val(s@.take(i + 1)) > m);
                lemma_dec_val_prefix(s@, i + 1);
            }
            return None;
        }
        proof {
            let m = u64::MAX as nat;
            assert((m - d) / 10 * 10 + (m - d) % 10 == m - d);
            assert(acc * 10 <= ((m - d) / 10) * 10);
        }
        acc = acc * 10 + d;
        i = i + 1;
    }
    proof {
        assert(s@.take(len as int) =~= s@);
    }
    Some(acc)
}

/// Decides `all_digits`.
pub fn check_all_digits(s: &str) -> (r: bool)
    ensures
        r == all_digits(s@),
{
    let len = s.unicode_len();
    if len == 0 {
        return false;
    }
    let mut i: usize = 0;
    while i < len
        invariant
            len == s@.len(),
            i <= len,
            forall|k: int| 0 <= k < i ==> is_digit_char(#[trigger] s@[k]),
        decreases len - i,
    {
        let cu = s.get_char(i) as u32;
        if !(48 <= cu && cu <= 57) {
            return false;
        }
        i = i + 1;
    }
    true
}

/// Decides `all_zeros` on the characters from `from` on.
pub fn zeros_from(s: &str, from: usize) -> (r: bool)
    requires
        from <= s@.len(),
    ensures
        r == all_zeros(s@.skip(from as int)),
{
    let len = s.unicode_len();
    let mut i: usize = from;
    while i < len
        invariant
            len == s@.len(),
            from <= i <= len,
            forall|k: int| from <= k < i ==> #[trigger] s@[k] == '0',
        decreases len - i,
    {
        if s.get_char(i) != '0' {
            proof {
                assert(s@.skip(from as int)[i - from] == s@[i as int]);
            }
            return false;
        }
        i = i + 1;
    }
    proof {
        assert forall|k: int| 0 <= k < s@.skip(from as int).len() implies #[trigger] s@.skip(
            from as int)[k] == '0' by {
            assert(s@.skip(from as int)[k] == s@[k + from]);
        }
    }
    true
}

/// Finds the first dot in a literal, matching `split_dot`.
pub fn find_dot(s: &str) -> (r: Option<usize>)
    ensures
        r matches Some(i) ==> find_char(s@, '.') == Some(i as int),
        r is None <==> find_char(s@, '.') is None,
{
    let len = s.unicode_len();
    let mut i: usize = 0;
    while i < len
        invariant
            len == s@.len(),
            i <= len,
            forall|k: int| 0 <= k < i ==> s@[k] != '.',
        decreases len - i,
    {
        if s.get_char(i) == '.' {
            proof {
                lemma_find_char_at(s@, '.', i as int);
            }
            return Some(i);
        }
        i = i + 1;
    }
    proof {
        lemma_find_char_none(s@, '.');
    }
    None
}

} // verus!
