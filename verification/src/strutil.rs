//! Small verified string utilities: character-level equality and ordering,
//! and decimal rendering of unsigned integers.

use vstd::prelude::*;
use vstd::string::StrSliceExecFns;

verus! {

/// Relies on String::push: appends a single character to the string.
#[verifier::external_body]
pub fn push_char(s: &mut String, c: char)
    ensures
        final(s)@ == old(s)@.push(c),
{
    s.push(c);
}

/// Character-for-character string equality.
pub fn str_eq(a: &str, b: &str) -> (r: bool)
    ensures
        r == (a@ == b@),
{
    let alen = a.unicode_len();
    let blen = b.unicode_len();
    if alen != blen {
        return false;
    }
    let mut i: usize = 0;
    while i < alen
        invariant
            alen == a@.len(),
            blen == b@.len(),
            alen == blen,
            i <= alen,
            forall|k: int| 0 <= k < i ==> a@[k] == b@[k],
        decreases alen - i,
    {
        if a.get_char(i) != b.get_char(i) {
            return false;
        }
        i = i + 1;
    }
    proof {
        assert(a@ =~= b@);
    }
    true
}

/// Lexicographic order on character sequences by code point, the order
/// in which object keys are serialized.
pub open spec fn lex_le(a: Seq<char>, b: Seq<char>) -> bool
    decreases a.len(),
{
    if a.len() == 0 {
        true
    } else if b.len() == 0 {
        false
    } else if a[0] == b[0] {
        lex_le(a.drop_first(), b.drop_first())
    } else {
        a[0] < b[0]
    }
}

/// Decides `lex_le` on string slices.
pub fn str_lex_le(a: &str, b: &str) -> (r: bool)
    ensures
        r == lex_le(a@, b@),
    decreases a@.len(),
{
    let alen = a.unicode_len();
    let blen = b.unicode_len();
    let mut i: usize = 0;
    proof {
        assert(a@.skip(0) =~= a@);
        assert(b@.skip(0) =~= b@);
    }
    loop
        invariant
            alen == a@.len(),
            blen == b@.len(),
            i <= alen,
            i <= blen,
            lex_le(a@, b@) == lex_le(a@.skip(i as int), b@.skip(i as int)),
        decreases alen - i,
    {
        if i == alen {
            proof {
                assert(a@.skip(i as int).len() == 0);
            }
            return true;
        }
        if i == blen {
            proof {
                assert(b@.skip(i as int).len() == 0);
                assert(a@.skip(i as int).len() > 0);
            }
            return false;
        }
        let ca = a.get_char(i);
        let cb = b.get_char(i);
        proof {
            assert(a@.skip(i as int)[0] == a@[i as int]);
            assert(b@.skip(i as int)[0] == b@[i as int]);
            assert(a@.skip(i as int).drop_first() =~= a@.skip(i + 1));
            assert(b@.skip(i as int).drop_first() =~= b@.skip(i + 1));
        }
        if ca != cb {
            return ca < cb;
        }
        i = i + 1;
    }
}

/// The character for a decimal digit.
pub open spec fn digit_char(d: u8) -> char {
    (d + 48) as char
}

/// The decimal representation of a natural number, most significant
/// digit first, with no leading zeros (and `0` rendered as "0").
pub open spec fn dec_str(n: nat) -> Seq<char>
    decreases n,
{
    if n < 10 {
        seq![digit_char(n as u8)]
    } else {
        dec_str(n / 10).push(digit_char((n % 10) as u8))
    }
}

/// Digits collected least significant first, read back in reverse.
spec fn rev_digits(ds: Seq<u8>) -> Seq<char>
    decreases ds.len(),
{
    if ds.len() == 0 {
        Seq::empty()
    } else {
        seq![digit_char(ds.last())] + rev_digits(ds.drop_last())
    }
}

proof fn lemma_rev_digits_cons(x: u8, t: Seq<u8>)
    ensures
        rev_digits(seq![x] + t) == rev_digits(t) + seq![digit_char(x)],
    decreases t.len(),
{
    if t.len() == 0 {
        assert((seq![x] + t) =~= seq![x]);
        assert(seq![x].last() == x);
        assert(seq![x].drop_last() =~= Seq::<u8>::empty());
        assert(rev_digits(Seq::<u8>::empty()) == Seq::<char>::empty());
        assert(rev_digits(seq![x]) =~= seq![digit_char(x)]);
        assert(rev_digits(t) + seq![digit_char(x)] =~= seq![digit_char(x)]);
    } else {
        let s = seq![x] + t;
        assert(s.last() == t.last());
        assert(s.drop_last() =~= seq![x] + t.drop_last());
        lemma_rev_digits_cons(x, t.drop_last());
        assert(rev_digits(s) == seq![digit_char(t.last())] + (rev_digits(t.drop_last())
            + seq![digit_char(x)]));
        assert(seq![digit_char(t.last())] + (rev_digits(t.drop_last()) + seq![digit_char(x)])
            =~= (seq![digit_char(t.last())] + rev_digits(t.drop_last())) + seq![digit_char(x)]);
    }
}

/// Renders an unsigned 64-bit value in decimal.
pub fn u64_to_string(n: u64) -> (r: String)
    ensures
        r@ == dec_str(n as nat),
{
    let mut digits: Vec<u8> = Vec::new();
    let mut m: u64 = n;
    proof {
        assert(rev_digits(digits@) == Seq::<char>::empty());
        if n > 0 {
            assert(dec_str(n as nat) + rev_digits(digits@) =~= dec_str(n as nat));
        }
    }
    loop
        invariant
            forall|k: int| 0 <= k < digits@.len() ==> digits@[k] < 10,
            m > 0 ==> dec_str(n as nat) == dec_str(m as nat) + rev_digits(digits@),
            m == 0 ==> (digits@.len() > 0 && dec_str(n as nat) == rev_digits(digits@))
                || (digits@.len() == 0 && n == 0),
        ensures
            forall|k: int| 0 <= k < digits@.len() ==> digits@[k] < 10,
            dec_str(n as nat) == rev_digits(digits@),
        decreases m,
    {
        if m == 0 && digits.len() > 0 {
            break;
        }
        if m == 0 {
            // n == 0: a single zero digit
            digits.push(0u8);
            proof {
                assert(digits@ =~= seq![0u8]);
                assert(seq![0u8].last() == 0u8);
                assert(seq![0u8].drop_last() =~= Seq::<u8>::empty());
                assert(rev_digits(Seq::<u8>::empty()) == Seq::<char>::empty());
                assert(rev_digits(seq![0u8]) =~= seq![digit_char(0)]);
                assert(dec_str(0) == seq![digit_char(0)]);
            }
            break;
        }
        let d: u8 = (m % 10) as u8;
        let ghost old_digits = digits@;
        digits.push(d);
        proof {
            assert(digits@.last() == d);
            assert(digits@.drop_last() =~= old_digits);
            assert(rev_digits(digits@) =~= seq![digit_char(d)] + rev_digits(old_digits));
            if m < 10 {
                assert(dec_str(m as nat) == seq![digit_char(d)]);
                assert(dec_str(m as nat) + rev_digits(old_digits) =~= rev_digits(digits@));
            } else {
                assert(dec_str(m as nat) == dec_str((m as nat) / 10).push(digit_char(d)));
                assert(dec_str((m as nat) / 10).push(digit_char(d)) =~= dec_str((m as nat) / 10)
                    + seq![digit_char(d)]);
                assert(dec_str(m as nat) + rev_digits(old_digits) =~= dec_str((m as nat) / 10) + (
                seq![digit_char(d)] + rev_digits(old_digits)));
                assert((m as nat) / 10 == ((m / 10) as nat));
            }
        }
        m = m / 10;
    }
    let mut out = String::new();
    let len = digits.len();
    let mut i: usize = 0;
    proof {
        lemma_rev_digits_len(digits@);
        assert(rev_digits(digits@).take(0) =~= Seq::<char>::empty());
    }
    while i < len
        invariant
            len == digits@.len(),
            i <= len,
            forall|k: int| 0 <= k < digits@.len() ==> digits@[k] < 10,
            dec_str(n as nat) == rev_digits(digits@),
            out@ == rev_digits(digits@).take(i as int),
            rev_digits(digits@).len() == digits@.len(),
        decreases len - i,
    {
        proof {
            lemma_rev_digits_len(digits@);
            lemma_rev_digits_index(digits@, i as int);
        }
        let c_src: u8 = digits[len - 1 - i];
        push_char(&mut out, digit_char_exec(c_src));
        proof {
            assert(out@ =~= rev_digits(digits@).take(i + 1));
        }
        i = i + 1;
    }
    proof {
        lemma_rev_digits_len(digits@);
        assert(out@ =~= rev_digits(digits@));
    }
    out
}

proof fn lemma_rev_digits_len(ds: Seq<u8>)
    ensures
        rev_digits(ds).len() == ds.len(),
    decreases ds.len(),
{
    if ds.len() > 0 {
        lemma_rev_digits_len(ds.drop_last());
    }
}

proof fn lemma_rev_digits_index(ds: Seq<u8>, i: int)
    requires
        0 <= i < ds.len(),
    ensures
        rev_digits(ds)[i] == digit_char(ds[ds.len() - 1 - i]),
    decreases ds.len(),
{
    lemma_rev_digits_len(ds.drop_last());
    if i == 0 {
    } else {
        lemma_rev_digits_index(ds.drop_last(), i - 1);
    }
}

/// The decimal digit character for a value below 10.
pub fn digit_char_exec(d: u8) -> (c: char)
    requires
        d < 10,
    ensures
        c == digit_char(d),
{
    (d + 48) as char
}

/// Renders an unsigned 32-bit value in decimal.
pub fn u32_to_string(n: u32) -> (r: String)
    ensures
        r@ == dec_str(n as nat),
{
    u64_to_string(n as u64)
}

/// Renders a byte in decimal.
pub fn u8_to_string(n: u8) -> (r: String)
    ensures
        r@ == dec_str(n as nat),
{
    u64_to_string(n as u64)
}

} // verus!
