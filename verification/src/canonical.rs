//! Canonical JSON: a model of structured claim data and its
//! deterministic, key-sorted serialization, the input to claim hashing.
//!
//! Object keys are sorted lexicographically by code point at every
//! nesting level; arrays keep their order; scalars pass through. Two
//! semantically equal values therefore serialize, and hash, identically.

use vstd::prelude::*;
use vstd::string::StrSliceExecFns;
use vstd::string::StringExecFns;
use crate::hashing::{blake3_of, hash_str, hash_str_spec};
use crate::hex::hex_digit;
use crate::strutil::{lex_le, push_char, str_lex_le};

verus! {

/// A structured value: what a claim's JSON data looks like to the
/// library. Numbers carry their literal text, which serialization
/// emits unchanged.
#[derive(Debug)]
pub enum JsonValue {
    Null,
    Bool(bool),
    Num(String),
    Str(String),
    Arr(Vec<JsonValue>),
    Obj(Vec<(String, JsonValue)>),
}

/// How one character is escaped inside a JSON string literal.
pub open spec fn json_escape_char(c: char) -> Seq<char> {
    if c == '"' {
        seq!['\\', '"']
    } else if c == '\\' {
        seq!['\\', '\\']
    } else if c == '\u{08}' {
        seq!['\\', 'b']
    } else if c == '\t' {
        seq!['\\', 't']
    } else if c == '\n' {
        seq!['\\', 'n']
    } else if c == '\u{0C}' {
        seq!['\\', 'f']
    } else if c == '\r' {
        seq!['\\', 'r']
    } else if (c as u32) < 32 {
        seq!['\\', 'u', '0', '0', hex_digit((c as u32 / 16) as u8), hex_digit(
            (c as u32 % 16) as u8)]
    } else {
        seq![c]
    }
}

/// Escaping of a whole string body.
pub open spec fn json_escape(s: Seq<char>) -> Seq<char>
    decreases s.len(),
{
    if s.len() == 0 {
        Seq::empty()
    } else {
        json_escape_char(s[0]) + json_escape(s.drop_first())
    }
}

/// A quoted, escaped JSON string literal.
pub open spec fn json_quote(s: Seq<char>) -> Seq<char> {
    seq!['"'] + json_escape(s) + seq!['"']
}

/// Inserts an entry into a key-sorted entry list, before the first
/// entry whose key is not smaller.
pub open spec fn insert_entry(e: (String, JsonValue), s: Seq<(String, JsonValue)>) -> Seq<
    (String, JsonValue)>
    decreases s.len(),
{
    if s.len() == 0 {
        seq![e]
    } else if lex_le(e.0@, s[0].0@) {
        seq![e] + s
    } else {
        seq![s[0]] + insert_entry(e, s.drop_first())
    }
}

/// Sorts an entry list by key (insertion sort).
pub open spec fn sort_entries(s: Seq<(String, JsonValue)>) -> Seq<(String, JsonValue)>
    decreases s.len(),
{
    if s.len() == 0 {
        Seq::empty()
    } else {
        insert_entry(s[0], sort_entries(s.drop_first()))
    }
}

/// Nesting height of a value, used as the termination measure of the
/// canonical serialization.
pub open spec fn height(v: JsonValue) -> nat
    decreases v,
{
    match v {
        JsonValue::Arr(items) => 1 + items_height(items@),
        JsonValue::Obj(es) => 1 + ent_height(es@),
        _ => 0,
    }
}

/// Largest height among a list of values.
pub open spec fn items_height(s: Seq<JsonValue>) -> nat
    decreases s,
{
    if s.len() == 0 {
        0
    } else if height(s[0]) > items_height(s.drop_first()) {
        height(s[0])
    } else {
        items_height(s.drop_first())
    }
}

/// Largest height among the values of an entry list.
pub open spec fn ent_height(s: Seq<(String, JsonValue)>) -> nat
    decreases s,
{
    if s.len() == 0 {
        0
    } else if height(s[0].1) > ent_height(s.drop_first()) {
        height(s[0].1)
    } else {
        ent_height(s.drop_first())
    }
}

proof fn lemma_items_height_bound(s: Seq<JsonValue>, i: int)
    requires
        0 <= i < s.len(),
    ensures
        height(s[i]) <= items_height(s),
    decreases s.len(),
{
    if i == 0 {
    } else {
        lemma_items_height_bound(s.drop_first(), i - 1);
    }
}

proof fn lemma_ent_height_bound(s: Seq<(String, JsonValue)>, i: int)
    requires
        0 <= i < s.len(),
    ensures
        height(s[i].1) <= ent_height(s),
    decreases s.len(),
{
    if i == 0 {
    } else {
        lemma_ent_height_bound(s.drop_first(), i - 1);
    }
}

proof fn lemma_insert_ent_height(e: (String, JsonValue), s: Seq<(String, JsonValue)>)
    ensures
        ent_height(insert_entry(e, s)) == if height(e.1) > ent_height(s) {
            height(e.1)
        } else {
            ent_height(s)
        },
    decreases s.len(),
{
    if s.len() == 0 {
        let r = seq![e];
        assert(insert_entry(e, s) =~= r);
        assert(r.drop_first() =~= Seq::<(String, JsonValue)>::empty());
        assert(ent_height(Seq::<(String, JsonValue)>::empty()) == 0);
        assert(ent_height(r.drop_first()) == 0);
        assert(ent_height(r) == if height(r[0].1) > ent_height(r.drop_first()) {
            height(r[0].1)
        } else {
            ent_height(r.drop_first())
        });
    } else if lex_le(e.0@, s[0].0@) {
        let r = seq![e] + s;
        assert(insert_entry(e, s) =~= r);
        assert(r[0] == e);
        assert(r.drop_first() =~= s);
        assert(ent_height(r) == if height(r[0].1) > ent_height(r.drop_first()) {
            height(r[0].1)
        } else {
            ent_height(r.drop_first())
        });
    } else {
        let r = seq![s[0]] + insert_entry(e, s.drop_first());
        assert(insert_entry(e, s) =~= r);
        assert(r[0] == s[0]);
        assert(r.len() > 0);
        assert(r.drop_first() =~= insert_entry(e, s.drop_first()));
        lemma_insert_ent_height(e, s.drop_first());
        assert(ent_height(r) == if height(r[0].1) > ent_height(r.drop_first()) {
            height(r[0].1)
        } else {
            ent_height(r.drop_first())
        });
    }
}

proof fn lemma_sort_ent_height(s: Seq<(String, JsonValue)>)
    ensures
        ent_height(sort_entries(s)) == ent_height(s),
    decreases s.len(),
{
    if s.len() == 0 {
    } else {
        lemma_sort_ent_height(s.drop_first());
        lemma_insert_ent_height(s[0], sort_entries(s.drop_first()));
    }
}

/// The canonical serialization of a value: compact JSON with object
/// keys in sorted order at every level.
pub open spec fn canon(v: JsonValue) -> Seq<char>
    decreases height(v), 0int, 0int,
        via canon_decreases
{
    match v {
        JsonValue::Null => seq!['n', 'u', 'l', 'l'],
        JsonValue::Bool(b) => if b {
            seq!['t', 'r', 'u', 'e']
        } else {
            seq!['f', 'a', 'l', 's', 'e']
        },
        JsonValue::Num(s) => s@,
        JsonValue::Str(s) => json_quote(s@),
        JsonValue::Arr(items) => seq!['['] + canon_items(items@) + seq![']'],
        JsonValue::Obj(es) => seq!['{'] + canon_entries(sort_entries(es@)) + seq!['}'],
    }
}

/// Comma-joined serialization of array elements, in order.
pub open spec fn canon_items(s: Seq<JsonValue>) -> Seq<char>
    decreases items_height(s), 1int, s.len(),
        via canon_items_decreases
{
    if s.len() == 0 {
        Seq::empty()
    } else if s.len() == 1 {
        canon(s[0])
    } else {
        canon(s[0]) + seq![','] + canon_items(s.drop_first())
    }
}

/// One serialized object entry: quoted key, colon, value.
pub open spec fn entry_str(e: (String, JsonValue)) -> Seq<char>
    decreases height(e.1), 1int, 0int,
{
    json_quote(e.0@) + seq![':'] + canon(e.1)
}

/// Comma-joined serialization of (already sorted) object entries.
pub open spec fn canon_entries(s: Seq<(String, JsonValue)>) -> Seq<char>
    decreases ent_height(s), 1int, s.len(),
        via canon_entries_decreases
{
    if s.len() == 0 {
        Seq::empty()
    } else if s.len() == 1 {
        entry_str(s[0])
    } else {
        entry_str(s[0]) + seq![','] + canon_entries(s.drop_first())
    }
}

#[via_fn]
proof fn canon_decreases(v: JsonValue) {
    match v {
        JsonValue::Obj(es) => {
            lemma_sort_ent_height(es@);
        },
        _ => {},
    }
}

#[via_fn]
proof fn canon_items_decreases(s: Seq<JsonValue>) {
    if s.len() > 0 {
        lemma_items_height_bound(s, 0);
    }
}

#[via_fn]
proof fn canon_entries_decreases(s: Seq<(String, JsonValue)>) {
    if s.len() > 0 {
        lemma_ent_height_bound(s, 0);
    }
}

/// The hash of a claim value: the digest of its canonical form.
pub open spec fn hash_claim_spec(v: JsonValue) -> Seq<u8> {
    hash_str_spec(canon(v))
}

proof fn lemma_json_escape_snoc(s: Seq<char>, c: char)
    ensures
        json_escape(s.push(c)) == json_escape(s) + json_escape_char(c),
    decreases s.len(),
{
    if s.len() == 0 {
        assert(s.push(c)[0] == c);
        assert(s.push(c).drop_first() =~= Seq::<char>::empty());
        assert(json_escape(Seq::<char>::empty()) == Seq::<char>::empty());
        assert(json_escape(s.push(c).drop_first()) == Seq::<char>::empty());
        assert(json_escape(s.push(c)) =~= json_escape_char(c));
        assert(json_escape(s) + json_escape_char(c) =~= json_escape_char(c));
    } else {
        assert(s.push(c)[0] == s[0]);
        assert(s.push(c).drop_first() =~= s.drop_first().push(c));
        lemma_json_escape_snoc(s.drop_first(), c);
        assert(json_escape_char(s[0]) + (json_escape(s.drop_first()) + json_escape_char(c)) =~= (
        json_escape_char(s[0]) + json_escape(s.drop_first())) + json_escape_char(c));
    }
}

fn write_escaped(out: &mut String, s: &str)
    ensures
        final(out)@ == old(out)@ + json_escape(s@),
{
    let len = s.unicode_len();
    let mut i: usize = 0;
    proof {
        assert(s@.take(0) =~= Seq::<char>::empty());
        assert(json_escape(Seq::<char>::empty()) == Seq::<char>::empty());
        assert(old(out)@ + json_escape(s@.take(0)) =~= old(out)@);
    }
    while i < len
        invariant
            len == s@.len(),
            i <= len,
            out@ == old(out)@ + json_escape(s@.take(i as int)),
        decreases len - i,
    {
        let c = s.get_char(i);
        proof {
            lemma_json_escape_snoc(s@.take(i as int), c);
            assert(s@.take(i + 1) =~= s@.take(i as int).push(s@[i as int]));
        }
        if c == '"' {
            push_char(out, '\\');
            push_char(out, '"');
        } else if c == '\\' {
            push_char(out, '\\');
            push_char(out, '\\');
        } else if c == '\u{08}' {
            push_char(out, '\\');
            push_char(out, 'b');
        } else if c == '\t' {
            push_char(out, '\\');
            push_char(out, 't');
        } else if c == '\n' {
            push_char(out, '\\');
            push_char(out, 'n');
        } else if c == '\u{0C}' {
            push_char(out, '\\');
            push_char(out, 'f');
        } else if c == '\r' {
            push_char(out, '\\');
            push_char(out, 'r');
        } else if (c as u32) < 32 {
            let cu = c as u32;
            push_char(out, '\\');
            push_char(out, 'u');
            push_char(out, '0');
            push_char(out, '0');
            push_char(out, crate::hex::hex_digit_exec((cu / 16) as u8));
            push_char(out, crate::hex::hex_digit_exec((cu % 16) as u8));
        } else {
            push_char(out, c);
        }
        proof {
            assert(out@ =~= old(out)@ + json_escape(s@.take(i + 1)));
        }
        i = i + 1;
    }
    proof {
        assert(s@.take(len as int) =~= s@);
    }
}

/// The spec insertion point of `insert_entry`, spelled out: the entry
/// lands just before the first key that is not smaller than its own.
proof fn lemma_insert_entry_at(e: (String, JsonValue), s: Seq<(String, JsonValue)>, p: int)
    requires
        0 <= p <= s.len(),
        forall|q: int| 0 <= q < p ==> !lex_le(e.0@, #[trigger] s[q].0@),
        p < s.len() ==> lex_le(e.0@, s[p].0@),
    ensures
        insert_entry(e, s) == s.take(p) + seq![e] + s.skip(p),
    decreases s.len(),
{
    if s.len() == 0 {
        assert(s.take(p) + seq![e] + s.skip(p) =~= seq![e]);
    } else if lex_le(e.0@, s[0].0@) {
        assert(p == 0);
        assert(s.take(0) + seq![e] + s.skip(0) =~= seq![e] + s);
    } else {
        assert(p >= 1);
        assert forall|q: int| 0 <= q < p - 1 implies !lex_le(e.0@,
            #[trigger] s.drop_first()[q].0@) by {
            assert(s.drop_first()[q] == s[q + 1]);
        }
        assert(p - 1 < s.drop_first().len() ==> s.drop_first()[p - 1] == s[p]);
        lemma_insert_entry_at(e, s.drop_first(), p - 1);
        assert(s.drop_first().take(p - 1) =~= s.take(p).drop_first());
        assert(s.drop_first().skip(p - 1) =~= s.skip(p));
        assert(seq![s[0]] + (s.take(p).drop_first() + seq![e] + s.skip(p)) =~= s.take(p)
            + seq![e] + s.skip(p));
        assert(seq![s[0]] + insert_entry(e, s.drop_first()) =~= seq![s[0]] + (s.take(
            p).drop_first() + seq![e] + s.skip(p)));
    }
}

/// The entries of `es` read through an index order.
pub open spec fn perm_entries(es: Seq<(String, JsonValue)>, o: Seq<usize>) -> Seq<
    (String, JsonValue)> {
    Seq::new(o.len(), |i: int| es[o[i] as int])
}

/// Finds where the key of entry `j` belongs in the partial order `o`:
/// just before the first ordered entry whose key is not smaller.
fn find_insert_pos(es: &Vec<(String, JsonValue)>, o: &Vec<usize>, j: usize) -> (p: usize)
    requires
        j < es@.len(),
        forall|k: int| 0 <= k < o@.len() ==> #[trigger] o@[k] < es@.len(),
    ensures
        p <= o@.len(),
        forall|q: int| 0 <= q < p ==> !lex_le(es@[j as int].0@, es@[#[trigger] o@[q] as int].0@),
        p < o@.len() ==> lex_le(es@[j as int].0@, es@[o@[p as int] as int].0@),
{
    let olen = o.len();
    let mut p: usize = 0;
    while p < olen
        invariant
            j < es@.len(),
            forall|k: int| 0 <= k < o@.len() ==> #[trigger] o@[k] < es@.len(),
            olen == o@.len(),
            p <= olen,
            forall|q: int| 0 <= q < p ==> !lex_le(es@[j as int].0@, es@[#[trigger] o@[
                q] as int].0@),
        decreases olen - p,
    {
        if str_lex_le(es[j].0.as_str(), es[o[p]].0.as_str()) {
            return p;
        }
        p = p + 1;
    }
    p
}

/// Computes the key-sorted order of an entry list as indices into it.
#[verifier::loop_isolation(false)]
fn sorted_order(es: &Vec<(String, JsonValue)>) -> (o: Vec<usize>)
    ensures
        o@.len() == es@.len(),
        forall|k: int| 0 <= k < o@.len() ==> #[trigger] o@[k] < es@.len(),
        perm_entries(es@, o@) == sort_entries(es@),
{
    let mut o: Vec<usize> = Vec::new();
    let mut j: usize = es.len();
    proof {
        assert(es@.skip(es@.len() as int) =~= Seq::<(String, JsonValue)>::empty());
        assert(perm_entries(es@, o@) =~= Seq::<(String, JsonValue)>::empty());
    }
    while j > 0
        invariant
            j <= es@.len(),
            o@.len() + j == es@.len(),
            forall|k: int| 0 <= k < o@.len() ==> #[trigger] o@[k] < es@.len(),
            perm_entries(es@, o@) == sort_entries(es@.skip(j as int)),
        decreases j,
    {
        j = j - 1;
        let ghost e = es@[j as int];
        let ghost sorted = perm_entries(es@, o@);
        let p = find_insert_pos(es, &o, j);
        proof {
            assert forall|q: int| 0 <= q < p implies !lex_le(e.0@, #[trigger] sorted[q].0@) by {
                assert(sorted[q] == es@[o@[q] as int]);
            }
            assert(p < o@.len() ==> sorted[p as int] == es@[o@[p as int] as int]);
            lemma_insert_entry_at(e, sorted, p as int);
        }
        o.insert(p, j);
        proof {
            assert(perm_entries(es@, o@) =~= sorted.take(p as int) + seq![e] + sorted.skip(
                p as int));
            assert(es@.skip(j as int)[0] == es@[j as int]);
            assert(es@.skip(j as int).drop_first() =~= es@.skip(j + 1));
            assert(sort_entries(es@.skip(j as int)) == insert_entry(e, sort_entries(es@.skip(j
                + 1))));
        }
    }
    proof {
        assert(es@.skip(0) =~= es@);
    }
    o
}

proof fn lemma_canon_items_snoc(s: Seq<JsonValue>, x: JsonValue)
    ensures
        canon_items(s.push(x)) == if s.len() == 0 {
            canon(x)
        } else {
            canon_items(s) + seq![','] + canon(x)
        },
    decreases s.len(),
{
    let s2 = s.push(x);
    if s.len() == 0 {
        assert(s2.len() == 1);
        assert(s2[0] == x);
    } else {
        assert(s2[0] == s[0]);
        assert(s2.drop_first() =~= s.drop_first().push(x));
        lemma_canon_items_snoc(s.drop_first(), x);
        if s.len() == 1 {
            assert(s.drop_first().len() == 0);
            assert(canon_items(s2) == canon(s[0]) + seq![','] + canon(x));
            assert(canon_items(s) == canon(s[0]));
        } else {
            assert(canon_items(s2) == canon(s[0]) + seq![','] + (canon_items(s.drop_first())
                + seq![','] + canon(x)));
            assert(canon(s[0]) + seq![','] + (canon_items(s.drop_first()) + seq![','] + canon(x))
                =~= (canon(s[0]) + seq![','] + canon_items(s.drop_first())) + seq![','] + canon(
                x));
        }
    }
}

proof fn lemma_canon_entries_snoc(s: Seq<(String, JsonValue)>, x: (String, JsonValue))
    ensures
        canon_entries(s.push(x)) == if s.len() == 0 {
            entry_str(x)
        } else {
            canon_entries(s) + seq![','] + entry_str(x)
        },
    decreases s.len(),
{
    let s2 = s.push(x);
    if s.len() == 0 {
        assert(s2.len() == 1);
        assert(s2[0] == x);
    } else {
        assert(s2[0] == s[0]);
        assert(s2.drop_first() =~= s.drop_first().push(x));
        lemma_canon_entries_snoc(s.drop_first(), x);
        if s.len() == 1 {
            assert(s.drop_first().len() == 0);
            assert(canon_entries(s2) == entry_str(s[0]) + seq![','] + entry_str(x));
            assert(canon_entries(s) == entry_str(s[0]));
        } else {
            assert(canon_entries(s2) == entry_str(s[0]) + seq![','] + (canon_entries(
                s.drop_first()) + seq![','] + entry_str(x)));
            assert(entry_str(s[0]) + seq![','] + (canon_entries(s.drop_first()) + seq![',']
                + entry_str(x)) =~= (entry_str(s[0]) + seq![','] + canon_entries(s.drop_first()))
                + seq![','] + entry_str(x));
        }
    }
}

/// Serializes a value in canonical form onto the end of `out`.
#[verifier::loop_isolation(false)]
fn write_value(out: &mut String, v: &JsonValue)
    ensures
        final(out)@ == old(out)@ + canon(*v),
    decreases *v,
{
    match v {
        JsonValue::Null => {
            out.append("null");
            proof {
                reveal_strlit("null");
                assert("null"@ =~= seq!['n', 'u', 'l', 'l']);
            }
        },
        JsonValue::Bool(b) => {
            if *b {
                out.append("true");
                proof {
                    reveal_strlit("true");
                    assert("true"@ =~= seq!['t', 'r', 'u', 'e']);
                }
            } else {
                out.append("false");
                proof {
                    reveal_strlit("false");
                    assert("false"@ =~= seq!['f', 'a', 'l', 's', 'e']);
                }
            }
        },
        JsonValue::Num(s) => {
            out.append(s.as_str());
        },
        JsonValue::Str(s) => {
            push_char(out, '"');
            write_escaped(out, s.as_str());
            push_char(out, '"');
            proof {
                assert(old(out)@.push('"') + json_escape(s@) =~= old(out)@ + (seq!['"']
                    + json_escape(s@)));
                assert((old(out)@ + (seq!['"'] + json_escape(s@))).push('"') =~= old(out)@
                    + json_quote(s@));
            }
        },
        JsonValue::Arr(items) => {
            push_char(out, '[');
            let ghost base = out@;
            let len = items.len();
            let mut i: usize = 0;
            proof {
                assert(items@.take(0) =~= Seq::<JsonValue>::empty());
                assert(base + canon_items(items@.take(0)) =~= base);
            }
            while i < len
                invariant
                    len == items@.len(),
                    i <= len,
                    out@ == base + canon_items(items@.take(i as int)),
                decreases len - i,
                // each element of the array is beneath the array value
            {
                if i > 0 {
                    push_char(out, ',');
                }
                proof {
                    assert(items@.take(i + 1) =~= items@.take(i as int).push(items@[i as int]));
                    lemma_canon_items_snoc(items@.take(i as int), items@[i as int]);
                    assert(*v is Arr);
                    assert((*v)->Arr_0 == *items);
                    assert(decreases_to!(*v => (*v)->Arr_0));
                    assert(decreases_to!(*items => items@));
                    assert(decreases_to!(items@ => items@[i as int]));
                }
                write_value(out, &items[i]);
                proof {
                    if i > 0 {
                        assert((base + canon_items(items@.take(i as int))).push(',') + canon(
                            items@[i as int]) =~= base + canon_items(items@.take(i + 1)));
                    } else {
                        assert(base + canon_items(items@.take(0)) + canon(items@[0]) =~= base
                            + canon_items(items@.take(1)));
                    }
                }
                i = i + 1;
            }
            push_char(out, ']');
            proof {
                assert(items@.take(len as int) =~= items@);
                assert(base + canon_items(items@) + seq![']'] =~= (base + canon_items(
                    items@)).push(']'));
                assert(old(out)@.push('[') =~= old(out)@ + seq!['[']);
                assert(old(out)@ + seq!['['] + canon_items(items@) + seq![']'] =~= old(out)@ + (
                seq!['['] + canon_items(items@) + seq![']']));
            }
        },
        JsonValue::Obj(es) => {
            let order = sorted_order(es);
            push_char(out, '{');
            let ghost base = out@;
            let ghost sorted = sort_entries(es@);
            let len = order.len();
            let mut i: usize = 0;
            proof {
                assert(sorted.take(0) =~= Seq::<(String, JsonValue)>::empty());
                assert(base + canon_entries(sorted.take(0)) =~= base);
            }
            while i < len
                invariant
                    len == order@.len(),
                    order@.len() == es@.len(),
                    forall|k: int| 0 <= k < order@.len() ==> #[trigger] order@[k] < es@.len(),
                    perm_entries(es@, order@) == sorted,
                    sorted == sort_entries(es@),
                    i <= len,
                    out@ == base + canon_entries(sorted.take(i as int)),
                decreases len - i,
            {
                if i > 0 {
                    push_char(out, ',');
                }
                let idx = order[i];
                let ghost e = sorted[i as int];
                proof {
                    assert(perm_entries(es@, order@)[i as int] == es@[order@[i as int] as int]);
                    assert(e == es@[idx as int]);
                    assert(sorted.take(i + 1) =~= sorted.take(i as int).push(e));
                    lemma_canon_entries_snoc(sorted.take(i as int), e);
                }
                let entry = &es[idx];
                push_char(out, '"');
                write_escaped(out, entry.0.as_str());
                push_char(out, '"');
                push_char(out, ':');
                proof {
                    assert(*v is Obj);
                    assert((*v)->Obj_0 == *es);
                    assert(decreases_to!(*v => (*v)->Obj_0));
                    assert(decreases_to!(*es => es@));
                    assert(decreases_to!(es@ => es@[idx as int]));
                    assert(decreases_to!(es@[idx as int] => es@[idx as int].1));
                }
                write_value(out, &entry.1);
                proof {
                    let before = base + canon_entries(sorted.take(i as int)) + (if i > 0 {
                        seq![',']
                    } else {
                        Seq::<char>::empty()
                    });
                    assert(out@ =~= base + canon_entries(sorted.take(i as int)) + (if i > 0 {
                        seq![',']
                    } else {
                        Seq::<char>::empty()
                    }) + entry_str(e));
                    if i > 0 {
                        assert(base + canon_entries(sorted.take(i as int)) + seq![',']
                            + entry_str(e) =~= base + canon_entries(sorted.take(i + 1)));
                    } else {
                        assert(base + canon_entries(sorted.take(0)) + Seq::<char>::empty()
                            + entry_str(e) =~= base + canon_entries(sorted.take(1)));
                    }
                }
                i = i + 1;
            }
            push_char(out, '}');
            proof {
                assert(sorted.take(len as int) =~= sorted);
                assert(base + canon_entries(sorted) + seq!['}'] =~= (base + canon_entries(
                    sorted)).push('}'));
                assert(old(out)@.push('{') =~= old(out)@ + seq!['{']);
                assert(old(out)@ + seq!['{'] + canon_entries(sorted) + seq!['}'] =~= old(out)@ + (
                seq!['{'] + canon_entries(sorted) + seq!['}']));
            }
        },
    }
}

/// Serializes a value to its canonical, key-sorted compact JSON form.
/// Two semantically equal values canonicalize identically.
pub fn canonicalize(v: &JsonValue) -> (r: String)
    ensures
        r@ == canon(*v),
{
    let mut out = String::new();
    write_value(&mut out, v);
    proof {
        assert(Seq::<char>::empty() + canon(*v) =~= canon(*v));
    }
    out
}

/// Hashes a claim value: the digest of its canonical serialization.
pub fn hash_claim(v: &JsonValue) -> (r: Vec<u8>)
    ensures
        r@ == hash_claim_spec(*v),
        r@.len() == 32,
{
    let canonical = canonicalize(v);
    hash_str(canonical.as_str())
}

// ---------------------------------------------------------------------
// entry reordering: an object's canonical form, and so its hash, is
// invariant under the order its entries are given in
// ---------------------------------------------------------------------

/// No two entries share a key.
pub open spec fn distinct_keys(es: Seq<(String, JsonValue)>) -> bool {
    forall|i: int, j: int| 0 <= i < j < es.len() ==> (#[trigger] es[i].0@) != (#[trigger] es[
        j].0@)
}

/// Entries in non-descending key order.
pub open spec fn sorted_keys(es: Seq<(String, JsonValue)>) -> bool {
    forall|i: int, j: int| 0 <= i < j < es.len() ==> lex_le(#[trigger] es[i].0@, #[trigger] es[
        j].0@)
}

proof fn lemma_lex_le_total(a: Seq<char>, b: Seq<char>)
    ensures
        lex_le(a, b) || lex_le(b, a),
    decreases a.len(),
{
    if a.len() == 0 {
        assert(lex_le(a, b));
    } else if b.len() == 0 {
        assert(lex_le(b, a));
    } else if a[0] == b[0] {
        lemma_lex_le_total(a.drop_first(), b.drop_first());
        assert(lex_le(a, b) == lex_le(a.drop_first(), b.drop_first()));
        assert(lex_le(b, a) == lex_le(b.drop_first(), a.drop_first()));
    } else {
        if a[0] < b[0] {
            assert(lex_le(a, b));
        } else {
            assert(b[0] < a[0]);
            assert(lex_le(b, a));
        }
    }
}

proof fn lemma_lex_le_antisym(a: Seq<char>, b: Seq<char>)
    requires
        lex_le(a, b),
        lex_le(b, a),
    ensures
        a == b,
    decreases a.len(),
{
    if a.len() == 0 {
        assert(b.len() == 0);
        assert(a =~= b);
    } else {
        assert(b.len() > 0);
        if a[0] == b[0] {
            lemma_lex_le_antisym(a.drop_first(), b.drop_first());
            assert forall|k: int| 0 <= k < a.len() implies a[k] == b[k] by {
                if k > 0 {
                    assert(a.drop_first() == b.drop_first());
                    assert(a[k] == a.drop_first()[k - 1]);
                    assert(b[k] == b.drop_first()[k - 1]);
                }
            }
            assert(a =~= b);
        } else {
            assert(a[0] < b[0]);
            assert(b[0] < a[0]);
            assert(false);
        }
    }
}

proof fn lemma_lex_le_trans(a: Seq<char>, b: Seq<char>, c: Seq<char>)
    requires
        lex_le(a, b),
        lex_le(b, c),
    ensures
        lex_le(a, c),
    decreases a.len(),
{
    if a.len() == 0 {
    } else {
        assert(b.len() > 0);
        assert(c.len() > 0);
        if a[0] == b[0] && b[0] == c[0] {
            lemma_lex_le_trans(a.drop_first(), b.drop_first(), c.drop_first());
        }
    }
}

/// A value occurs among the entries.
pub open spec fn in_entries(es: Seq<(String, JsonValue)>, e: (String, JsonValue)) -> bool {
    exists|i: int| 0 <= i < es.len() && #[trigger] es[i] == e
}

#[verifier::spinoff_prover]
proof fn lemma_insert_entry_elems(e: (String, JsonValue), s: Seq<(String, JsonValue)>)
    ensures
        insert_entry(e, s).len() == s.len() + 1,
        forall|i: int| 0 <= i < insert_entry(e, s).len() ==> #[trigger] insert_entry(e, s)[i]
            == e || in_entries(s, insert_entry(e, s)[i]),
        forall|j: int| 0 <= j < s.len() ==> in_entries(insert_entry(e, s), #[trigger] s[j]),
        in_entries(insert_entry(e, s), e),
    decreases s.len(),
{
    let r = insert_entry(e, s);
    if s.len() == 0 {
        assert(r =~= seq![e]);
        assert(r[0] == e);
    } else if lex_le(e.0@, s[0].0@) {
        assert(r =~= seq![e] + s);
        assert(r[0] == e);
        assert forall|i: int| 0 <= i < r.len() implies #[trigger] r[i] == e || in_entries(s,
            r[i]) by {
            if i > 0 {
                assert(r[i] == s[i - 1]);
            }
        }
        assert forall|j: int| 0 <= j < s.len() implies in_entries(r, #[trigger] s[j]) by {
            assert(r[j + 1] == s[j]);
        }
    } else {
        let rr = insert_entry(e, s.drop_first());
        assert(r =~= seq![s[0]] + rr);
        lemma_insert_entry_elems(e, s.drop_first());
        assert forall|i: int| 0 <= i < r.len() implies #[trigger] r[i] == e || in_entries(s,
            r[i]) by {
            if i == 0 {
                assert(r[0] == s[0]);
            } else {
                assert(r[i] == rr[i - 1]);
                if rr[i - 1] == e {
                } else {
                    assert(in_entries(s.drop_first(), rr[i - 1]));
                    let j = choose|j: int| 0 <= j < s.drop_first().len()
                        && #[trigger] s.drop_first()[j] == rr[i - 1];
                    assert(s[j + 1] == s.drop_first()[j]);
                }
            }
        }
        assert forall|j: int| 0 <= j < s.len() implies in_entries(r, #[trigger] s[j]) by {
            if j == 0 {
                assert(r[0] == s[0]);
            } else {
                assert(s.drop_first()[j - 1] == s[j]);
                assert(in_entries(rr, s.drop_first()[j - 1]));
                let i = choose|i: int| 0 <= i < rr.len() && #[trigger] rr[i] == s.drop_first()[j
                    - 1];
                assert(r[i + 1] == rr[i]);
            }
        }
        assert(in_entries(rr, e));
        let i = choose|i: int| 0 <= i < rr.len() && #[trigger] rr[i] == e;
        assert(r[i + 1] == e);
    }
}

#[verifier::spinoff_prover]
proof fn lemma_insert_entry_sorted(e: (String, JsonValue), s: Seq<(String, JsonValue)>)
    requires
        sorted_keys(s),
    ensures
        sorted_keys(insert_entry(e, s)),
    decreases s.len(),
{
    let r = insert_entry(e, s);
    if s.len() == 0 {
        assert(r =~= seq![e]);
    } else if lex_le(e.0@, s[0].0@) {
        assert(r =~= seq![e] + s);
        assert forall|i: int, j: int| 0 <= i < j < r.len() implies lex_le(#[trigger] r[i].0@,
            #[trigger] r[j].0@) by {
            if i == 0 {
                if j == 1 {
                    assert(r[j] == s[0]);
                } else {
                    assert(r[j] == s[j - 1]);
                    assert(lex_le(s[0].0@, s[j - 1].0@));
                    lemma_lex_le_trans(e.0@, s[0].0@, s[j - 1].0@);
                }
            } else {
                assert(r[i] == s[i - 1]);
                assert(r[j] == s[j - 1]);
            }
        }
    } else {
        let rr = insert_entry(e, s.drop_first());
        assert(r =~= seq![s[0]] + rr);
        assert forall|i: int, j: int| 0 <= i < j < s.drop_first().len() implies lex_le(
            #[trigger] s.drop_first()[i].0@, #[trigger] s.drop_first()[j].0@) by {
            assert(s.drop_first()[i] == s[i + 1]);
            assert(s.drop_first()[j] == s[j + 1]);
        }
        lemma_insert_entry_sorted(e, s.drop_first());
        lemma_insert_entry_elems(e, s.drop_first());
        lemma_lex_le_total(e.0@, s[0].0@);
        assert(lex_le(s[0].0@, e.0@));
        assert forall|i: int, j: int| 0 <= i < j < r.len() implies lex_le(#[trigger] r[i].0@,
            #[trigger] r[j].0@) by {
            if i == 0 {
                assert(r[j] == rr[j - 1]);
                if rr[j - 1] == e {
                } else {
                    assert(in_entries(s.drop_first(), rr[j - 1]));
                    let q = choose|q: int| 0 <= q < s.drop_first().len()
                        && #[trigger] s.drop_first()[q] == rr[j - 1];
                    assert(s.drop_first()[q] == s[q + 1]);
                    assert(lex_le(s[0].0@, s[q + 1].0@));
                }
            } else {
                assert(r[i] == rr[i - 1]);
                assert(r[j] == rr[j - 1]);
            }
        }
    }
}

#[verifier::spinoff_prover]
proof fn lemma_insert_entry_distinct(e: (String, JsonValue), s: Seq<(String, JsonValue)>)
    requires
        distinct_keys(s),
        forall|i: int| 0 <= i < s.len() ==> (#[trigger] s[i].0@) != e.0@,
    ensures
        distinct_keys(insert_entry(e, s)),
    decreases s.len(),
{
    let r = insert_entry(e, s);
    if s.len() == 0 {
        assert(r =~= seq![e]);
    } else if lex_le(e.0@, s[0].0@) {
        assert(r =~= seq![e] + s);
        assert forall|i: int, j: int| 0 <= i < j < r.len() implies (#[trigger] r[i].0@) != (
        #[trigger] r[j].0@) by {
            if i == 0 {
                assert(r[j] == s[j - 1]);
            } else {
                assert(r[i] == s[i - 1]);
                assert(r[j] == s[j - 1]);
            }
        }
    } else {
        let rr = insert_entry(e, s.drop_first());
        assert(r =~= seq![s[0]] + rr);
        assert forall|i: int, j: int| 0 <= i < j < s.drop_first().len() implies (
        #[trigger] s.drop_first()[i].0@) != (#[trigger] s.drop_first()[j].0@) by {
            assert(s.drop_first()[i] == s[i + 1]);
            assert(s.drop_first()[j] == s[j + 1]);
        }
        assert forall|i: int| 0 <= i < s.drop_first().len() implies (
        #[trigger] s.drop_first()[i].0@) != e.0@ by {
            assert(s.drop_first()[i] == s[i + 1]);
        }
        lemma_insert_entry_distinct(e, s.drop_first());
        lemma_insert_entry_elems(e, s.drop_first());
        assert forall|i: int, j: int| 0 <= i < j < r.len() implies (#[trigger] r[i].0@) != (
        #[trigger] r[j].0@) by {
            if i == 0 {
                assert(r[j] == rr[j - 1]);
                if rr[j - 1] == e {
                    assert(s[0].0@ != e.0@);
                } else {
                    assert(in_entries(s.drop_first(), rr[j - 1]));
                    let q = choose|q: int| 0 <= q < s.drop_first().len()
                        && #[trigger] s.drop_first()[q] == rr[j - 1];
                    assert(s.drop_first()[q] == s[q + 1]);
                    assert(s[0].0@ != s[q + 1].0@);
                }
            } else {
                assert(r[i] == rr[i - 1]);
                assert(r[j] == rr[j - 1]);
            }
        }
    }
}

#[verifier::spinoff_prover]
proof fn lemma_sort_entries_basic(s: Seq<(String, JsonValue)>)
    ensures
        sort_entries(s).len() == s.len(),
        sorted_keys(sort_entries(s)),
        forall|i: int| 0 <= i < sort_entries(s).len() ==> in_entries(s,
            #[trigger] sort_entries(s)[i]),
        forall|j: int| 0 <= j < s.len() ==> in_entries(sort_entries(s), #[trigger] s[j]),
    decreases s.len(),
{
    let r = sort_entries(s);
    if s.len() == 0 {
    } else {
        let tail = s.drop_first();
        let rt = sort_entries(tail);
        lemma_sort_entries_basic(tail);
        lemma_insert_entry_elems(s[0], rt);
        lemma_insert_entry_sorted(s[0], rt);
        assert(r == insert_entry(s[0], rt));
        // membership, sorted seq into original
        assert forall|i: int| 0 <= i < r.len() implies in_entries(s, #[trigger] r[i]) by {
            if r[i] == s[0] {
                assert(s[0] == r[i]);
            } else {
                assert(in_entries(rt, r[i]));
                let q = choose|q: int| 0 <= q < rt.len() && #[trigger] rt[q] == r[i];
                assert(in_entries(tail, rt[q]));
                let j = choose|j: int| 0 <= j < tail.len() && #[trigger] tail[j] == rt[q];
                assert(s[j + 1] == tail[j]);
            }
        }
        // membership, original into sorted seq
        assert forall|j: int| 0 <= j < s.len() implies in_entries(r, #[trigger] s[j]) by {
            if j == 0 {
                assert(in_entries(r, s[0]));
            } else {
                assert(tail[j - 1] == s[j]);
                assert(in_entries(rt, tail[j - 1]));
                let q = choose|q: int| 0 <= q < rt.len() && #[trigger] rt[q] == tail[j - 1];
                assert(in_entries(r, rt[q]));
            }
        }
    }
}

#[verifier::spinoff_prover]
proof fn lemma_sort_entries_distinct(s: Seq<(String, JsonValue)>)
    requires
        distinct_keys(s),
    ensures
        distinct_keys(sort_entries(s)),
    decreases s.len(),
{
    if s.len() == 0 {
    } else {
        let tail = s.drop_first();
        let rt = sort_entries(tail);
        lemma_sort_entries_basic(tail);
        assert forall|i: int, j: int| 0 <= i < j < tail.len() implies (#[trigger] tail[i].0@)
            != (#[trigger] tail[j].0@) by {
            assert(tail[i] == s[i + 1]);
            assert(tail[j] == s[j + 1]);
        }
        lemma_sort_entries_distinct(tail);
        assert forall|q: int| 0 <= q < rt.len() implies (#[trigger] rt[q].0@) != s[0].0@ by {
            assert(in_entries(tail, rt[q]));
            let j = choose|j: int| 0 <= j < tail.len() && #[trigger] tail[j] == rt[q];
            assert(tail[j] == s[j + 1]);
            assert(s[0].0@ != s[j + 1].0@);
        }
        lemma_insert_entry_distinct(s[0], rt);
        assert(sort_entries(s) == insert_entry(s[0], rt));
    }
}

proof fn lemma_sort_entries_props(s: Seq<(String, JsonValue)>)
    ensures
        sort_entries(s).len() == s.len(),
        sorted_keys(sort_entries(s)),
        forall|i: int| 0 <= i < sort_entries(s).len() ==> in_entries(s,
            #[trigger] sort_entries(s)[i]),
        forall|j: int| 0 <= j < s.len() ==> in_entries(sort_entries(s), #[trigger] s[j]),
        distinct_keys(s) ==> distinct_keys(sort_entries(s)),
{
    lemma_sort_entries_basic(s);
    if distinct_keys(s) {
        lemma_sort_entries_distinct(s);
    }
}

/// A key occurs among the entries.
pub open spec fn has_key(es: Seq<(String, JsonValue)>, k: Seq<char>) -> bool {
    exists|i: int| 0 <= i < es.len() && (#[trigger] es[i]).0@ == k
}

proof fn lemma_sorted_distinct_same_keys(sa: Seq<(String, JsonValue)>, sb: Seq<(String,
    JsonValue)>)
    requires
        sorted_keys(sa),
        sorted_keys(sb),
        distinct_keys(sa),
        distinct_keys(sb),
        forall|k: Seq<char>| #[trigger] has_key(sa, k) <==> has_key(sb, k),
    ensures
        sa.len() == sb.len(),
        forall|i: int| 0 <= i < sa.len() ==> (#[trigger] sa[i].0@) == sb[i].0@,
    decreases sa.len(),
{
    if sa.len() == 0 {
        if sb.len() > 0 {
            assert(has_key(sb, sb[0].0@));
            assert(has_key(sa, sb[0].0@));
            assert(false);
        }
    } else if sb.len() == 0 {
        assert(has_key(sa, sa[0].0@));
        assert(has_key(sb, sa[0].0@));
        assert(false);
    } else {
        // both heads carry the minimal key, so they agree
        assert(has_key(sa, sa[0].0@));
        assert(has_key(sb, sa[0].0@));
        let jb = choose|j: int| 0 <= j < sb.len() && sb[j].0@ == sa[0].0@;
        if jb > 0 {
            assert(lex_le(sb[0].0@, sb[jb].0@));
        }
        assert(lex_le(sb[0].0@, sa[0].0@) || sb[0].0@ == sa[0].0@);
        assert(has_key(sb, sb[0].0@));
        assert(has_key(sa, sb[0].0@));
        let ia = choose|i: int| 0 <= i < sa.len() && sa[i].0@ == sb[0].0@;
        if ia > 0 {
            assert(lex_le(sa[0].0@, sa[ia].0@));
        }
        assert(lex_le(sa[0].0@, sb[0].0@) || sa[0].0@ == sb[0].0@);
        if sa[0].0@ != sb[0].0@ {
            lemma_lex_le_antisym(sa[0].0@, sb[0].0@);
        }
        assert(sa[0].0@ == sb[0].0@);
        let ta = sa.drop_first();
        let tb = sb.drop_first();
        assert forall|i: int, j: int| 0 <= i < j < ta.len() implies lex_le(
            #[trigger] ta[i].0@, #[trigger] ta[j].0@) && ta[i].0@ != ta[j].0@ by {
            assert(ta[i] == sa[i + 1]);
            assert(ta[j] == sa[j + 1]);
        }
        assert forall|i: int, j: int| 0 <= i < j < tb.len() implies lex_le(
            #[trigger] tb[i].0@, #[trigger] tb[j].0@) && tb[i].0@ != tb[j].0@ by {
            assert(tb[i] == sb[i + 1]);
            assert(tb[j] == sb[j + 1]);
        }
        assert forall|k: Seq<char>| #[trigger] has_key(ta, k) implies has_key(tb, k) by {
            let i = choose|i: int| 0 <= i < ta.len() && ta[i].0@ == k;
            assert(ta[i] == sa[i + 1]);
            assert(has_key(sa, k));
            assert(has_key(sb, k));
            let j = choose|j: int| 0 <= j < sb.len() && sb[j].0@ == k;
            assert(sa[0].0@ != k);
            assert(j > 0);
            assert(tb[j - 1] == sb[j]);
        }
        assert forall|k: Seq<char>| #[trigger] has_key(tb, k) implies has_key(ta, k) by {
            let j = choose|j: int| 0 <= j < tb.len() && tb[j].0@ == k;
            assert(tb[j] == sb[j + 1]);
            assert(has_key(sb, k));
            assert(has_key(sa, k));
            let i = choose|i: int| 0 <= i < sa.len() && sa[i].0@ == k;
            assert(sb[0].0@ != k);
            assert(i > 0);
            assert(ta[i - 1] == sa[i]);
        }
        assert(forall|k: Seq<char>| #[trigger] has_key(ta, k) <==> has_key(tb, k));
        lemma_sorted_distinct_same_keys(ta, tb);
        assert forall|i: int| 0 <= i < sa.len() implies (#[trigger] sa[i].0@) == sb[i].0@ by {
            if i > 0 {
                assert(ta[i - 1].0@ == tb[i - 1].0@);
                assert(ta[i - 1] == sa[i]);
                assert(tb[i - 1] == sb[i]);
            }
        }
    }
}

/// Reordering an object's entries never changes the canonical
/// serialization: two objects with distinct keys that hold the same
/// entries, in any order, canonicalize identically.
#[verifier::spinoff_prover]
#[verifier::rlimit(100)]
pub proof fn lemma_canon_obj_reorder(a: JsonValue, b: JsonValue)
    requires
        a is Obj,
        b is Obj,
        distinct_keys(a->Obj_0@),
        distinct_keys(b->Obj_0@),
        forall|i: int| 0 <= i < a->Obj_0@.len() ==> in_entries(b->Obj_0@,
            #[trigger] a->Obj_0@[i]),
        forall|j: int| 0 <= j < b->Obj_0@.len() ==> in_entries(a->Obj_0@,
            #[trigger] b->Obj_0@[j]),
    ensures
        canon(a) == canon(b),
{
    let xs = a->Obj_0@;
    let ys = b->Obj_0@;
    let sa = sort_entries(xs);
    let sb = sort_entries(ys);
    lemma_sort_entries_props(xs);
    lemma_sort_entries_props(ys);
    assert forall|k: Seq<char>| #[trigger] has_key(sa, k) implies has_key(sb, k) by {
        let i = choose|i: int| 0 <= i < sa.len() && sa[i].0@ == k;
        assert(in_entries(xs, sa[i]));
        let q = choose|q: int| 0 <= q < xs.len() && #[trigger] xs[q] == sa[i];
        assert(in_entries(ys, xs[q]));
        let j = choose|j: int| 0 <= j < ys.len() && #[trigger] ys[j] == xs[q];
        assert(in_entries(sb, ys[j]));
        let m = choose|m: int| 0 <= m < sb.len() && #[trigger] sb[m] == ys[j];
        assert(sb[m].0@ == k);
    }
    assert forall|k: Seq<char>| #[trigger] has_key(sb, k) implies has_key(sa, k) by {
        let i = choose|i: int| 0 <= i < sb.len() && sb[i].0@ == k;
        assert(in_entries(ys, sb[i]));
        let q = choose|q: int| 0 <= q < ys.len() && #[trigger] ys[q] == sb[i];
        assert(in_entries(xs, ys[q]));
        let j = choose|j: int| 0 <= j < xs.len() && #[trigger] xs[j] == ys[q];
        assert(in_entries(sa, xs[j]));
        let m = choose|m: int| 0 <= m < sa.len() && #[trigger] sa[m] == xs[j];
        assert(sa[m].0@ == k);
    }
    assert(forall|k: Seq<char>| #[trigger] has_key(sa, k) <==> has_key(sb, k));
    lemma_sorted_distinct_same_keys(sa, sb);
    assert forall|i: int| 0 <= i < sa.len() implies #[trigger] sa[i] == sb[i] by {
        assert(in_entries(xs, sa[i]));
        let q = choose|q: int| 0 <= q < xs.len() && #[trigger] xs[q] == sa[i];
        assert(in_entries(ys, xs[q]));
        let j = choose|j: int| 0 <= j < ys.len() && #[trigger] ys[j] == xs[q];
        assert(sa[i] == ys[j]);
        assert(in_entries(ys, sb[i]));
        let jb = choose|jb: int| 0 <= jb < ys.len() && #[trigger] ys[jb] == sb[i];
        assert(sb[i].0@ == sa[i].0@);
        assert(ys[j].0@ == ys[jb].0@);
        if j != jb {
            assert(distinct_keys(ys));
            assert(false);
        }
        assert(sb[i] == ys[jb]);
    }
    assert(sa =~= sb);
    assert(canon(a) == seq!['{'] + canon_entries(sa) + seq!['}']);
    assert(canon(b) == seq!['{'] + canon_entries(sb) + seq!['}']);
}

/// Objects holding the same entries, in any order, hash identically:
/// the claim hash is invariant under reordering an object's keys.
pub proof fn lemma_hash_claim_reorder(a: JsonValue, b: JsonValue)
    requires
        a is Obj,
        b is Obj,
        distinct_keys(a->Obj_0@),
        distinct_keys(b->Obj_0@),
        forall|i: int| 0 <= i < a->Obj_0@.len() ==> in_entries(b->Obj_0@,
            #[trigger] a->Obj_0@[i]),
        forall|j: int| 0 <= j < b->Obj_0@.len() ==> in_entries(a->Obj_0@,
            #[trigger] b->Obj_0@[j]),
    ensures
        hash_claim_spec(a) == hash_claim_spec(b),
{
    lemma_canon_obj_reorder(a, b);
}

} // verus!
