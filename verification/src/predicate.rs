//! Predicate identifiers: a named, versioned assertion type, written
//! canonically as `NAME_VERSION` and parsed from either `NAME@VERSION`
//! or `NAME_VERSION` (split at the last underscore).

use vstd::prelude::*;
use vstd::string::StrSliceExecFns;
use vstd::string::StringExecFns;
use crate::strutil::push_char;

verus! {

/// A predicate identifier with version.
#[derive(Debug)]
pub struct PredicateId {
    pub name: String,
    pub version: String,
}

/// Why a predicate identifier failed to parse.
#[derive(Debug, Clone, Copy, PartialEq, Eq, Structural)]
pub enum PredicateError {
    /// The identifier has no version separator.
    MissingVersion,
}

/// The first position of a character in a string, if any.
pub open spec fn find_char(s: Seq<char>, c: char) -> Option<int>
    decreases s.len(),
{
    if s.len() == 0 {
        None
    } else if s[0] == c {
        Some(0)
    } else {
        match find_char(s.drop_first(), c) {
            Some(i) => Some(i + 1),
            None => None,
        }
    }
}

/// The last position of a character in a string, if any.
pub open spec fn rfind_char(s: Seq<char>, c: char) -> Option<int>
    decreases s.len(),
{
    if s.len() == 0 {
        None
    } else if s.last() == c {
        Some(s.len() - 1)
    } else {
        rfind_char(s.drop_last(), c)
    }
}

/// Dots replaced by underscores, as the canonical form spells a
/// dotted version.
pub open spec fn dots_to_underscores(s: Seq<char>) -> Seq<char> {
    s.map(|_i: int, c: char| if c == '.' {
        '_'
    } else {
        c
    })
}

pub proof fn lemma_find_char_at(s: Seq<char>, c: char, i: int)
    requires
        0 <= i < s.len(),
        s[i] == c,
        forall|k: int| 0 <= k < i ==> s[k] != c,
    ensures
        find_char(s, c) == Some(i),
    decreases s.len(),
{
    if i == 0 {
    } else {
        assert(s[0] != c);
        lemma_find_char_at(s.drop_first(), c, i - 1);
    }
}

pub proof fn lemma_find_char_none(s: Seq<char>, c: char)
    requires
        forall|k: int| 0 <= k < s.len() ==> s[k] != c,
    ensures
        find_char(s, c) is None,
    decreases s.len(),
{
    if s.len() > 0 {
        lemma_find_char_none(s.drop_first(), c);
    }
}

proof fn lemma_rfind_char_at(s: Seq<char>, c: char, i: int)
    requires
        0 <= i < s.len(),
        s[i] == c,
        forall|k: int| i < k < s.len() ==> s[k] != c,
    ensures
        rfind_char(s, c) == Some(i),
    decreases s.len(),
{
    if i == s.len() - 1 {
    } else {
        assert(s.last() != c);
        lemma_rfind_char_at(s.drop_last(), c, i);
    }
}

proof fn lemma_rfind_char_none(s: Seq<char>, c: char)
    requires
        forall|k: int| 0 <= k < s.len() ==> s[k] != c,
    ensures
        rfind_char(s, c) is None,
    decreases s.len(),
{
    if s.len() > 0 {
        lemma_rfind_char_none(s.drop_last(), c);
    }
}

impl PredicateId {
    /// A predicate identifier from its parts.
    pub fn new(name: &str, version: &str) -> (r: PredicateId)
        ensures
            r.name@ == name@,
            r.version@ == version@,
    {
        PredicateId { name: String::from_str(name), version: String::from_str(version) }
    }

    /// The canonical `NAME_VERSION` spelling, with dots in the version
    /// replaced by underscores.
    pub fn canonical(&self) -> (r: String)
        ensures
            r@ == self.name@ + seq!['_'] + dots_to_underscores(self.version@),
    {
        let mut out = String::from_str(self.name.as_str());
        push_char(&mut out, '_');
        let vlen = self.version.as_str().unicode_len();
        let mut i: usize = 0;
        let ghost base = out@;
        while i < vlen
            invariant
                vlen == self.version@.len(),
                i <= vlen,
                base == self.name@ + seq!['_'],
                out@ == base + dots_to_underscores(self.version@).take(i as int),
            decreases vlen - i,
        {
            let c = self.version.as_str().get_char(i);
            let mapped: char = if c == '.' {
                '_'
            } else {
                c
            };
            proof {
                assert(dots_to_underscores(self.version@)[i as int] == mapped);
            }
            push_char(&mut out, mapped);
            proof {
                assert(out@ =~= base + dots_to_underscores(self.version@).take(i + 1));
            }
            i = i + 1;
        }
        proof {
            assert(dots_to_underscores(self.version@).take(vlen as int) =~= dots_to_underscores(
                self.version@));
        }
        out
    }
}

/// What parsing a predicate identifier yields: at the first `@` when
/// one occurs; otherwise at the last `_` with both halves non-empty;
/// otherwise nothing.
pub open spec fn predicate_split(s: Seq<char>) -> Option<(Seq<char>, Seq<char>)> {
    match find_char(s, '@') {
        Some(i) => Some((s.take(i), s.skip(i + 1))),
        None => match rfind_char(s, '_') {
            Some(i) => if i > 0 && i < s.len() - 1 {
                Some((s.take(i), s.skip(i + 1)))
            } else {
                None
            },
            None => None,
        },
    }
}

/// Parses `NAME@VERSION` or `NAME_VERSION` into a predicate
/// identifier; fails when no version separator is found.
pub fn parse_predicate_id(canonical: &str) -> (r: Result<PredicateId, PredicateError>)
    ensures
        r matches Ok(p) ==> predicate_split(canonical@) == Some((p.name@, p.version@)),
        r is Err <==> predicate_split(canonical@) is None,
{
    let len = canonical.unicode_len();
    // first '@', if any
    let mut i: usize = 0;
    while i < len
        invariant
            len == canonical@.len(),
            i <= len,
            forall|k: int| 0 <= k < i ==> canonical@[k] != '@',
        decreases len - i,
    {
        if canonical.get_char(i) == '@' {
            proof {
                lemma_find_char_at(canonical@, '@', i as int);
            }
            let name = canonical.substring_char(0, i);
            let version = canonical.substring_char(i + 1, len);
            proof {
                assert(name@ =~= canonical@.take(i as int));
                assert(version@ =~= canonical@.skip(i + 1));
            }
            return Ok(PredicateId {
                name: String::from_str(name),
                version: String::from_str(version),
            });
        }
        i = i + 1;
    }
    proof {
        lemma_find_char_none(canonical@, '@');
    }
    // last '_', if any
    let mut j: usize = len;
    while j > 0
        invariant
            len == canonical@.len(),
            j <= len,
            find_char(canonical@, '@') is None,
            forall|k: int| j <= k < len ==> canonical@[k] != '_',
        decreases j,
    {
        j = j - 1;
        if canonical.get_char(j) == '_' {
            proof {
                lemma_rfind_char_at(canonical@, '_', j as int);
            }
            if j > 0 && j + 1 < len {
                let name = canonical.substring_char(0, j);
                let version = canonical.substring_char(j + 1, len);
                proof {
                    assert(name@ =~= canonical@.take(j as int));
                    assert(version@ =~= canonical@.skip(j + 1));
                }
                return Ok(PredicateId {
                    name: String::from_str(name),
                    version: String::from_str(version),
                });
            }
            return Err(PredicateError::MissingVersion);
        }
    }
    proof {
        lemma_rfind_char_none(canonical@, '_');
    }
    Err(PredicateError::MissingVersion)
}

} // verus!
