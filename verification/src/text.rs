//! Small helpers on text, shared by the parsers.

use vstd::prelude::*;
use vstd::string::*;

verus! {

/// The characters of a string, in order.
pub fn chars_of(s: &str) -> (r: Vec<char>)
    ensures
        r@ == s@,
{
    let n: usize = s.unicode_len();
    let mut out: Vec<char> = Vec::new();
    let mut i: usize = 0;
    while i < n
        invariant
            n == s@.len(),
            i <= n,
            out@ == s@.subrange(0, i as int),
        decreases n - i,
    {
        out.push(s.get_char(i));
        i = i + 1;
    }
    out
}

/// Whether `s` begins with `prefix`.
pub open spec fn starts_with(s: Seq<char>, prefix: Seq<char>) -> bool {
    prefix.len() <= s.len() && s.subrange(0, prefix.len() as int) == prefix
}

/// Whether `s` ends with `suffix`.
pub open spec fn ends_with(s: Seq<char>, suffix: Seq<char>) -> bool {
    suffix.len() <= s.len() && s.subrange(s.len() - suffix.len(), s.len() as int) == suffix
}

/// Whether `s` holds `part` from position `at` on.
pub fn matches_at(s: &Vec<char>, at: usize, part: &Vec<char>) -> (r: bool)
    ensures
        r == (at + part@.len() <= s@.len() && s@.subrange(
            at as int,
            at + part@.len() as int,
        ) == part@),
{
    if at > s.len() || part.len() > s.len() - at {
        return false;
    }
    let mut i: usize = 0;
    while i < part.len()
        invariant
            at + part.len() <= s.len(),
            i <= part.len(),
            s@.subrange(at as int, at + i as int) == part@.subrange(0, i as int),
        decreases part.len() - i,
    {
        if s[at + i] != part[i] {
            assert(s@.subrange(at as int, at + part@.len() as int)[i as int] != part@[i as int]);
            return false;
        }
        assert(s@.subrange(at as int, at + i + 1 as int) == s@.subrange(
            at as int,
            at + i as int,
        ).push(s@[at + i as int]));
        assert(part@.subrange(0, i + 1 as int) == part@.subrange(0, i as int).push(
            part@[i as int],
        ));
        i = i + 1;
    }
    assert(part@.subrange(0, part@.len() as int) == part@);
    true
}

} // verus!
