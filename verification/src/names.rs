//! File names are byte strings. A name that is looked up is first stripped
//! of the ASCII whitespace around it.

use vstd::prelude::*;

verus! {

/// The ASCII whitespace bytes: space, tab, line feed, form feed and carriage
/// return.
pub open spec fn is_ascii_space(b: u8) -> bool {
    b == 32 || b == 9 || b == 10 || b == 12 || b == 13
}

/// `s` without its leading ASCII whitespace.
pub open spec fn trim_start(s: Seq<u8>) -> Seq<u8>
    decreases s.len(),
{
    if s.len() > 0 && is_ascii_space(s[0]) {
        trim_start(s.drop_first())
    } else {
        s
    }
}

/// `s` without its trailing ASCII whitespace.
pub open spec fn trim_end(s: Seq<u8>) -> Seq<u8>
    decreases s.len(),
{
    if s.len() > 0 && is_ascii_space(s.last()) {
        trim_end(s.drop_last())
    } else {
        s
    }
}

/// `s` without the ASCII whitespace at either end.
pub open spec fn trim(s: Seq<u8>) -> Seq<u8> {
    trim_end(trim_start(s))
}

/// Whether `b` is an ASCII whitespace byte.
pub fn byte_is_space(b: u8) -> (r: bool)
    ensures
        r == is_ascii_space(b),
{
    b == 32 || b == 9 || b == 10 || b == 12 || b == 13
}

/// The bounds of the trimmed part of `s`: `trim(s)` is `s[start..end]`.
pub fn trim_bounds(s: &[u8]) -> (bounds: (usize, usize))
    ensures
        bounds.0 <= bounds.1 <= s@.len(),
        trim(s@) == s@.subrange(bounds.0 as int, bounds.1 as int),
{
    let mut start: usize = 0;
    assert(s@.subrange(0, s@.len() as int) =~= s@);
    while start < s.len() && byte_is_space(s[start])
        invariant
            start <= s@.len(),
            trim_start(s@) == trim_start(s@.subrange(start as int, s@.len() as int)),
        decreases s@.len() - start,
    {
        proof {
            let rest = s@.subrange(start as int, s@.len() as int);
            assert(rest.drop_first() =~= s@.subrange(start + 1, s@.len() as int));
        }
        start = start + 1;
    }
    assert(trim_start(s@) == s@.subrange(start as int, s@.len() as int));
    let mut end: usize = s.len();
    while end > start && byte_is_space(s[end - 1])
        invariant
            start <= end <= s@.len(),
            trim(s@) == trim_end(s@.subrange(start as int, end as int)),
        decreases end,
    {
        proof {
            let part = s@.subrange(start as int, end as int);
            assert(part.drop_last() =~= s@.subrange(start as int, end - 1));
        }
        end = end - 1;
    }
    (start, end)
}

/// Whether `stored` is, byte for byte, the trimmed `query`.
pub fn name_matches(stored: &Vec<u8>, query: &[u8]) -> (r: bool)
    ensures
        r == (stored@ == trim(query@)),
{
    let (start, end) = trim_bounds(query);
    assert(trim(query@).len() == end - start);
    if stored.len() != end - start {
        return false;
    }
    let mut i: usize = 0;
    while i < stored.len()
        invariant
            i <= stored@.len(),
            start <= end <= query@.len(),
            stored@.len() == end - start,
            trim(query@) == query@.subrange(start as int, end as int),
            forall|j: int| 0 <= j < i ==> stored@[j] == query@[start + j],
        decreases stored@.len() - i,
    {
        if stored[i] != query[start + i] {
            assert(trim(query@)[i as int] == query@[start + i]);
            return false;
        }
        i = i + 1;
    }
    assert(stored@ =~= query@.subrange(start as int, end as int));
    true
}

/// Trimming leaves alone a name that neither starts nor ends with ASCII
/// whitespace.
pub proof fn lemma_trim_clean(s: Seq<u8>)
    requires
        s.len() == 0 || (!is_ascii_space(s[0]) && !is_ascii_space(s.last())),
    ensures
        trim(s) == s,
{
}

} // verus!
