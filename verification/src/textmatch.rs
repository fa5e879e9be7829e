//! Case-insensitive text matching over strings: a trusted lowercase
//! conversion and a verified substring search.

use vstd::prelude::*;
use vstd::string::StrSliceExecFns;

verus! {

/// What `str::to_lowercase` returns for the given characters.
pub uninterp spec fn lower_of(s: Seq<char>) -> Seq<char>;

/// Relies on `str::to_lowercase`: the result depends on the characters
/// alone.
#[verifier::external_body]
pub fn lowercase(s: &str) -> (r: String)
    ensures
        r@ == lower_of(s@),
        s@.len() == 0 ==> r@.len() == 0,
{
    s.to_lowercase()
}

/// `needle` occurs contiguously in `hay`.
pub open spec fn spec_contains_sub(hay: Seq<char>, needle: Seq<char>) -> bool {
    exists|i: int|
        0 <= i && i + needle.len() <= hay.len() && #[trigger] hay.subrange(i, i + needle.len())
            == needle
}

/// Whether `hay[at .. at + needle.len()]` equals `needle`.
#[verifier::loop_isolation(false)]
pub fn matches_at(hay: &str, hlen: usize, needle: &str, nlen: usize, at: usize) -> (r: bool)
    requires
        hlen == hay@.len(),
        nlen == needle@.len(),
        at + nlen <= hlen,
    ensures
        r == (hay@.subrange(at as int, at + nlen) == needle@),
{
    let mut j: usize = 0;
    while j < nlen
        invariant
            j <= nlen,
            forall|t: int| 0 <= t < j ==> hay@[at + t] == needle@[t],
        decreases nlen - j,
    {
        if hay.get_char(at + j) != needle.get_char(j) {
            assert(hay@.subrange(at as int, at + nlen)[j as int] != needle@[j as int]);
            return false;
        }
        j = j + 1;
    }
    assert(hay@.subrange(at as int, at + nlen) =~= needle@);
    true
}

/// Substring search; quadratic, which the small catalog strings bear.
#[verifier::loop_isolation(false)]
pub fn contains_sub(hay: &str, needle: &str) -> (r: bool)
    ensures
        r == spec_contains_sub(hay@, needle@),
{
    let hlen = hay.unicode_len();
    let nlen = needle.unicode_len();
    if nlen > hlen {
        return false;
    }
    if nlen == 0 {
        assert(spec_contains_sub(hay@, needle@)) by {
            assert(hay@.subrange(0, 0 + needle@.len() as int) =~= needle@);
        }
        return true;
    }
    let end = hlen - nlen;
    let mut i: usize = 0;
    while i <= end
        invariant
            i <= end + 1,
            1 <= nlen <= hlen,
            end == hlen - nlen,
            forall|t: int|
                0 <= t < i ==> #[trigger] hay@.subrange(t, t + needle@.len()) != needle@,
        decreases end + 1 - i,
    {
        if matches_at(hay, hlen, needle, nlen, i) {
            return true;
        }
        i = i + 1;
    }
    false
}

/// Whether the lowercase form of `target` contains the lowercase form of
/// `inside` — the library's one case-insensitive match.
pub fn lowercase_contains(inside: &str, target: &str) -> (r: bool)
    ensures
        r == spec_contains_sub(lower_of(target@), lower_of(inside@)),
{
    let inside_lower = lowercase(inside);
    let target_lower = lowercase(target);
    contains_sub(target_lower.as_str(), inside_lower.as_str())
}

/// `a` starts with `b`.
pub open spec fn spec_starts_with(a: Seq<char>, b: Seq<char>) -> bool {
    b.len() <= a.len() && a.subrange(0, b.len() as int) == b
}

pub fn starts_with(a: &str, b: &str) -> (r: bool)
    ensures
        r == spec_starts_with(a@, b@),
{
    let alen = a.unicode_len();
    let blen = b.unicode_len();
    if blen > alen {
        return false;
    }
    matches_at(a, alen, b, blen, 0)
}

} // verus!
