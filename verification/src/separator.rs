//! The data URL as bytes: metadata, the first comma, and the payload after it.

use vstd::prelude::*;
use vstd::slice::slice_subrange;

verus! {

/// The comma, which parts the metadata from the payload, as a byte.
pub const SEPARATOR: u8 = 44;

/// The place at which `x` first stands in `s`; the length of `s` where it
/// holds no `x`.
pub open spec fn first_index<T>(s: Seq<T>, x: T) -> int
    decreases s.len(),
{
    if s.len() == 0 || s[0] == x {
        0
    } else {
        1 + first_index(s.skip(1), x)
    }
}

/// Whether `url` holds a separator at all.
pub open spec fn has_separator(url: Seq<u8>) -> bool {
    url.contains(SEPARATOR)
}

/// The place of the first separator in `url`; the length of `url` where it
/// holds none.
pub open spec fn separator_index(url: Seq<u8>) -> int {
    first_index(url, SEPARATOR)
}

/// What follows the first separator: the encoded image.
pub open spec fn payload(url: Seq<u8>) -> Seq<u8>
    recommends
        has_separator(url),
{
    url.skip(separator_index(url) + 1)
}

/// `first_index` is a place in `s` or its length, nothing before it is `x`,
/// and it is a place in `s` exactly when `s` holds `x`, which then stands there.
pub proof fn lemma_first_index<T>(s: Seq<T>, x: T)
    ensures
        0 <= first_index(s, x) <= s.len(),
        forall|j: int| 0 <= j < first_index(s, x) ==> s[j] != x,
        s.contains(x) <==> first_index(s, x) < s.len(),
        s.contains(x) ==> s[first_index(s, x)] == x,
    decreases s.len(),
{
    if s.len() == 0 || s[0] == x {
    } else {
        let rest = s.skip(1);
        lemma_first_index(rest, x);
        assert forall|j: int| 0 <= j < first_index(s, x) implies s[j] != x by {
            if j > 0 {
                assert(s[j] == rest[j - 1]);
            }
        }
        if s.contains(x) {
            let k = choose|k: int| 0 <= k < s.len() && s[k] == x;
            assert(rest[k - 1] == x);
        }
        if first_index(rest, x) < rest.len() {
            assert(s[first_index(s, x)] == rest[first_index(rest, x)]);
        }
    }
}

/// A place that holds `x`, with no `x` before it, is the first index of `x`.
pub proof fn lemma_first_index_is<T>(s: Seq<T>, x: T, i: int)
    requires
        0 <= i < s.len(),
        s[i] == x,
        forall|j: int| 0 <= j < i ==> s[j] != x,
    ensures
        s.contains(x),
        first_index(s, x) == i,
{
    lemma_first_index(s, x);
}

/// A prefix without `x` moves the first index of `x` by its length.
pub proof fn lemma_first_index_after_prefix<T>(prefix: Seq<T>, rest: Seq<T>, x: T)
    requires
        !prefix.contains(x),
    ensures
        (prefix + rest).contains(x) <==> rest.contains(x),
        first_index(prefix + rest, x) == prefix.len() + first_index(rest, x),
{
    let whole = prefix + rest;
    lemma_first_index(rest, x);
    lemma_first_index(whole, x);
    let i = prefix.len() + first_index(rest, x);
    if rest.contains(x) {
        assert(whole[i] == rest[first_index(rest, x)]);
        assert forall|j: int| 0 <= j < i implies whole[j] != x by {
            if j < prefix.len() {
                assert(prefix[j] == whole[j]);
                assert(prefix.contains(whole[j]));
            } else {
                assert(whole[j] == rest[j - prefix.len()]);
            }
        }
        lemma_first_index_is(whole, x, i);
    } else if whole.contains(x) {
        let k = choose|k: int| 0 <= k < whole.len() && whole[k] == x;
        if k < prefix.len() {
            assert(prefix[k] == x);
        } else {
            assert(rest[k - prefix.len()] == x);
        }
    }
}

/// Finds the first separator of `url`.
pub fn find_separator(url: &[u8]) -> (res: Option<usize>)
    ensures
        res is Some <==> has_separator(url@),
        res matches Some(i) ==> i == separator_index(url@),
{
    let mut i: usize = 0;
    while i < url.len()
        invariant
            i <= url.len(),
            forall|j: int| 0 <= j < i ==> url@[j] != SEPARATOR,
        decreases url.len() - i,
    {
        if url[i] == SEPARATOR {
            proof {
                lemma_first_index_is(url@, SEPARATOR, i as int);
            }
            return Some(i);
        }
        i += 1;
    }
    None
}

/// Parts `url` at its first separator and hands back what follows it.
pub fn split_payload(url: &[u8]) -> (res: Option<&[u8]>)
    ensures
        res is Some <==> has_separator(url@),
        res matches Some(rest) ==> rest@ == payload(url@),
{
    match find_separator(url) {
        None => None,
        Some(i) => {
            let end = url.len();
            proof {
                lemma_first_index(url@, SEPARATOR);
            }
            Some(slice_subrange(url, i + 1, end))
        },
    }
}

} // verus!
