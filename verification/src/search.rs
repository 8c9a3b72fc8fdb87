//! Finding one text inside another.

use vstd::prelude::*;
use crate::chars::to_chars;

verus! {

/// Whether `needle` stands at position `i` of `hay`.
pub open spec fn stands(hay: Seq<char>, needle: Seq<char>, i: int) -> bool {
    &&& 0 <= i
    &&& i + needle.len() <= hay.len()
    &&& hay.subrange(i, i + needle.len()) == needle
}

/// The first position from `i` on at which `needle` stands in `hay`.
pub open spec fn find_from(hay: Seq<char>, needle: Seq<char>, i: int) -> Option<int>
    decreases hay.len() + 1 - i,
{
    if i + needle.len() > hay.len() {
        None
    } else if stands(hay, needle, i) {
        Some(i)
    } else {
        find_from(hay, needle, i + 1)
    }
}

/// The first position at which `needle` stands in `hay`.
pub open spec fn find(hay: Seq<char>, needle: Seq<char>) -> Option<int> {
    find_from(hay, needle, 0)
}

pub proof fn lemma_find_from(hay: Seq<char>, needle: Seq<char>, i: int)
    requires
        0 <= i,
    ensures
        match find_from(hay, needle, i) {
            Some(k) => i <= k && stands(hay, needle, k) && forall|j: int|
                i <= j < k ==> !#[trigger] stands(hay, needle, j),
            None => forall|j: int| i <= j ==> !#[trigger] stands(hay, needle, j),
        },
    decreases hay.len() + 1 - i,
{
    if i + needle.len() <= hay.len() && !stands(hay, needle, i) {
        lemma_find_from(hay, needle, i + 1);
    }
}

/// Whether `needle` stands at position `i` of `hay`.
fn stands_here(hay: &[char], needle: &[char], i: usize) -> (r: bool)
    requires
        i + needle@.len() <= hay@.len(),
    ensures
        r == stands(hay@, needle@, i as int),
{
    let total: usize = hay.len();
    let mut k: usize = 0;
    let ghost here = hay@.subrange(i as int, i + needle@.len());
    while k < needle.len()
        invariant
            k <= needle@.len(),
            i + needle@.len() <= hay@.len() == total,
            here == hay@.subrange(i as int, i + needle@.len()),
            forall|j: int| 0 <= j < k ==> #[trigger] here[j] == needle@[j],
        decreases needle@.len() - k,
    {
        if hay[i + k] != needle[k] {
            assert(here[k as int] != needle@[k as int]);
            return false;
        }
        k += 1;
    }
    assert(here =~= needle@);
    true
}

/// The first position at which `needle` stands in `hay`.
pub fn find_chars(hay: &[char], needle: &[char]) -> (r: Option<usize>)
    ensures
        match r {
            Some(k) => find(hay@, needle@) == Some(k as int) && k + needle@.len() <= hay@.len(),
            None => find(hay@, needle@) is None,
        },
{
    if needle.len() > hay.len() {
        return None;
    }
    let last: usize = hay.len() - needle.len();
    let mut i: usize = 0;
    loop
        invariant
            i <= last,
            last + needle@.len() == hay@.len(),
            find(hay@, needle@) == find_from(hay@, needle@, i as int),
        decreases last - i,
    {
        if stands_here(hay, needle, i) {
            return Some(i);
        }
        if i == last {
            assert(find_from(hay@, needle@, i + 1) is None);
            return None;
        }
        i += 1;
    }
}

/// Whether a text contains another.
pub fn contains(hay: &str, needle: &str) -> (r: bool)
    ensures
        r == (find(hay@, needle@) is Some),
{
    find_chars(to_chars(hay).as_slice(), to_chars(needle).as_slice()).is_some()
}

} // verus!
