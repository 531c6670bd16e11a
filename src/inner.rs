use vstd::prelude::*;

use crate::text::chars_of;

verus! {

/// Every character of `search` occurs somewhere in `original`; how often it
/// occurs does not matter.
pub open spec fn contains_all(original: Seq<char>, search: Seq<char>) -> bool {
    forall|i: int| 0 <= i < search.len() ==> original.contains(#[trigger] search[i])
}

/// Every string holds all of its own characters.
pub proof fn lemma_contains_all_reflexive(a: Seq<char>)
    ensures
        contains_all(a, a),
{
    assert forall|i: int| 0 <= i < a.len() implies a.contains(#[trigger] a[i]) by {
        assert(a[i] == a[i]);
    }
}

/// Appending to `search` anything that holds a character absent from
/// `original` makes the test fail, whatever it gave before.
pub proof fn lemma_contains_all_absent_extra(
    original: Seq<char>,
    search: Seq<char>,
    extra: Seq<char>,
    k: int,
)
    requires
        0 <= k < extra.len(),
        !original.contains(extra[k]),
    ensures
        !contains_all(original, search + extra),
{
    assert((search + extra)[search.len() + k] == extra[k]);
}

/// Whether `c` occurs in `v`.
fn occurs_in(v: &Vec<char>, c: char) -> (r: bool)
    ensures
        r == v@.contains(c),
{
    let mut i: usize = 0;
    while i < v.len()
        invariant
            i <= v@.len(),
            forall|k: int| 0 <= k < i ==> v@[k] != c,
        decreases v@.len() - i,
    {
        if v[i] == c {
            return true;
        }
        i = i + 1;
    }
    false
}

/// Returns true when every character of `search` occurs somewhere in `original`.
pub fn get_inner_match(original: &str, search: &str) -> (r: bool)
    ensures
        r == contains_all(original@, search@),
{
    let a = chars_of(original);
    let b = chars_of(search);
    inner_match_of_chars(&a, &b)
}

/// Character-subset test on two character vectors.
pub fn inner_match_of_chars(original: &Vec<char>, search: &Vec<char>) -> (r: bool)
    ensures
        r == contains_all(original@, search@),
{
    let mut i: usize = 0;
    while i < search.len()
        invariant
            i <= search@.len(),
            forall|k: int| 0 <= k < i ==> original@.contains(#[trigger] search@[k]),
        decreases search@.len() - i,
    {
        if !occurs_in(original, search[i]) {
            return false;
        }
        i = i + 1;
    }
    true
}

} // verus!
