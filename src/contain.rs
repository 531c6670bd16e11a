use vstd::prelude::*;

use crate::text::chars_of;

verus! {

/// Characters with the Unicode `White_Space` property.
pub open spec fn is_white_space(c: char) -> bool {
    let u = c as u32;
    (0x9 <= u && u <= 0xD) || u == 0x20 || u == 0x85 || u == 0xA0 || u == 0x1680 || (0x2000
        <= u && u <= 0x200A) || u == 0x2028 || u == 0x2029 || u == 0x202F || u == 0x205F || u
        == 0x3000
}

/// `s` with every whitespace character taken out, the others kept in order.
pub open spec fn strip_white_space(s: Seq<char>) -> Seq<char>
    decreases s.len(),
{
    if s.len() == 0 {
        Seq::empty()
    } else if is_white_space(s.last()) {
        strip_white_space(s.drop_last())
    } else {
        strip_white_space(s.drop_last()).push(s.last())
    }
}

/// `needle` occurs as a contiguous run inside `haystack`.
pub open spec fn is_substring(needle: Seq<char>, haystack: Seq<char>) -> bool {
    exists|k: int|
        0 <= k && k + needle.len() <= haystack.len() && #[trigger] haystack.subrange(
            k,
            k + needle.len(),
        ) == needle
}

/// Whitespace-insensitive containment of `search` in `original`.
pub open spec fn contain_match(original: Seq<char>, search: Seq<char>) -> bool {
    is_substring(strip_white_space(search), strip_white_space(original))
}

/// Every string contains itself.
pub proof fn lemma_contain_match_reflexive(a: Seq<char>)
    ensures
        contain_match(a, a),
{
    let s = strip_white_space(a);
    assert(s.subrange(0, 0 + s.len() as int) =~= s);
}

/// The empty string is contained in every string.
pub proof fn lemma_contain_match_empty(a: Seq<char>)
    ensures
        contain_match(a, Seq::<char>::empty()),
{
    let s = strip_white_space(a);
    let e = Seq::<char>::empty();
    assert(strip_white_space(e) == e);
    assert(s.subrange(0, 0 + e.len() as int) =~= e);
}

/// Relies on char::is_whitespace: true exactly for the characters with the
/// Unicode `White_Space` property.
#[verifier::external_body]
fn is_whitespace_char(c: char) -> (r: bool)
    ensures
        r == is_white_space(c),
{
    c.is_whitespace()
}

/// The characters of `s` that are not whitespace, in order.
pub fn strip_whitespace_chars(s: &Vec<char>) -> (r: Vec<char>)
    ensures
        r@ == strip_white_space(s@),
{
    let mut r: Vec<char> = Vec::new();
    let mut i: usize = 0;
    while i < s.len()
        invariant
            i <= s@.len(),
            r@ == strip_white_space(s@.take(i as int)),
        decreases s@.len() - i,
    {
        assert(s@.take(i as int + 1).drop_last() == s@.take(i as int));
        if !is_whitespace_char(s[i]) {
            r.push(s[i]);
        }
        i = i + 1;
    }
    assert(s@.take(s@.len() as int) == s@);
    r
}

/// Whether `needle` equals the run of `haystack` that starts at `k`.
fn occurs_at(needle: &Vec<char>, haystack: &Vec<char>, k: usize) -> (r: bool)
    requires
        k + needle@.len() <= haystack@.len(),
    ensures
        r == (haystack@.subrange(k as int, k + needle@.len()) == needle@),
{
    let mut i: usize = 0;
    while i < needle.len()
        invariant
            k + needle@.len() <= haystack.len(),
            i <= needle@.len(),
            forall|m: int| 0 <= m < i ==> haystack@[k + m] == needle@[m],
        decreases needle@.len() - i,
    {
        if haystack[k + i] != needle[i] {
            assert(haystack@.subrange(k as int, k + needle@.len())[i as int] != needle@[i as int]);
            return false;
        }
        i = i + 1;
    }
    assert(haystack@.subrange(k as int, k + needle@.len()) =~= needle@);
    true
}

/// Whether `needle` occurs as a contiguous run inside `haystack`.
pub fn is_substring_of(needle: &Vec<char>, haystack: &Vec<char>) -> (r: bool)
    ensures
        r == is_substring(needle@, haystack@),
{
    if needle.len() > haystack.len() {
        return false;
    }
    let last = haystack.len() - needle.len();
    let mut k: usize = 0;
    while k < last
        invariant
            last + needle@.len() == haystack@.len(),
            k <= last,
            forall|m: int|
                0 <= m < k ==> #[trigger] haystack@.subrange(m, m + needle@.len()) != needle@,
        decreases last - k,
    {
        if occurs_at(needle, haystack, k) {
            return true;
        }
        k = k + 1;
    }
    occurs_at(needle, haystack, last)
}

/// Returns true when `search`, with all whitespace taken out, occurs as a
/// contiguous run in `original` with all whitespace taken out.
pub fn get_contain_match(original: &str, search: &str) -> (r: bool)
    ensures
        r == contain_match(original@, search@),
{
    let a = chars_of(original);
    let b = chars_of(search);
    contain_match_of_chars(&a, &b)
}

/// Whitespace-insensitive containment on two character vectors.
pub fn contain_match_of_chars(original: &Vec<char>, search: &Vec<char>) -> (r: bool)
    ensures
        r == contain_match(original@, search@),
{
    let o = strip_whitespace_chars(original);
    let s = strip_whitespace_chars(search);
    is_substring_of(&s, &o)
}

} // verus!
