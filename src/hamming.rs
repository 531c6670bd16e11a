use vstd::prelude::*;

use crate::text::chars_of;

verus! {

/// Why a Hamming distance could not be computed.
#[derive(Debug, Clone, Copy, PartialEq, Eq, Structural)]
pub enum HammingError {
    /// The two strings hold different numbers of characters.
    LengthMismatch,
}

/// Number of positions below `n` at which `a` and `b` hold different characters.
pub open spec fn mismatches(a: Seq<char>, b: Seq<char>, n: nat) -> nat
    decreases n,
{
    if n == 0 {
        0
    } else {
        mismatches(a, b, (n - 1) as nat) + if a[n - 1] != b[n - 1] {
            1nat
        } else {
            0nat
        }
    }
}

/// Hamming distance of two sequences of equal length.
pub open spec fn hamming(a: Seq<char>, b: Seq<char>) -> nat {
    mismatches(a, b, a.len())
}

/// No more positions differ than were looked at.
pub proof fn lemma_mismatches_bound(a: Seq<char>, b: Seq<char>, n: nat)
    ensures
        mismatches(a, b, n) <= n,
    decreases n,
{
    if n > 0 {
        lemma_mismatches_bound(a, b, (n - 1) as nat);
    }
}

/// Between operands of equal length, the Hamming distance lies between zero
/// and their common length.
pub proof fn lemma_hamming_range(a: Seq<char>, b: Seq<char>)
    requires
        a.len() == b.len(),
    ensures
        0 <= hamming(a, b) <= a.len(),
{
    lemma_mismatches_bound(a, b, a.len());
}

/// Returns the number of positions at which the two strings differ,
/// or `LengthMismatch` when they hold different numbers of characters.
pub fn get_hamming_distance(original: &str, search: &str) -> (r: Result<usize, HammingError>)
    ensures
        original@.len() != search@.len() ==> r == Err::<usize, HammingError>(
            HammingError::LengthMismatch,
        ),
        original@.len() == search@.len() ==> r == Ok::<usize, HammingError>(
            hamming(original@, search@) as usize,
        ),
        r matches Ok(d) ==> d <= original@.len(),
{
    let a = chars_of(original);
    let b = chars_of(search);
    proof {
        if a@.len() == b@.len() {
            lemma_hamming_range(a@, b@);
        }
    }
    hamming_of_chars(&a, &b)
}

/// Hamming distance between two character vectors.
pub fn hamming_of_chars(a: &Vec<char>, b: &Vec<char>) -> (r: Result<usize, HammingError>)
    ensures
        a@.len() != b@.len() ==> r == Err::<usize, HammingError>(HammingError::LengthMismatch),
        a@.len() == b@.len() ==> r == Ok::<usize, HammingError>(hamming(a@, b@) as usize),
{
    if a.len() != b.len() {
        return Err(HammingError::LengthMismatch);
    }
    let mut distance: usize = 0;
    let mut i: usize = 0;
    while i < a.len()
        invariant
            a@.len() == b@.len(),
            i <= a@.len(),
            distance == mismatches(a@, b@, i as nat),
        decreases a@.len() - i,
    {
        proof {
            lemma_mismatches_bound(a@, b@, i as nat);
        }
        if a[i] != b[i] {
            distance = distance + 1;
        }
        i = i + 1;
    }
    Ok(distance)
}

} // verus!
