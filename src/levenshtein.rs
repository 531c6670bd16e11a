use vstd::prelude::*;

use crate::text::chars_of;

verus! {

/// The smaller of two naturals.
pub open spec fn min_nat(x: nat, y: nat) -> nat {
    if x <= y {
        x
    } else {
        y
    }
}

/// Cost of turning character `x` into `y`: nothing when they are equal.
pub open spec fn substitution_cost(x: char, y: char) -> nat {
    if x == y {
        0
    } else {
        1
    }
}

/// Edit distance between the first `i` characters of `a` and the first `j`
/// characters of `b`: the cell `(i, j)` of the Wagner-Fischer table.
pub open spec fn edit_table(a: Seq<char>, b: Seq<char>, i: nat, j: nat) -> nat
    decreases i + j,
{
    if i == 0 {
        j
    } else if j == 0 {
        i
    } else {
        min_nat(
            min_nat(
                edit_table(a, b, (i - 1) as nat, j) + 1,
                edit_table(a, b, i, (j - 1) as nat) + 1,
            ),
            edit_table(a, b, (i - 1) as nat, (j - 1) as nat) + substitution_cost(
                a[i - 1],
                b[j - 1],
            ),
        )
    }
}

/// Least number of single-character insertions, deletions and substitutions
/// that turn `a` into `b`.
pub open spec fn levenshtein(a: Seq<char>, b: Seq<char>) -> nat {
    edit_table(a, b, a.len(), b.len())
}

/// No cell of the table exceeds the longer of the two prefixes.
pub proof fn lemma_edit_table_bound(a: Seq<char>, b: Seq<char>, i: nat, j: nat)
    ensures
        edit_table(a, b, i, j) <= if i <= j { j } else { i },
    decreases i + j,
{
    if i > 0 && j > 0 {
        lemma_edit_table_bound(a, b, (i - 1) as nat, (j - 1) as nat);
    }
}

/// Equal prefixes of one sequence are at distance zero.
proof fn lemma_edit_table_diagonal(a: Seq<char>, i: nat)
    ensures
        edit_table(a, a, i, i) == 0,
    decreases i,
{
    if i > 0 {
        lemma_edit_table_diagonal(a, (i - 1) as nat);
    }
}

/// Swapping the two sequences transposes the table.
proof fn lemma_edit_table_transpose(a: Seq<char>, b: Seq<char>, i: nat, j: nat)
    ensures
        edit_table(a, b, i, j) == edit_table(b, a, j, i),
    decreases i + j,
{
    if i > 0 && j > 0 {
        lemma_edit_table_transpose(a, b, (i - 1) as nat, j);
        lemma_edit_table_transpose(a, b, i, (j - 1) as nat);
        lemma_edit_table_transpose(a, b, (i - 1) as nat, (j - 1) as nat);
    }
}

/// A string is at edit distance zero from itself.
pub proof fn lemma_levenshtein_identity(x: Seq<char>)
    ensures
        levenshtein(x, x) == 0,
{
    lemma_edit_table_diagonal(x, x.len());
}

/// Edit distance does not depend on the order of its operands.
pub proof fn lemma_levenshtein_symmetric(a: Seq<char>, b: Seq<char>)
    ensures
        levenshtein(a, b) == levenshtein(b, a),
{
    lemma_edit_table_transpose(a, b, a.len(), b.len());
}

/// No cell of the table is below the difference of the two prefix lengths.
proof fn lemma_edit_table_lower(a: Seq<char>, b: Seq<char>, i: nat, j: nat)
    ensures
        edit_table(a, b, i, j) + j >= i,
        edit_table(a, b, i, j) + i >= j,
    decreases i + j,
{
    if i > 0 && j > 0 {
        lemma_edit_table_lower(a, b, (i - 1) as nat, j);
        lemma_edit_table_lower(a, b, i, (j - 1) as nat);
        lemma_edit_table_lower(a, b, (i - 1) as nat, (j - 1) as nat);
    }
}

/// Going through an intermediate prefix of `b` never shortens the way from a
/// prefix of `a` to a prefix of `c`.
proof fn lemma_edit_table_triangle(
    a: Seq<char>,
    b: Seq<char>,
    c: Seq<char>,
    i: nat,
    j: nat,
    k: nat,
)
    ensures
        edit_table(a, c, i, k) <= edit_table(a, b, i, j) + edit_table(b, c, j, k),
    decreases i + j + k,
{
    let ab = edit_table(a, b, i, j);
    let bc = edit_table(b, c, j, k);
    if i == 0 {
        lemma_edit_table_lower(b, c, j, k);
    } else if k == 0 {
        lemma_edit_table_lower(a, b, i, j);
    } else if j == 0 {
        lemma_edit_table_bound(a, c, i, k);
    } else {
        let i1 = (i - 1) as nat;
        let j1 = (j - 1) as nat;
        let k1 = (k - 1) as nat;
        if ab == edit_table(a, b, i1, j) + 1 {
            lemma_edit_table_triangle(a, b, c, i1, j, k);
        } else if bc == edit_table(b, c, j, k1) + 1 {
            lemma_edit_table_triangle(a, b, c, i, j, k1);
        } else if ab == edit_table(a, b, i, j1) + 1 {
            lemma_edit_table_triangle(a, b, c, i, j1, k);
            assert(edit_table(b, c, j1, k) <= edit_table(b, c, j1, k1) + 1);
        } else if bc == edit_table(b, c, j1, k) + 1 {
            lemma_edit_table_triangle(a, b, c, i, j1, k);
            assert(edit_table(a, b, i, j1) <= edit_table(a, b, i1, j1) + 1);
        } else {
            lemma_edit_table_triangle(a, b, c, i1, j1, k1);
        }
    }
}

/// Edit distance obeys the triangle inequality.
pub proof fn lemma_levenshtein_triangle(a: Seq<char>, b: Seq<char>, c: Seq<char>)
    ensures
        levenshtein(a, c) <= levenshtein(a, b) + levenshtein(b, c),
{
    lemma_edit_table_triangle(a, b, c, a.len(), b.len(), c.len());
}

/// Returns the number of single-character edits needed to turn `original`
/// into `search`, counting characters rather than bytes.
pub fn get_levenshtein_distance(original: &str, search: &str) -> (r: usize)
    ensures
        r == levenshtein(original@, search@),
{
    let a = chars_of(original);
    let b = chars_of(search);
    levenshtein_of_chars(&a, &b)
}

/// Edit distance between two character vectors, computed one table row at a time.
pub fn levenshtein_of_chars(a: &Vec<char>, b: &Vec<char>) -> (r: usize)
    ensures
        r == levenshtein(a@, b@),
{
    let la = a.len();
    let lb = b.len();
    let mut prev: Vec<usize> = Vec::new();
    prev.push(0);
    let mut j: usize = 0;
    while j < lb
        invariant
            lb == b@.len(),
            j <= lb,
            prev@.len() == j + 1,
            forall|k: int| 0 <= k <= j ==> prev@[k] == edit_table(a@, b@, 0, k as nat),
        decreases lb - j,
    {
        j = j + 1;
        prev.push(j);
    }
    let mut i: usize = 0;
    while i < la
        invariant
            la == a@.len(),
            lb == b@.len(),
            i <= la,
            prev@.len() == lb + 1,
            forall|k: int| 0 <= k <= lb ==> prev@[k] == edit_table(a@, b@, i as nat, k as nat),
        decreases la - i,
    {
        i = i + 1;
        let mut cur: Vec<usize> = Vec::new();
        cur.push(i);
        let mut j: usize = 0;
        while j < lb
            invariant
                la == a@.len(),
                lb == b@.len(),
                1 <= i <= la,
                j <= lb,
                prev@.len() == lb + 1,
                cur@.len() == j + 1,
                forall|k: int| 0 <= k <= lb ==> prev@[k] == edit_table(a@, b@, (i - 1) as nat, k as nat),
                forall|k: int| 0 <= k <= j ==> cur@[k] == edit_table(a@, b@, i as nat, k as nat),
            decreases lb - j,
        {
            j = j + 1;
            proof {
                lemma_edit_table_bound(a@, b@, (i - 1) as nat, (j - 1) as nat);
            }
            let diag = prev[j - 1];
            let up = prev[j];
            let left = cur[j - 1];
            let mut best: usize = if a[i - 1] == b[j - 1] {
                diag
            } else {
                diag + 1
            };
            if up < best {
                best = up + 1;
            }
            if left < best {
                best = left + 1;
            }
            cur.push(best);
        }
        prev = cur;
    }
    prev[lb]
}

} // verus!
