use vstd::prelude::*;

use crate::text::chars_of;

verus! {

/// Half the longer length, less one: how far from its own position a
/// character may find its partner. Negative for strings of one character.
pub open spec fn match_window(la: int, lb: int) -> int {
    (if la >= lb {
        la
    } else {
        lb
    }) / 2 - 1
}

/// First position of the search window of position `i`.
pub open spec fn window_start(i: int, w: int) -> int {
    if i - w > 0 {
        i - w
    } else {
        0
    }
}

/// Position just past the search window of position `i`.
pub open spec fn window_end(i: int, w: int, lb: int) -> int {
    if i + w + 1 < lb {
        i + w + 1
    } else {
        lb
    }
}

/// Earliest position in `[j, end)` not yet used whose character is `c`.
pub open spec fn first_free(c: char, b: Seq<char>, used: Seq<bool>, j: int, end: int) -> Option<int>
    decreases end - j,
{
    if j >= end {
        None
    } else if !used[j] && b[j] == c {
        Some(j)
    } else {
        first_free(c, b, used, j + 1, end)
    }
}

/// A position that `first_free` gives lies in the range it searched, is
/// free and holds the character sought.
pub proof fn lemma_first_free_found(c: char, b: Seq<char>, used: Seq<bool>, j: int, end: int)
    ensures
        first_free(c, b, used, j, end) matches Some(k) ==> j <= k < end && !used[k] && b[k] == c,
    decreases end - j,
{
    if j < end && !(!used[j] && b[j] == c) {
        lemma_first_free_found(c, b, used, j + 1, end);
    }
}

/// Where in `b` the character `a[i]` finds its partner, given the positions
/// of `b` already taken.
pub open spec fn partner(a: Seq<char>, b: Seq<char>, used: Seq<bool>, i: int) -> Option<int> {
    let w = match_window(a.len() as int, b.len() as int);
    first_free(a[i], b, used, window_start(i, w), window_end(i, w, b.len() as int))
}

/// Positions of `b` taken once the first `i` characters of `a` were matched.
pub open spec fn used_after(a: Seq<char>, b: Seq<char>, i: nat) -> Seq<bool>
    decreases i,
{
    if i == 0 {
        Seq::new(b.len(), |j: int| false)
    } else {
        let u = used_after(a, b, (i - 1) as nat);
        match partner(a, b, u, i - 1) {
            Some(j) => u.update(j, true),
            None => u,
        }
    }
}

/// The characters among the first `i` of `a` that found a partner, in order.
pub open spec fn matched_in_original(a: Seq<char>, b: Seq<char>, i: nat) -> Seq<char>
    decreases i,
{
    if i == 0 {
        Seq::empty()
    } else {
        let prev = matched_in_original(a, b, (i - 1) as nat);
        if partner(a, b, used_after(a, b, (i - 1) as nat), i - 1) is Some {
            prev.push(a[i - 1])
        } else {
            prev
        }
    }
}

/// The characters among the first `n` of `b` whose position is marked in `used`, in order.
pub open spec fn marked(b: Seq<char>, used: Seq<bool>, n: nat) -> Seq<char>
    decreases n,
{
    if n == 0 {
        Seq::empty()
    } else if used[n - 1] {
        marked(b, used, (n - 1) as nat).push(b[n - 1])
    } else {
        marked(b, used, (n - 1) as nat)
    }
}

/// The matched characters of `b`, in the order of their positions.
pub open spec fn matched_in_search(a: Seq<char>, b: Seq<char>) -> Seq<char> {
    marked(b, used_after(a, b, a.len()), b.len())
}

/// Number of indices below `n` at which `x` and `y` differ.
pub open spec fn lockstep_differences(x: Seq<char>, y: Seq<char>, n: nat) -> nat
    decreases n,
{
    if n == 0 {
        0
    } else {
        lockstep_differences(x, y, (n - 1) as nat) + if x[n - 1] != y[n - 1] {
            1nat
        } else {
            0nat
        }
    }
}

/// Number of characters of `a` that found a partner in `b`.
pub open spec fn match_count(a: Seq<char>, b: Seq<char>) -> nat {
    matched_in_original(a, b, a.len()).len()
}

/// Half the number of places where the matched characters of the two
/// strings, walked in step, disagree.
pub open spec fn transposition_count(a: Seq<char>, b: Seq<char>) -> nat {
    let x = matched_in_original(a, b, a.len());
    let y = matched_in_search(a, b);
    lockstep_differences(x, y, if x.len() <= y.len() {
        x.len()
    } else {
        y.len()
    }) / 2
}

/// Length of the common prefix of `a` and `b` from index `k` on, counted up to four.
pub open spec fn prefix_from(a: Seq<char>, b: Seq<char>, k: nat) -> nat
    decreases 4 - k,
{
    if k < 4 && k < a.len() && k < b.len() && a[k as int] == b[k as int] {
        prefix_from(a, b, k + 1)
    } else {
        k
    }
}

/// Length of the common prefix of `a` and `b`, at most four.
pub open spec fn common_prefix(a: Seq<char>, b: Seq<char>) -> nat {
    prefix_from(a, b, 0)
}

/// The integers from which the Jaro-Winkler similarity of two strings is formed.
#[derive(Debug, Clone, Copy, PartialEq, Eq, Structural)]
pub struct JaroWinkler {
    /// Number of characters of the original string.
    pub original_len: usize,
    /// Number of characters of the search string.
    pub search_len: usize,
    /// Number of characters that found a partner within the window.
    pub matches: usize,
    /// Half the number of matched characters out of order.
    pub transpositions: usize,
    /// Length of the common prefix, at most four.
    pub prefix_len: usize,
}

/// The parts that the two strings give.
pub open spec fn jaro_winkler_of(a: Seq<char>, b: Seq<char>) -> JaroWinkler {
    JaroWinkler {
        original_len: a.len() as usize,
        search_len: b.len() as usize,
        matches: match_count(a, b) as usize,
        transpositions: transposition_count(a, b) as usize,
        prefix_len: common_prefix(a, b) as usize,
    }
}

impl JaroWinkler {
    /// Denominator of the Jaro similarity, `3 * la * lb * m`.
    pub open spec fn jaro_denominator(self) -> int {
        3 * self.original_len * self.search_len * self.matches
    }

    /// Numerator of the Jaro similarity over `jaro_denominator`:
    /// `m/la + m/lb + (m - t)/m`, times `la * lb * m`.
    pub open spec fn jaro_numerator(self) -> int {
        let m = self.matches as int;
        m * m * self.search_len + m * m * self.original_len + (m - self.transpositions) * self.original_len
            * self.search_len
    }

    /// Numerator of the similarity as a fraction over `denominator`.
    pub open spec fn numerator(self) -> int {
        if self.original_len == 0 && self.search_len == 0 {
            1
        } else if self.matches == 0 {
            0
        } else {
            10 * self.jaro_numerator() + self.prefix_len * (self.jaro_denominator()
                - self.jaro_numerator())
        }
    }

    /// The counts agree with one another as any two strings give them: no
    /// more matches than either length, no more transpositions than
    /// matches, a prefix of at most four.
    pub open spec fn consistent(self) -> bool {
        &&& self.matches <= self.original_len
        &&& self.matches <= self.search_len
        &&& self.transpositions <= self.matches
        &&& self.prefix_len <= 4
    }

    /// Denominator of the similarity as a fraction.
    pub open spec fn denominator(self) -> int {
        if self.original_len == 0 && self.search_len == 0 {
            1
        } else if self.matches == 0 {
            1
        } else {
            10 * self.jaro_denominator()
        }
    }
}

/// Longest string, in characters, whose similarity fraction is computed exactly in 128 bits.
pub const MAX_EXACT_LEN: usize = 0xFFFF_FFFF;

impl JaroWinkler {
    /// The similarity as an exact fraction (numerator, denominator).
    pub fn fraction(&self) -> (r: (u128, u128))
        requires
            self.consistent(),
            self.original_len <= MAX_EXACT_LEN,
            self.search_len <= MAX_EXACT_LEN,
        ensures
            r.0 == self.numerator(),
            r.1 == self.denominator(),
            r.1 > 0,
            r.0 <= r.1,
            r.1 <= 30 * (0xFFFF_FFFFu128 * 0xFFFF_FFFFu128 * 0xFFFF_FFFFu128),
    {
        proof {
            lemma_fraction_in_unit_range(*self);
        }
        if self.original_len == 0 && self.search_len == 0 {
            return (1, 1);
        }
        if self.matches == 0 {
            return (0, 1);
        }
        let m = self.matches as u128;
        let la = self.original_len as u128;
        let lb = self.search_len as u128;
        let t = self.transpositions as u128;
        let l = self.prefix_len as u128;
        assert(la * lb <= 0xFFFF_FFFFu128 * 0xFFFF_FFFFu128) by (nonlinear_arith)
            requires
                la <= 0xFFFF_FFFFu128,
                lb <= 0xFFFF_FFFFu128,
        ;
        let lab = la * lb;
        assert(lab * m <= 0xFFFF_FFFFu128 * 0xFFFF_FFFFu128 * 0xFFFF_FFFFu128) by (nonlinear_arith)
            requires
                lab <= 0xFFFF_FFFFu128 * 0xFFFF_FFFFu128,
                m <= 0xFFFF_FFFFu128,
        ;
        let jd = 3 * (lab * m);
        assert(m * m <= lab && m * m * lb <= lab * m && m * m * la <= lab * m && (m - t) * lab
            <= lab * m) by (nonlinear_arith)
            requires
                lab == la * lb,
                m <= la,
                m <= lb,
                t <= m,
        ;
        let jn = m * m * lb + m * m * la + (m - t) * lab;
        assert(jd == self.jaro_denominator() && jn == self.jaro_numerator()) by (nonlinear_arith)
            requires
                lab == la * lb,
                jd == 3 * (lab * m),
                jn == m * m * lb + m * m * la + (m - t) * lab,
                m == self.matches,
                la == self.original_len,
                lb == self.search_len,
                t == self.transpositions,
        ;
        assert(l * (jd - jn) <= 4 * jd) by (nonlinear_arith)
            requires
                l <= 4,
                jn <= jd,
        ;
        (10 * jn + l * (jd - jn), 10 * jd)
    }

    /// Whether the similarity is at least `numerator / denominator`.
    pub fn at_least(&self, numerator: u16, denominator: u16) -> (r: bool)
        requires
            self.consistent(),
            self.original_len <= MAX_EXACT_LEN,
            self.search_len <= MAX_EXACT_LEN,
        ensures
            r == (self.numerator() * denominator >= numerator * self.denominator()),
    {
        let (n, d) = self.fraction();
        assert(n * (denominator as u128) <= 30 * (0xFFFF_FFFFu128 * 0xFFFF_FFFFu128
            * 0xFFFF_FFFFu128) * 0xFFFFu128) by (nonlinear_arith)
            requires
                n <= d,
                d <= 30 * (0xFFFF_FFFFu128 * 0xFFFF_FFFFu128 * 0xFFFF_FFFFu128),
                denominator <= 0xFFFFu128,
        ;
        assert((numerator as u128) * d <= 30 * (0xFFFF_FFFFu128 * 0xFFFF_FFFFu128
            * 0xFFFF_FFFFu128) * 0xFFFFu128) by (nonlinear_arith)
            requires
                d <= 30 * (0xFFFF_FFFFu128 * 0xFFFF_FFFFu128 * 0xFFFF_FFFFu128),
                numerator <= 0xFFFFu128,
        ;
        n * (denominator as u128) >= (numerator as u128) * d
    }
}

/// Jaro-Winkler similarity of `a` and `b`, as the pair (numerator, denominator).
pub open spec fn similarity(a: Seq<char>, b: Seq<char>) -> (int, int) {
    let p = jaro_winkler_of(a, b);
    (p.numerator(), p.denominator())
}

/// Marking one more position that lies below `n` adds one to what is marked there.
proof fn lemma_marked_update(b: Seq<char>, used: Seq<bool>, j: int, n: nat)
    requires
        0 <= j < used.len(),
        n <= used.len(),
    ensures
        marked(b, used.update(j, true), n).len() == marked(b, used, n).len() + if j < n
            && !used[j] {
            1int
        } else {
            0int
        },
    decreases n,
{
    if n > 0 {
        lemma_marked_update(b, used, j, (n - 1) as nat);
    }
}

/// No more positions are marked than were looked at.
proof fn lemma_marked_len(b: Seq<char>, used: Seq<bool>, n: nat)
    ensures
        marked(b, used, n).len() <= n,
    decreases n,
{
    if n > 0 {
        lemma_marked_len(b, used, (n - 1) as nat);
    }
}

/// Nothing is marked where no position is.
proof fn lemma_marked_none(b: Seq<char>, used: Seq<bool>, n: nat)
    requires
        n <= used.len(),
        forall|k: int| 0 <= k < n ==> !used[k],
    ensures
        marked(b, used, n).len() == 0,
    decreases n,
{
    if n > 0 {
        lemma_marked_none(b, used, (n - 1) as nat);
    }
}

/// Each character of `a` that finds a partner takes exactly one position of
/// `b`: as many positions of `b` are taken as characters of `a` matched.
proof fn lemma_used_after_counts(a: Seq<char>, b: Seq<char>, i: nat)
    requires
        i <= a.len(),
    ensures
        used_after(a, b, i).len() == b.len(),
        marked(b, used_after(a, b, i), b.len()).len() == matched_in_original(a, b, i).len(),
        matched_in_original(a, b, i).len() <= i,
    decreases i,
{
    if i == 0 {
        lemma_marked_none(b, used_after(a, b, 0), b.len());
    } else {
        lemma_used_after_counts(a, b, (i - 1) as nat);
        let u = used_after(a, b, (i - 1) as nat);
        let w = match_window(a.len() as int, b.len() as int);
        lemma_first_free_found(
            a[i - 1],
            b,
            u,
            window_start(i - 1, w),
            window_end(i - 1, w, b.len() as int),
        );
        match partner(a, b, u, i - 1) {
            Some(j) => {
                lemma_marked_update(b, u, j, b.len());
            },
            None => {},
        }
    }
}

/// No more differences are counted than indices looked at.
proof fn lemma_lockstep_bound(x: Seq<char>, y: Seq<char>, n: nat)
    ensures
        lockstep_differences(x, y, n) <= n,
    decreases n,
{
    if n > 0 {
        lemma_lockstep_bound(x, y, (n - 1) as nat);
    }
}

/// The common prefix counted from `k` is at least `k` and at most four.
proof fn lemma_prefix_from_bound(a: Seq<char>, b: Seq<char>, k: nat)
    requires
        k <= 4,
    ensures
        k <= prefix_from(a, b, k) <= 4,
    decreases 4 - k,
{
    if k < 4 && k < a.len() && k < b.len() && a[k as int] == b[k as int] {
        lemma_prefix_from_bound(a, b, k + 1);
    }
}

/// The Jaro-Winkler similarity of any two strings is a fraction between
/// zero and one, with a positive denominator.
pub proof fn lemma_similarity_in_unit_range(a: Seq<char>, b: Seq<char>)
    requires
        a.len() <= usize::MAX,
        b.len() <= usize::MAX,
    ensures
        similarity(a, b).1 > 0,
        0 <= similarity(a, b).0 <= similarity(a, b).1,
{
    lemma_parts_consistent(a, b);
    lemma_fraction_in_unit_range(jaro_winkler_of(a, b));
}

/// The parts that two strings give are consistent.
pub proof fn lemma_parts_consistent(a: Seq<char>, b: Seq<char>)
    requires
        a.len() <= usize::MAX,
        b.len() <= usize::MAX,
    ensures
        jaro_winkler_of(a, b).consistent(),
{
    let p = jaro_winkler_of(a, b);
    lemma_used_after_counts(a, b, a.len());
    let x = matched_in_original(a, b, a.len());
    let y = matched_in_search(a, b);
    lemma_marked_len(b, used_after(a, b, a.len()), b.len());
    let n = if x.len() <= y.len() {
        x.len()
    } else {
        y.len()
    };
    lemma_lockstep_bound(x, y, n);
    lemma_prefix_from_bound(a, b, 0);
}

/// Consistent parts form a fraction between zero and one, with a positive
/// denominator.
proof fn lemma_fraction_in_unit_range(p: JaroWinkler)
    requires
        p.consistent(),
    ensures
        p.denominator() > 0,
        0 <= p.numerator() <= p.denominator(),
{
    let m = p.matches as int;
    let la = p.original_len as int;
    let lb = p.search_len as int;
    let t = p.transpositions as int;
    let l = p.prefix_len as int;
    if !(la == 0 && lb == 0) && m != 0 {
        let jn = p.jaro_numerator();
        let jd = p.jaro_denominator();
        assert(0 <= jn <= jd) by (nonlinear_arith)
            requires
                jn == m * m * lb + m * m * la + (m - t) * la * lb,
                jd == 3 * la * lb * m,
                0 < m <= la,
                m <= lb,
                0 <= t <= m,
        ;
        assert(jd > 0) by (nonlinear_arith)
            requires
                jd == 3 * la * lb * m,
                0 < m <= la,
                m <= lb,
        ;
        assert(l * (jd - jn) <= 10 * (jd - jn)) by (nonlinear_arith)
            requires
                0 <= l <= 4,
                jn <= jd,
        ;
        assert(l * (jd - jn) >= 0) by (nonlinear_arith)
            requires
                0 <= l,
                jn <= jd,
        ;
    }
}

/// Two empty strings are identical: their similarity is one.
pub proof fn lemma_similarity_empty()
    ensures
        similarity(Seq::<char>::empty(), Seq::<char>::empty()) == (1int, 1int),
{
}

/// With the positions before `target` taken, the search finds `target`.
proof fn lemma_first_free_at(c: char, b: Seq<char>, used: Seq<bool>, j: int, end: int, target: int)
    requires
        j <= target < end,
        forall|k: int| j <= k < target ==> used[k],
        !used[target],
        b[target] == c,
    ensures
        first_free(c, b, used, j, end) == Some(target),
    decreases target - j,
{
    if j < target {
        lemma_first_free_at(c, b, used, j + 1, end, target);
    }
}

/// Matching a string of two or more characters against itself pairs each
/// position with itself.
proof fn lemma_self_matching(x: Seq<char>, i: nat)
    requires
        x.len() >= 2,
        i <= x.len(),
    ensures
        used_after(x, x, i) == Seq::new(x.len(), |k: int| k < i),
        matched_in_original(x, x, i) == x.take(i as int),
    decreases i,
{
    if i == 0 {
        assert(used_after(x, x, 0) =~= Seq::new(x.len(), |k: int| k < 0));
        assert(x.take(0) =~= Seq::<char>::empty());
    } else {
        lemma_self_matching(x, (i - 1) as nat);
        let u = used_after(x, x, (i - 1) as nat);
        let w = match_window(x.len() as int, x.len() as int);
        assert(w >= 0);
        lemma_first_free_at(
            x[i - 1],
            x,
            u,
            window_start(i - 1, w),
            window_end(i - 1, w, x.len() as int),
            i - 1,
        );
        assert(u.update(i - 1, true) =~= Seq::new(x.len(), |k: int| k < i));
        assert(x.take(i - 1).push(x[i - 1]) =~= x.take(i as int));
    }
}

/// Marking every position keeps every character.
proof fn lemma_marked_all(b: Seq<char>, used: Seq<bool>, n: nat)
    requires
        n <= b.len(),
        n <= used.len(),
        forall|k: int| 0 <= k < n ==> used[k],
    ensures
        marked(b, used, n) == b.take(n as int),
    decreases n,
{
    if n == 0 {
        assert(b.take(0) =~= Seq::<char>::empty());
    } else {
        lemma_marked_all(b, used, (n - 1) as nat);
        assert(b.take(n - 1).push(b[n - 1]) =~= b.take(n as int));
    }
}

/// A sequence differs from itself nowhere.
proof fn lemma_lockstep_same(x: Seq<char>, n: nat)
    ensures
        lockstep_differences(x, x, n) == 0,
    decreases n,
{
    if n > 0 {
        lemma_lockstep_same(x, (n - 1) as nat);
    }
}

/// A string of two or more characters has similarity one with itself.
/// (A single character has an empty search window, so it finds no partner.)
pub proof fn lemma_similarity_identity(x: Seq<char>)
    requires
        2 <= x.len() <= usize::MAX,
    ensures
        similarity(x, x).0 == similarity(x, x).1,
{
    let n = x.len();
    lemma_self_matching(x, n);
    assert(x.take(n as int) =~= x);
    lemma_marked_all(x, used_after(x, x, n), n);
    lemma_lockstep_same(x, n);
    let p = jaro_winkler_of(x, x);
    let m = n as int;
    assert(p.matches == m && p.original_len == m && p.search_len == m && p.transpositions == 0);
    assert(p.jaro_numerator() == p.jaro_denominator()) by (nonlinear_arith)
        requires
            p.jaro_numerator() == m * m * m + m * m * m + (m - 0) * m * m,
            p.jaro_denominator() == 3 * m * m * m,
    ;
}

/// Earliest free position in `[start, end)` of `b` that holds `c`.
fn find_free(c: char, b: &Vec<char>, used: &Vec<bool>, start: usize, end: usize) -> (r: Option<usize>)
    requires
        end <= b@.len(),
        used@.len() == b@.len(),
    ensures
        match first_free(c, b@, used@, start as int, end as int) {
            Some(j) => r == Some(j as usize),
            None => r is None,
        },
{
    let mut j: usize = start;
    while j < end
        invariant
            end <= b@.len(),
            used@.len() == b@.len(),
            start <= j || end <= j,
            first_free(c, b@, used@, start as int, end as int) == first_free(c, b@, used@, j as int, end as int),
        decreases end - j,
    {
        if !used[j] && b[j] == c {
            return Some(j);
        }
        j = j + 1;
    }
    None
}

/// Returns the parts of the Jaro-Winkler similarity of the two strings,
/// counting characters rather than bytes.
pub fn get_jaro_winkler_distance(original: &str, search: &str) -> (r: JaroWinkler)
    ensures
        r == jaro_winkler_of(original@, search@),
{
    let a = chars_of(original);
    let b = chars_of(search);
    jaro_winkler_of_chars(&a, &b)
}

/// Jaro-Winkler parts of two character vectors.
pub fn jaro_winkler_of_chars(a: &Vec<char>, b: &Vec<char>) -> (r: JaroWinkler)
    ensures
        r == jaro_winkler_of(a@, b@),
{
    let la = a.len();
    let lb = b.len();
    let half: usize = if la >= lb {
        la / 2
    } else {
        lb / 2
    };
    let ghost w = match_window(la as int, lb as int);
    let mut used: Vec<bool> = Vec::new();
    let mut j: usize = 0;
    while j < lb
        invariant
            lb == b@.len(),
            j <= lb,
            used@ == Seq::new(j as nat, |k: int| false),
        decreases lb - j,
    {
        used.push(false);
        j = j + 1;
    }
    assert(used@ == used_after(a@, b@, 0));
    let mut matched: Vec<char> = Vec::new();
    let mut i: usize = 0;
    while i < la
        invariant
            la == a@.len(),
            lb == b@.len(),
            w == match_window(la as int, lb as int),
            half == (if la >= lb { la } else { lb }) / 2,
            i <= la,
            used@ == used_after(a@, b@, i as nat),
            used@.len() == lb,
            matched@ == matched_in_original(a@, b@, i as nat),
            matched@.len() <= i,
        decreases la - i,
    {
        let start: usize = if i + 1 > half {
            i + 1 - half
        } else {
            0
        };
        let end: usize = if i >= lb {
            lb
        } else if half > lb - i {
            lb
        } else {
            i + half
        };
        assert(start == window_start(i as int, w));
        assert(end == window_end(i as int, w, lb as int));
        proof {
            lemma_first_free_found(a@[i as int], b@, used@, start as int, end as int);
        }
        let found = find_free(a[i], b, &used, start, end);
        match found {
            Some(k) => {
                used.set(k, true);
                matched.push(a[i]);
            },
            None => {},
        }
        i = i + 1;
    }
    let mut partners: Vec<char> = Vec::new();
    let mut k: usize = 0;
    while k < lb
        invariant
            lb == b@.len(),
            used@.len() == lb,
            k <= lb,
            partners@ == marked(b@, used@, k as nat),
            partners@.len() <= k,
        decreases lb - k,
    {
        if used[k] {
            partners.push(b[k]);
        }
        k = k + 1;
    }
    let n: usize = if matched.len() <= partners.len() {
        matched.len()
    } else {
        partners.len()
    };
    let mut differences: usize = 0;
    let mut k: usize = 0;
    while k < n
        invariant
            n <= matched@.len(),
            n <= partners@.len(),
            k <= n,
            differences == lockstep_differences(matched@, partners@, k as nat),
            differences <= k,
        decreases n - k,
    {
        if matched[k] != partners[k] {
            differences = differences + 1;
        }
        k = k + 1;
    }
    let mut prefix: usize = 0;
    while prefix < 4 && prefix < la && prefix < lb && a[prefix] == b[prefix]
        invariant
            la == a@.len(),
            lb == b@.len(),
            prefix <= 4,
            prefix_from(a@, b@, 0) == prefix_from(a@, b@, prefix as nat),
        decreases 4 - prefix,
    {
        prefix = prefix + 1;
    }
    JaroWinkler {
        original_len: la,
        search_len: lb,
        matches: matched.len(),
        transpositions: differences / 2,
        prefix_len: prefix,
    }
}

} // verus!
