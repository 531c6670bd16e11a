use vstd::prelude::*;

use crate::contain::{contain_match, get_contain_match};
use crate::hamming::{get_hamming_distance, hamming, lemma_hamming_range};
use crate::inner::{contains_all, get_inner_match};
use crate::jaro_winkler::{
    get_jaro_winkler_distance,
    jaro_winkler_of,
    lemma_parts_consistent,
    JaroWinkler,
    MAX_EXACT_LEN,
};
use crate::levenshtein::{get_levenshtein_distance, levenshtein};

verus! {

/// What `str::to_lowercase` makes of a string.
pub uninterp spec fn lower_of(s: Seq<char>) -> Seq<char>;

/// Relies on str::to_lowercase: the lowercase form of `s`, which depends on
/// its characters alone.
#[verifier::external_body]
fn lowercase(s: &str) -> (r: String)
    ensures
        r@ == lower_of(s@),
{
    s.to_lowercase()
}

/// The results of every metric on one pair of strings.
#[derive(Debug, Clone, Copy, PartialEq, Eq, Structural)]
pub struct SnifferResult {
    /// Edit distance.
    pub levenshtein: usize,
    /// Hamming distance, or `None` when the strings differ in length.
    pub hamming: Option<usize>,
    /// Parts of the Jaro-Winkler similarity.
    pub jaro_winkler: JaroWinkler,
    /// Whether every character of the search occurs in the original.
    pub inner: bool,
    /// Whether the search, whitespace aside, occurs in the original.
    pub contain: bool,
}

/// Which metrics decide a match, and with which thresholds.
#[derive(Debug, Clone, Copy, PartialEq, Eq, Structural)]
pub struct Sniffer {
    /// Largest edit distance that still counts as a match.
    pub levenshtein_distance: usize,
    /// Whether the edit distance is consulted.
    pub do_levenshtein_match: bool,
    /// Largest number of differing positions that still counts as a match.
    pub hamming_distance: usize,
    /// Whether the Hamming distance is consulted.
    pub do_hamming_match: bool,
    /// Numerator of the least Jaro-Winkler similarity that counts as a match.
    pub jaro_winkler_numerator: u16,
    /// Denominator of that similarity.
    pub jaro_winkler_denominator: u16,
    /// Whether the Jaro-Winkler similarity is consulted.
    pub do_jaro_winkler_match: bool,
    /// Whether the character-subset test is consulted.
    pub do_inner_match: bool,
    /// Whether the whitespace-insensitive containment test is consulted.
    pub do_contain_match: bool,
    /// Whether upper and lower case are told apart.
    pub case_sensitive: bool,
}

/// What the metrics report on a pair of strings, already normalised.
pub open spec fn result_of(a: Seq<char>, b: Seq<char>) -> SnifferResult {
    SnifferResult {
        levenshtein: levenshtein(a, b) as usize,
        hamming: if a.len() == b.len() {
            Some(hamming(a, b) as usize)
        } else {
            None
        },
        jaro_winkler: jaro_winkler_of(a, b),
        inner: contains_all(a, b),
        contain: contain_match(a, b),
    }
}

impl Sniffer {
    /// The Jaro-Winkler threshold is a fraction between zero and one.
    pub open spec fn well_formed(self) -> bool {
        &&& self.jaro_winkler_denominator > 0
        &&& self.jaro_winkler_numerator <= self.jaro_winkler_denominator
    }

    /// The string that the metrics see in place of `s`.
    pub open spec fn normalize(self, s: Seq<char>) -> Seq<char> {
        if self.case_sensitive {
            s
        } else {
            lower_of(s)
        }
    }

    /// The edit distance decides a match.
    pub open spec fn levenshtein_hit(self, a: Seq<char>, b: Seq<char>) -> bool {
        self.do_levenshtein_match && levenshtein(a, b) <= self.levenshtein_distance
    }

    /// The Hamming distance applies and decides a match.
    pub open spec fn hamming_hit(self, a: Seq<char>, b: Seq<char>) -> bool {
        self.do_hamming_match && a.len() == b.len() && hamming(a, b) <= self.hamming_distance
    }

    /// The Jaro-Winkler similarity decides a match.
    pub open spec fn jaro_winkler_hit(self, a: Seq<char>, b: Seq<char>) -> bool {
        let p = jaro_winkler_of(a, b);
        self.do_jaro_winkler_match && p.numerator() * self.jaro_winkler_denominator
            >= self.jaro_winkler_numerator * p.denominator()
    }

    /// The character-subset test decides a match.
    pub open spec fn inner_hit(self, a: Seq<char>, b: Seq<char>) -> bool {
        self.do_inner_match && contains_all(a, b)
    }

    /// The containment test decides a match.
    pub open spec fn contain_hit(self, a: Seq<char>, b: Seq<char>) -> bool {
        self.do_contain_match && contain_match(a, b)
    }

    /// The verdict on two normalised strings: any enabled metric that applies
    /// and passes its threshold.
    pub open spec fn verdict(self, a: Seq<char>, b: Seq<char>) -> bool {
        self.levenshtein_hit(a, b) || self.hamming_hit(a, b) || self.jaro_winkler_hit(a, b)
            || self.inner_hit(a, b) || self.contain_hit(a, b)
    }

    /// A sniffer with every metric enabled but the character-subset test,
    /// thresholds of two edits, two positions and a similarity of 4/5, and
    /// case ignored.
    pub fn new() -> (r: Sniffer)
        ensures
            r.levenshtein_distance == 2,
            r.do_levenshtein_match,
            r.hamming_distance == 2,
            r.do_hamming_match,
            r.jaro_winkler_numerator == 4,
            r.jaro_winkler_denominator == 5,
            r.do_jaro_winkler_match,
            !r.do_inner_match,
            r.do_contain_match,
            !r.case_sensitive,
            r.well_formed(),
    {
        Sniffer {
            levenshtein_distance: 2,
            do_levenshtein_match: true,
            hamming_distance: 2,
            do_hamming_match: true,
            jaro_winkler_numerator: 4,
            jaro_winkler_denominator: 5,
            do_jaro_winkler_match: true,
            do_inner_match: false,
            do_contain_match: true,
            case_sensitive: false,
        }
    }

    /// `s`, lowercased unless case is told apart.
    fn normalized(&self, s: &str) -> (r: String)
        ensures
            r@ == self.normalize(s@),
    {
        if self.case_sensitive {
            s.to_string()
        } else {
            lowercase(s)
        }
    }

    /// The verdict on two strings that are already normalised.
    pub fn matches_normalized(&self, a: &str, b: &str) -> (r: bool)
        requires
            a@.len() <= MAX_EXACT_LEN,
            b@.len() <= MAX_EXACT_LEN,
        ensures
            r == self.verdict(a@, b@),
    {
        if self.do_levenshtein_match && get_levenshtein_distance(a, b) <= self.levenshtein_distance {
            return true;
        }
        if self.do_hamming_match {
            proof {
                if a@.len() == b@.len() {
                    lemma_hamming_range(a@, b@);
                }
            }
            match get_hamming_distance(a, b) {
                Ok(d) => {
                    if d <= self.hamming_distance {
                        return true;
                    }
                },
                Err(_) => {},
            }
        }
        if self.do_jaro_winkler_match {
            let p = get_jaro_winkler_distance(a, b);
            proof {
                lemma_parts_consistent(a@, b@);
            }
            if p.at_least(self.jaro_winkler_numerator, self.jaro_winkler_denominator) {
                return true;
            }
        }
        if self.do_inner_match && get_inner_match(a, b) {
            return true;
        }
        self.do_contain_match && get_contain_match(a, b)
    }

    /// Returns `Some(true)` when any enabled metric matches the two strings,
    /// after case folding unless case is told apart; `None` only when a
    /// normalised string is too long for an exact similarity.
    pub fn matches(&self, original: &str, search: &str) -> (r: Option<bool>)
        ensures
            ({
                let a = self.normalize(original@);
                let b = self.normalize(search@);
                r == if a.len() <= MAX_EXACT_LEN && b.len() <= MAX_EXACT_LEN {
                    Some(self.verdict(a, b))
                } else {
                    None::<bool>
                }
            }),
    {
        let a = self.normalized(original);
        let b = self.normalized(search);
        let la = a.as_str().unicode_len();
        let lb = b.as_str().unicode_len();
        if la > MAX_EXACT_LEN || lb > MAX_EXACT_LEN {
            return None;
        }
        Some(self.matches_normalized(a.as_str(), b.as_str()))
    }

    /// Reports every metric on the two strings, after case folding unless
    /// case is told apart, whatever the flags and thresholds.
    pub fn get_sniffer_result(&self, original: &str, search: &str) -> (r: SnifferResult)
        ensures
            r == result_of(self.normalize(original@), self.normalize(search@)),
    {
        let a = self.normalized(original);
        let b = self.normalized(search);
        let a = a.as_str();
        let b = b.as_str();
        let hamming = match get_hamming_distance(a, b) {
            Ok(d) => Some(d),
            Err(_) => None,
        };
        SnifferResult {
            levenshtein: get_levenshtein_distance(a, b),
            hamming,
            jaro_winkler: get_jaro_winkler_distance(a, b),
            inner: get_inner_match(a, b),
            contain: get_contain_match(a, b),
        }
    }

    /// This sniffer with a new edit-distance threshold.
    pub fn set_levenshtein_distance(self, levenshtein_distance: usize) -> (r: Sniffer)
        ensures
            r == (Sniffer { levenshtein_distance, ..self }),
    {
        Sniffer { levenshtein_distance, ..self }
    }

    /// This sniffer with the edit distance switched on or off.
    pub fn set_do_levenshtein_match(self, do_levenshtein_match: bool) -> (r: Sniffer)
        ensures
            r == (Sniffer { do_levenshtein_match, ..self }),
    {
        Sniffer { do_levenshtein_match, ..self }
    }

    /// This sniffer with a new Hamming threshold.
    pub fn set_hamming_distance(self, hamming_distance: usize) -> (r: Sniffer)
        ensures
            r == (Sniffer { hamming_distance, ..self }),
    {
        Sniffer { hamming_distance, ..self }
    }

    /// This sniffer with the Hamming distance switched on or off.
    pub fn set_do_hamming_match(self, do_hamming_match: bool) -> (r: Sniffer)
        ensures
            r == (Sniffer { do_hamming_match, ..self }),
    {
        Sniffer { do_hamming_match, ..self }
    }

    /// This sniffer with the least Jaro-Winkler similarity `numerator / denominator`.
    pub fn set_jaro_winkler_distance(self, numerator: u16, denominator: u16) -> (r: Sniffer)
        requires
            denominator > 0,
            numerator <= denominator,
        ensures
            r == (Sniffer {
                jaro_winkler_numerator: numerator,
                jaro_winkler_denominator: denominator,
                ..self
            }),
    {
        Sniffer { jaro_winkler_numerator: numerator, jaro_winkler_denominator: denominator, ..self }
    }

    /// This sniffer with the Jaro-Winkler similarity switched on or off.
    pub fn set_do_jaro_winkler_match(self, do_jaro_winkler_match: bool) -> (r: Sniffer)
        ensures
            r == (Sniffer { do_jaro_winkler_match, ..self }),
    {
        Sniffer { do_jaro_winkler_match, ..self }
    }

    /// This sniffer with the character-subset test switched on or off.
    pub fn set_do_inner_match(self, do_inner_match: bool) -> (r: Sniffer)
        ensures
            r == (Sniffer { do_inner_match, ..self }),
    {
        Sniffer { do_inner_match, ..self }
    }

    /// This sniffer with the containment test switched on or off.
    pub fn set_do_contain_match(self, do_contain_match: bool) -> (r: Sniffer)
        ensures
            r == (Sniffer { do_contain_match, ..self }),
    {
        Sniffer { do_contain_match, ..self }
    }

    /// This sniffer with case told apart or ignored.
    pub fn set_case_sensitive(self, case_sensitive: bool) -> (r: Sniffer)
        ensures
            r == (Sniffer { case_sensitive, ..self }),
    {
        Sniffer { case_sensitive, ..self }
    }
}

/// A sniffer with every metric switched off matches nothing.
pub proof fn lemma_all_disabled_matches_nothing(s: Sniffer, a: Seq<char>, b: Seq<char>)
    requires
        !s.do_levenshtein_match,
        !s.do_hamming_match,
        !s.do_jaro_winkler_match,
        !s.do_inner_match,
        !s.do_contain_match,
    ensures
        !s.verdict(a, b),
{
}

/// The verdict holds exactly when one of the enabled, applicable metrics
/// passes its threshold.
pub proof fn lemma_verdict_is_disjunction(s: Sniffer, a: Seq<char>, b: Seq<char>)
    ensures
        s.verdict(a, b) <==> ((s.do_levenshtein_match && levenshtein(a, b)
            <= s.levenshtein_distance) || (s.do_hamming_match && a.len() == b.len() && hamming(a, b)
            <= s.hamming_distance) || (s.do_jaro_winkler_match
            && jaro_winkler_of(a, b).numerator() * s.jaro_winkler_denominator
            >= s.jaro_winkler_numerator * jaro_winkler_of(a, b).denominator())
            || (s.do_inner_match && contains_all(a, b)) || (s.do_contain_match && contain_match(a, b))),
{
}

} // verus!
