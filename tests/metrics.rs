use sniffer::contain::get_contain_match;
use sniffer::hamming::{get_hamming_distance, HammingError};
use sniffer::inner::get_inner_match;
use sniffer::jaro_winkler::get_jaro_winkler_distance;
use sniffer::levenshtein::get_levenshtein_distance;

fn similarity(original: &str, search: &str) -> f64 {
    let (n, d) = get_jaro_winkler_distance(original, search).fraction();
    n as f64 / d as f64
}

#[test]
fn levenshtein() {
    let expected = 3;
    let actual = get_levenshtein_distance("Banana", "banini");
    assert_eq!(actual, expected);
}

#[test]
fn hamming() {
    let expected = Ok(2);
    let actual = get_hamming_distance("bulbasaur", "bulbysaul");
    assert_eq!(actual, expected);
}

#[test]
fn jaro_winkler() {
    let expected = 0.9666666666666667;
    let actual = similarity("banana", "banan");
    assert!((actual - expected).abs() < 1e-9);
    let (n, d) = get_jaro_winkler_distance("banana", "banan").fraction();
    assert_eq!(n * 30, d * 29);
}

#[test]
fn inner() {
    let expected = true;
    let actual = get_inner_match("Sprigatito", "agt");
    assert_eq!(actual, expected);
}

#[test]
fn contain() {
    let expected = true;
    let actual = get_contain_match("youtube", "utu");
    assert_eq!(actual, expected);

    let expected = true;
    let actual = get_contain_match("macacos me mordam", "smem");
    assert_eq!(actual, expected);
}

#[test]
fn levenshtein_identity_and_symmetry() {
    assert_eq!(get_levenshtein_distance("kitten", "kitten"), 0);
    assert_eq!(get_levenshtein_distance("", ""), 0);
    assert_eq!(get_levenshtein_distance("kitten", "sitting"), 3);
    assert_eq!(get_levenshtein_distance("sitting", "kitten"), 3);
}

#[test]
fn levenshtein_triangle_on_examples() {
    let ab = get_levenshtein_distance("flaw", "lawn");
    let bc = get_levenshtein_distance("lawn", "lawns");
    let ac = get_levenshtein_distance("flaw", "lawns");
    assert_eq!(ab, 2);
    assert_eq!(bc, 1);
    assert!(ac <= ab + bc);
}

#[test]
fn levenshtein_empty_and_multibyte() {
    assert_eq!(get_levenshtein_distance("", "abcd"), 4);
    assert_eq!(get_levenshtein_distance("abc", ""), 3);
    assert_eq!(get_levenshtein_distance("café", "cafe"), 1);
    assert_eq!(get_levenshtein_distance("日本語", "日本"), 1);
}

#[test]
fn hamming_length_mismatch() {
    assert_eq!(get_hamming_distance("abc", "ab"), Err(HammingError::LengthMismatch));
    assert_eq!(get_hamming_distance("", "a"), Err(HammingError::LengthMismatch));
}

#[test]
fn hamming_range_and_characters() {
    assert_eq!(get_hamming_distance("", ""), Ok(0));
    assert_eq!(get_hamming_distance("abc", "xyz"), Ok(3));
    assert_eq!(get_hamming_distance("héllo", "hello"), Ok(1));
}

#[test]
fn jaro_winkler_identity_and_empty() {
    assert_eq!(similarity("", ""), 1.0);
    assert_eq!(similarity("martha", "martha"), 1.0);
    assert_eq!(similarity("ab", "ab"), 1.0);
    let p = get_jaro_winkler_distance("a", "a");
    assert_eq!(p.matches, 0);
    assert_eq!(similarity("a", "a"), 0.0);
}

#[test]
fn jaro_winkler_parts_and_range() {
    let p = get_jaro_winkler_distance("martha", "marhta");
    assert_eq!(p.matches, 6);
    assert_eq!(p.transpositions, 1);
    assert_eq!(p.prefix_len, 3);
    assert!((similarity("martha", "marhta") - 0.9611111111111111).abs() < 1e-9);
    let s = similarity("abc", "xyz");
    assert_eq!(s, 0.0);
    let s = similarity("dixon", "dicksonx");
    assert!(s >= 0.0 && s <= 1.0);
    assert!((s - 0.8133333333333334).abs() < 1e-9);
}

#[test]
fn contain_reflexive_and_empty() {
    assert!(get_contain_match("new york", "new york"));
    assert!(get_contain_match("anything", ""));
    assert!(get_contain_match("", ""));
    assert!(get_contain_match("", "  "));
    assert!(!get_contain_match("", "a"));
}

#[test]
fn contain_strips_all_whitespace() {
    assert!(get_contain_match("new\tyork\ncity", "yorkcity"));
    assert!(get_contain_match("NewYork", "New York"));
    assert!(!get_contain_match("NewYork", "new york"));
    assert!(!get_contain_match("youtube", "tuu"));
}

#[test]
fn inner_reflexive_and_absent_extra() {
    assert!(get_inner_match("pikachu", "pikachu"));
    assert!(get_inner_match("a", "aa"));
    assert!(get_inner_match("abc", ""));
    assert!(get_inner_match("Sprigatito", "agt"));
    assert!(!get_inner_match("Sprigatito", "agtz"));
    assert!(!get_inner_match("Sprigatito", "zagt"));
}
