use sniffer::sniffer::Sniffer;

#[test]
fn sniffer() {
    let sniffer = Sniffer::new();
    let expected = Some(true);
    let actual = sniffer.matches("Banana", "banana");
    assert_eq!(actual, expected);
}

#[test]
fn sniffer_result() {
    let sniffer = Sniffer::new();
    let result = sniffer.get_sniffer_result("Luxray", "lux");

    assert_eq!(result.levenshtein, 3);
    let (n, d) = result.jaro_winkler.fraction();
    assert!((n as f64 / d as f64 - 0.8833333333333334).abs() < 1e-9);
    assert_eq!(n * 60, d * 53);
    assert_eq!(result.inner, true);
    assert_eq!(result.contain, true);
}

#[test]
fn sniffer_defaults() {
    let s = Sniffer::new();
    assert_eq!(s.levenshtein_distance, 2);
    assert_eq!(s.hamming_distance, 2);
    assert_eq!((s.jaro_winkler_numerator, s.jaro_winkler_denominator), (4, 5));
    assert!(s.do_levenshtein_match && s.do_hamming_match && s.do_jaro_winkler_match);
    assert!(!s.do_inner_match);
    assert!(s.do_contain_match);
    assert!(!s.case_sensitive);
}

#[test]
fn sniffer_all_disabled_matches_nothing() {
    let s = Sniffer::new()
        .set_do_levenshtein_match(false)
        .set_do_hamming_match(false)
        .set_do_jaro_winkler_match(false)
        .set_do_inner_match(false)
        .set_do_contain_match(false);
    assert_eq!(s.matches("banana", "banana"), Some(false));
    assert_eq!(s.matches("", ""), Some(false));
}

#[test]
fn sniffer_single_metrics() {
    let off = Sniffer::new()
        .set_do_levenshtein_match(false)
        .set_do_hamming_match(false)
        .set_do_jaro_winkler_match(false)
        .set_do_inner_match(false)
        .set_do_contain_match(false);
    let inner = off.set_do_inner_match(true);
    assert_eq!(inner.matches("Sprigatito", "TAG"), Some(true));
    assert_eq!(inner.matches("Sprigatito", "tagz"), Some(false));
    let lev = off.set_do_levenshtein_match(true).set_levenshtein_distance(1);
    assert_eq!(lev.matches("kitten", "sitten"), Some(true));
    assert_eq!(lev.matches("kitten", "sitting"), Some(false));
    let ham = off.set_do_hamming_match(true).set_hamming_distance(0);
    assert_eq!(ham.matches("abc", "ABC"), Some(true));
    assert_eq!(ham.matches("abc", "abd"), Some(false));
    assert_eq!(ham.matches("abc", "ab"), Some(false));
    let jw = off.set_do_jaro_winkler_match(true).set_jaro_winkler_distance(29, 30);
    assert_eq!(jw.matches("banana", "banan"), Some(true));
    let jw = jw.set_jaro_winkler_distance(30, 30);
    assert_eq!(jw.matches("banana", "banan"), Some(false));
    let contain = off.set_do_contain_match(true);
    assert_eq!(contain.matches("New York", "newyork"), Some(true));
}

#[test]
fn sniffer_case_sensitivity() {
    let s = Sniffer::new()
        .set_do_levenshtein_match(false)
        .set_do_hamming_match(false)
        .set_do_jaro_winkler_match(false)
        .set_case_sensitive(true);
    assert_eq!(s.matches("Banana", "banana"), Some(false));
    assert_eq!(s.set_case_sensitive(false).matches("Banana", "BANANA"), Some(true));
    let folded = Sniffer::new().get_sniffer_result("ABC", "abc");
    assert_eq!(folded.levenshtein, 0);
    assert_eq!(folded.hamming, Some(0));
    let exact = Sniffer::new().set_case_sensitive(true).get_sniffer_result("ABC", "abc");
    assert_eq!(exact.levenshtein, 3);
    assert_eq!(exact.hamming, Some(3));
}

#[test]
fn sniffer_result_ignores_flags() {
    let s = Sniffer::new()
        .set_do_levenshtein_match(false)
        .set_do_hamming_match(false)
        .set_do_jaro_winkler_match(false)
        .set_do_contain_match(false);
    let r = s.get_sniffer_result("bulbasaur", "bulbysaul");
    assert_eq!(r.levenshtein, 2);
    assert_eq!(r.hamming, Some(2));
    let r = s.get_sniffer_result("Luxray", "lux");
    assert_eq!(r.hamming, None);
}
