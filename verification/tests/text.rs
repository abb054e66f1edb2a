use mdinclude::text::{find_from, matches_at, to_chars};

#[test]
fn a_literal_is_found_where_it_first_stands() {
    let text = to_chars("abcabc");
    let pat = to_chars("bc");
    assert_eq!(find_from(&text, &pat, 0), Some(1));
    assert_eq!(find_from(&text, &pat, 1), Some(1));
    assert_eq!(find_from(&text, &pat, 2), Some(4));
    assert_eq!(find_from(&text, &pat, 5), None);
    assert_eq!(find_from(&text, &pat, 6), None);
}

#[test]
fn a_literal_that_is_not_there_is_not_found() {
    let text = to_chars("abcabc");
    assert_eq!(find_from(&text, &to_chars("cb"), 0), None);
    assert_eq!(find_from(&text, &to_chars("abcabca"), 0), None);
    assert_eq!(find_from(&to_chars(""), &to_chars("a"), 0), None);
}

#[test]
fn the_empty_literal_stands_everywhere() {
    let text = to_chars("ab");
    let none = to_chars("");
    assert_eq!(find_from(&text, &none, 0), Some(0));
    assert_eq!(find_from(&text, &none, 2), Some(2));
    assert_eq!(find_from(&none, &none, 0), Some(0));
}

#[test]
fn overlapping_occurrences_are_told_apart() {
    let text = to_chars("aaa");
    let pat = to_chars("aa");
    assert!(matches_at(&text, &pat, 0));
    assert!(matches_at(&text, &pat, 1));
    assert!(!matches_at(&text, &pat, 2));
    assert!(!matches_at(&text, &pat, 3));
    assert!(!matches_at(&text, &pat, 9));
}

#[test]
fn indices_count_characters() {
    let text = to_chars("\u{e9}\u{4e2d}x\u{e9}");
    assert_eq!(find_from(&text, &to_chars("x"), 0), Some(2));
    assert_eq!(find_from(&text, &to_chars("\u{e9}"), 1), Some(3));
}

#[test]
fn a_search_from_behind_the_end_finds_nothing() {
    let text = to_chars("ab");
    assert_eq!(find_from(&text, &to_chars("b"), 3), None);
    assert_eq!(find_from(&text, &to_chars(""), 3), None);
}
