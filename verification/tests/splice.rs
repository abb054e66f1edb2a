use mdinclude::splice::{scan, PreprocessError, Scan};

fn strings(list: &[&str]) -> Vec<String> {
    list.iter().map(|s| String::from(*s)).collect()
}

fn groups(list: &[Option<&str>]) -> Vec<Option<String>> {
    list.iter().map(|g| g.map(String::from)).collect()
}

#[test]
fn a_bad_pattern_is_refused() {
    assert!(matches!(scan("(", "text"), Err(PreprocessError::Pattern)));
    assert!(matches!(scan("a{2,1}", ""), Err(PreprocessError::Pattern)));
}

#[test]
fn a_scan_cuts_the_text_at_its_matches() {
    let found = scan("<(\\w+)=(\\w+)>", "a<k=v>b<x=y>").unwrap();
    assert_eq!(found.gaps, strings(&["a", "b", ""]));
    assert_eq!(
        found.matches,
        vec![
            groups(&[Some("<k=v>"), Some("k"), Some("v")]),
            groups(&[Some("<x=y>"), Some("x"), Some("y")]),
        ]
    );
    assert_eq!(found.group(0, 0), "<k=v>");
    assert_eq!(found.group(0, 1), "k");
    assert_eq!(found.group(1, 2), "y");
}

#[test]
fn gaps_and_matches_in_turn_give_the_text() {
    let text = "\u{e9}t\u{e9} <a=b><c=d> fin \u{4e2d}<e=f>";
    let found = scan("<(\\w+)=(\\w+)>", text).unwrap();
    assert_eq!(found.gaps.len(), found.matches.len() + 1);
    let tags: Vec<String> =
        (0..found.matches.len()).map(|k| String::from(found.group(k, 0))).collect();
    assert_eq!(tags, strings(&["<a=b>", "<c=d>", "<e=f>"]));
    assert_eq!(found.splice(&tags), text);
}

#[test]
fn a_scan_without_matches_is_one_gap() {
    let found = scan("<(\\w+)=(\\w+)>", "plain").unwrap();
    assert_eq!(found.gaps, strings(&["plain"]));
    assert!(found.matches.is_empty());
    assert_eq!(found.splice(&Vec::new()), "plain");
    let found = scan("x", "").unwrap();
    assert_eq!(found.gaps, strings(&[""]));
    assert_eq!(found.splice(&Vec::new()), "");
}

#[test]
fn a_group_that_took_no_part_is_none() {
    let found = scan("a(b)?(c)", "xac").unwrap();
    assert_eq!(found.matches, vec![groups(&[Some("ac"), None, Some("c")])]);
    assert_eq!(found.group(0, 1), "");
    assert_eq!(found.group(0, 2), "c");
}

#[test]
fn a_group_that_the_pattern_lacks_is_empty() {
    let found = scan("a", "xa").unwrap();
    assert_eq!(found.matches, vec![groups(&[Some("a")])]);
    assert_eq!(found.group(0, 1), "");
    assert_eq!(found.group(0, 7), "");
    assert_eq!(found.group(1, 0), "");
}

#[test]
fn fills_take_the_places_of_the_tags() {
    let found = Scan {
        gaps: strings(&["a", "b", "c"]),
        matches: vec![groups(&[Some("<1>")]), groups(&[Some("<2>")])],
    };
    assert_eq!(found.splice(&strings(&["X", "Y"])), "aXbYc");
    assert_eq!(found.splice(&strings(&["", ""])), "abc");
}

#[test]
fn another_fill_changes_its_own_place_only() {
    let found = Scan {
        gaps: strings(&["a", "b", "c", "d"]),
        matches: vec![groups(&[Some("1")]), groups(&[Some("2")]), groups(&[Some("3")])],
    };
    assert_eq!(found.splice(&strings(&["X", "Y", "Z"])), "aXbYcZd");
    assert_eq!(found.splice(&strings(&["X", "long fill", "Z"])), "aXblong fillcZd");
}

#[test]
fn splicing_stops_where_gaps_or_fills_run_out() {
    let found = Scan { gaps: strings(&["a", "b", "c"]), matches: Vec::new() };
    assert_eq!(found.splice(&Vec::new()), "a");
    assert_eq!(found.splice(&strings(&["X"])), "aXb");
    assert_eq!(found.splice(&strings(&["X", "Y", "Z", "W"])), "aXbYcZ");
    let none = Scan { gaps: Vec::new(), matches: Vec::new() };
    assert_eq!(none.splice(&strings(&["X"])), "");
}

#[test]
fn every_pattern_cuts_the_text_into_gaps_and_matches() {
    let patterns = ["", "a*", "a", "\\w+", "(x)|(y)", "\\b", "(?m)^", "[^a]", ".", "\\s*"];
    let texts = ["", "a", "baaac", "x y  z", "\u{e9}a\u{4e2d}\na", "aaaa", "\n\n"];
    for pattern in patterns {
        for text in texts {
            let found = scan(pattern, text).unwrap();
            assert_eq!(found.gaps.len(), found.matches.len() + 1);
            let tags: Vec<String> =
                (0..found.matches.len()).map(|k| String::from(found.group(k, 0))).collect();
            assert_eq!(found.splice(&tags), text);
        }
    }
}
