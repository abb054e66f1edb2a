use mdinclude::headers::{shift, shift_text};
use mdinclude::text::{to_chars, to_string};

fn shifted(text: &str) -> String {
    shift_text(text)
}

#[test]
fn characters_are_shifted_as_text_is() {
    let text = "# One\n\n## Two";
    assert_eq!(to_string(&shift(&to_chars(text))), "## One\n\n### Two");
    assert_eq!(shift(&Vec::new()), Vec::new());
}

#[test]
fn level_one_becomes_level_two() {
    assert_eq!(shifted("# Title"), "## Title");
}

#[test]
fn level_five_becomes_level_six() {
    assert_eq!(shifted("##### Deep"), "###### Deep");
}

#[test]
fn level_six_is_left_alone() {
    assert_eq!(shifted("###### Deepest"), "###### Deepest");
    assert_eq!(shifted("####### Beyond"), "####### Beyond");
}

#[test]
fn plain_lines_are_left_alone() {
    assert_eq!(shifted("Body text\nmore text\n"), "Body text\nmore text\n");
    assert_eq!(shifted(""), "");
    assert_eq!(shifted("\n\n"), "\n\n");
}

#[test]
fn only_leading_hashes_count() {
    assert_eq!(shifted(" # indented"), " # indented");
    assert_eq!(shifted("a # b"), "a # b");
}

#[test]
fn every_line_is_shifted_on_its_own() {
    let text = "# One\ntext\n## Two\n\n###### Six\n### Three";
    let want = "## One\ntext\n### Two\n\n###### Six\n#### Three";
    assert_eq!(shifted(text), want);
}

#[test]
fn a_bare_hash_is_a_heading() {
    assert_eq!(shifted("#"), "##");
    assert_eq!(shifted("#\n"), "##\n");
    assert_eq!(shifted("\n#"), "\n##");
}

#[test]
fn carriage_returns_stay_in_the_line() {
    assert_eq!(shifted("# Title\r\nBody\r\n"), "## Title\r\nBody\r\n");
}

#[test]
fn shifting_twice_adds_two_levels() {
    let once = shifted("# Title\n## Sub\n");
    assert_eq!(once, "## Title\n### Sub\n");
    assert_eq!(shifted(&once), "### Title\n#### Sub\n");
}

#[test]
fn shifting_stops_at_level_six() {
    let once = shifted("##### Five");
    assert_eq!(once, "###### Five");
    assert_eq!(shifted(&once), "###### Five");
}

#[test]
fn text_beyond_ascii_is_kept() {
    assert_eq!(shifted("# Überschrift ✓\nzwölf"), "## Überschrift ✓\nzwölf");
}

#[test]
fn chars_and_strings_convert_back_and_forth() {
    let text = "a\u{e9}\u{4e2d}\n#";
    let chars = to_chars(text);
    assert_eq!(chars, vec!['a', '\u{e9}', '\u{4e2d}', '\n', '#']);
    assert_eq!(to_string(&chars), text);
}
