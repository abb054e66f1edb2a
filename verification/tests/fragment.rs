use mdinclude::fragment::{extract, END_MARKER, START_MARKER};

#[test]
fn markers_are_html_comments() {
    assert_eq!(START_MARKER, "<!-- START -->");
    assert_eq!(END_MARKER, "<!-- END -->");
}

#[test]
fn text_between_the_markers_is_extracted() {
    let fragment = "# Title\n<!-- START -->\nBody text\n<!-- END -->\nTrailer";
    assert_eq!(extract(fragment), "Body text\n");
}

#[test]
fn headings_between_the_markers_are_shifted() {
    let fragment = "# Title\n<!-- START -->\n## Sub\nBody text\n<!-- END -->\nTrailer";
    assert_eq!(extract(fragment), "### Sub\nBody text\n");
}

#[test]
fn a_fragment_without_markers_gives_nothing() {
    assert_eq!(extract("# Title\nBody text\n"), "");
    assert_eq!(extract(""), "");
}

#[test]
fn a_start_without_an_end_gives_nothing() {
    assert_eq!(extract("a<!-- START -->\nb"), "");
    assert_eq!(extract("<!-- END -->a<!-- START -->b"), "");
}

#[test]
fn an_end_without_a_start_gives_nothing() {
    assert_eq!(extract("a<!-- END -->b"), "");
}

#[test]
fn only_one_line_feed_is_stripped() {
    assert_eq!(extract("<!-- START -->\n\nBody<!-- END -->"), "\nBody");
    assert_eq!(extract("<!-- START -->Body<!-- END -->"), "Body");
    assert_eq!(extract("<!-- START -->\n<!-- END -->"), "");
    assert_eq!(extract("<!-- START --><!-- END -->"), "");
}

#[test]
fn regions_are_joined_without_a_separator() {
    let fragment = "x<!-- START -->one<!-- END -->y<!-- START -->\n# two\n<!-- END -->z";
    assert_eq!(extract(fragment), "one## two\n");
}

#[test]
fn a_region_ends_at_the_first_end_marker() {
    let fragment = "<!-- START -->a<!-- END -->b<!-- END -->";
    assert_eq!(extract(fragment), "a");
}

#[test]
fn a_start_marker_inside_a_region_is_text() {
    let fragment = "<!-- START -->a<!-- START -->b<!-- END -->c<!-- END -->";
    assert_eq!(extract(fragment), "a<!-- START -->b");
}

#[test]
fn a_heading_that_starts_a_region_is_shifted() {
    assert_eq!(extract("<!-- START --># Top<!-- END -->"), "## Top");
    assert_eq!(extract("text <!-- START -->\n##### Five\n<!-- END -->"), "###### Five\n");
}
