use mdinclude::context::{BuildContext, BuildMode};
use mdinclude::directive::Fragment;
use mdinclude::pipeline::{Pipeline, Stage};
use mdinclude::splice::PreprocessError;

fn start(mode: BuildMode, content: &str) -> Pipeline {
    let context = BuildContext { mode, input_file: String::from("docs/main.md") };
    Pipeline::new(context, String::from(content))
}

fn text_of(path: &str, content: &str) -> Fragment {
    Fragment { path: String::from(path), content: String::from(content) }
}

fn wanted(pipeline: &Pipeline) -> Vec<String> {
    let asked = pipeline.requests().unwrap();
    asked.iter().map(|d| format!("{}{}", d.dir_path, d.file_name)).collect()
}

#[test]
fn a_run_begins_with_the_link_pass() {
    let run = start(BuildMode::Static, "text");
    assert_eq!(run.stage, Stage::LinkOrInclude);
    assert_eq!(run.text, "text");
    assert_eq!(run.context.mode, BuildMode::Static);
    assert!(!run.is_finished());
    assert_eq!(run.output(), None);
}

#[test]
fn a_text_without_tags_comes_out_as_it_went_in() {
    let text = "# Title\n\nSome {{text}} and <!-- START --> no tags <!-- END -->\n";
    for mode in [BuildMode::Dynamic, BuildMode::Static, BuildMode::Spoiler] {
        let run = start(mode, text);
        assert!(wanted(&run).is_empty());
        let run = run.advance(&Vec::new()).unwrap();
        assert_eq!(run.stage, Stage::AlwaysInclude);
        assert!(wanted(&run).is_empty());
        let run = run.advance(&Vec::new()).unwrap();
        assert!(run.is_finished());
        assert_eq!(run.output(), Some(String::from(text)));
    }
}

#[test]
fn link_tags_are_resolved_before_include_tags() {
    let run = start(BuildMode::Static, "{{include|./a/raw.txt}} {{link or include|./b/page.md}}");
    assert_eq!(wanted(&run), vec!["b/page.md"]);
    let run = run
        .advance(&vec![text_of("/b/page.md", "<!-- START -->\n# Page\n<!-- END -->")])
        .unwrap();
    assert_eq!(run.text, "{{include|./a/raw.txt}} ## Page\n");
    assert_eq!(wanted(&run), vec!["a/raw.txt"]);
    let run = run.advance(&vec![text_of("/a/raw.txt", "# raw")]).unwrap();
    assert_eq!(run.stage, Stage::Finished);
    assert_eq!(run.output(), Some(String::from("# raw ## Page\n")));
}

#[test]
fn the_second_pass_scans_what_the_first_pass_left() {
    let run = start(BuildMode::Static, "{{link or include|./b/page.md}}");
    let run = run
        .advance(&vec![text_of("/b/page.md", "<!-- START -->{{include|./a/raw.txt}}<!-- END -->")])
        .unwrap();
    assert_eq!(wanted(&run), vec!["a/raw.txt"]);
    let run = run.advance(&vec![text_of("/a/raw.txt", "{{include|./a/raw.txt}}")]).unwrap();
    assert_eq!(run.output(), Some(String::from("{{include|./a/raw.txt}}")));
}

#[test]
fn a_link_tag_from_an_included_file_stays() {
    let run = start(BuildMode::Static, "{{include|./a/raw.txt}}");
    let run = run.advance(&Vec::new()).unwrap();
    let run = run.advance(&vec![text_of("/a/raw.txt", "{{link or include|./b/page.md}}")]).unwrap();
    assert_eq!(run.output(), Some(String::from("{{link or include|./b/page.md}}")));
}

#[test]
fn dynamic_mode_reads_only_for_include_tags() {
    let run = start(BuildMode::Dynamic, "{{link or include|./b/page.md}}|{{include|./a/raw.txt}}");
    assert!(wanted(&run).is_empty());
    let run = run.advance(&Vec::new()).unwrap();
    assert_eq!(wanted(&run), vec!["a/raw.txt"]);
    let run = run.advance(&vec![text_of("/a/raw.txt", "raw")]).unwrap();
    assert_eq!(
        run.output(),
        Some(String::from("This section is migrated. Please see [page.md](./b/page.md)|raw"))
    );
}

#[test]
fn spoiler_mode_wraps_in_the_first_pass() {
    let run = start(BuildMode::Spoiler, "{{link or include|./b/page.md}}");
    let run = run.advance(&vec![text_of("/abs/b/page.md", "<!-- START -->x<!-- END -->")]).unwrap();
    let run = run.advance(&Vec::new()).unwrap();
    assert_eq!(
        run.output(),
        Some(String::from("<details><summary>content of /abs/b/page.md</summary>\n\nx\n</details>"))
    );
}

#[test]
fn a_finished_run_stays_finished() {
    let run = start(BuildMode::Dynamic, "text");
    let run = run.advance(&Vec::new()).unwrap().advance(&Vec::new()).unwrap();
    assert!(wanted(&run).is_empty());
    let run = run.advance(&Vec::new()).unwrap();
    assert_eq!(run.stage, Stage::Finished);
    assert_eq!(run.text, "text");
    let refused = run.advance(&vec![text_of("/a", "")]);
    assert!(matches!(refused, Err(PreprocessError::FragmentCount { expected: 0, given: 1 })));
}

#[test]
fn a_pass_with_the_wrong_number_of_fragments_is_refused() {
    let run = start(BuildMode::Static, "{{link or include|./b/page.md}}");
    let refused = run.advance(&Vec::new());
    assert!(matches!(refused, Err(PreprocessError::FragmentCount { expected: 1, given: 0 })));
}
