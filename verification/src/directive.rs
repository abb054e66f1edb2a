//! The two kinds of tag and how each is resolved.

use crate::context::{BuildContext, BuildMode};
use crate::fragment::{end_marker, extract, extraction, lemma_unmarked, start_marker};
use crate::outside::{regex_accepts, regex_gaps, regex_groups};
use crate::splice::{group_text, scan, weave, PreprocessError, Scan};
use crate::text::{find, texts};
use vstd::prelude::*;
use vstd::string::StringExecFns;

verus! {

/// The tag `{{link or include|./dir/.../name.md}}`: directories and name
/// are made of word characters, and there is at least one directory.
pub const LINK_PATTERN: &'static str = "\\{\\{link or include\\|\\./((?:\\w+/)+)(\\w+\\.md)\\}\\}";

/// The tag `{{include|./dir/.../name}}`: the name may hold dots as well.
pub const INCLUDE_PATTERN: &'static str = "\\{\\{include\\|\\./((?:\\w+/)+)([\\w.]+)\\}\\}";

/// The fragment that a tag names: the directories of its path, each with
/// its `/`, and the name of the file.
pub struct Directive {
    pub dir_path: String,
    pub file_name: String,
}

impl View for Directive {
    type V = (Seq<char>, Seq<char>);

    open spec fn view(&self) -> Self::V {
        (self.dir_path@, self.file_name@)
    }
}

/// A fragment as it was read: the absolute path that it was found at, and
/// its text.
pub struct Fragment {
    pub path: String,
    pub content: String,
}

impl View for Fragment {
    type V = (Seq<char>, Seq<char>);

    open spec fn view(&self) -> Self::V {
        (self.path@, self.content@)
    }
}

/// The fragments that the tags name, in order: group 1 of a tag holds the
/// directories, group 2 the name of the file.
pub open spec fn named(tags: Seq<Seq<Option<Seq<char>>>>) -> Seq<(Seq<char>, Seq<char>)> {
    tags.map_values(|tag: Seq<Option<Seq<char>>>| (group_text(tag, 1), group_text(tag, 2)))
}

/// The views of the directives, in order.
pub open spec fn directive_views(v: Seq<Directive>) -> Seq<(Seq<char>, Seq<char>)> {
    v.map_values(|d: Directive| d@)
}

/// The views of the fragments, in order.
pub open spec fn fragment_views(v: Seq<Fragment>) -> Seq<(Seq<char>, Seq<char>)> {
    v.map_values(|f: Fragment| f@)
}

/// The link that stands for a fragment in dynamic mode.
pub open spec fn link_text(dir_path: Seq<char>, file_name: Seq<char>) -> Seq<char> {
    "This section is migrated. Please see ["@ + file_name + "](./"@ + dir_path + file_name + ")"@
}

/// The collapsed block that holds the marked text of a fragment.
pub open spec fn spoiler_text(path: Seq<char>, marked: Seq<char>) -> Seq<char> {
    "<details><summary>content of "@ + path + "</summary>\n\n"@ + marked + "\n</details>"@
}

/// What takes the place of one `link or include` tag.
pub open spec fn link_fill(
    mode: BuildMode,
    tag: Seq<Option<Seq<char>>>,
    fragment: (Seq<char>, Seq<char>),
) -> Seq<char> {
    match mode {
        BuildMode::Dynamic => link_text(group_text(tag, 1), group_text(tag, 2)),
        BuildMode::Static => extraction(fragment.1),
        BuildMode::Spoiler => spoiler_text(fragment.0, extraction(fragment.1)),
    }
}

/// What takes the place of each `link or include` tag, in order: tag `i` is
/// filled from fragment `i`.
pub open spec fn link_fills(
    mode: BuildMode,
    tags: Seq<Seq<Option<Seq<char>>>>,
    fragments: Seq<(Seq<char>, Seq<char>)>,
) -> Seq<Seq<char>> {
    Seq::new(tags.len(), |i: int| link_fill(mode, tags[i], fragments[i]))
}

/// What takes the place of each `include` tag, in order: the text of
/// fragment `i`, as it is.
pub open spec fn include_fills(fragments: Seq<(Seq<char>, Seq<char>)>) -> Seq<Seq<char>> {
    fragments.map_values(|f: (Seq<char>, Seq<char>)| f.1)
}

/// A fragment without a pair of markers is spliced whole and unchanged
/// by an `include` tag, while a `link or include` tag in static mode gets
/// nothing from it.
pub proof fn lemma_raw_or_marked(
    tag: Seq<Option<Seq<char>>>,
    fragment: (Seq<char>, Seq<char>),
)
    requires
        find(fragment.1, start_marker()) is None || find(fragment.1, end_marker()) is None,
    ensures
        include_fills(seq![fragment]) == seq![fragment.1],
        link_fill(BuildMode::Static, tag, fragment) == Seq::<char>::empty(),
{
    lemma_unmarked(fragment.1);
    assert(include_fills(seq![fragment]) =~= seq![fragment.1]);
}

/// The link that stands for a fragment in dynamic mode.
pub fn link_reference(dir_path: &str, file_name: &str) -> (out: String)
    ensures
        out@ == link_text(dir_path@, file_name@),
{
    let mut out = "This section is migrated. Please see [".to_owned();
    out.append(file_name);
    out.append("](./");
    out.append(dir_path);
    out.append(file_name);
    out.append(")");
    out
}

/// The collapsed block that holds the marked text of a fragment.
pub fn spoiler(path: &str, marked: &str) -> (out: String)
    ensures
        out@ == spoiler_text(path@, marked@),
{
    let mut out = "<details><summary>content of ".to_owned();
    out.append(path);
    out.append("</summary>\n\n");
    out.append(marked);
    out.append("\n</details>");
    out
}

/// The fragments that the tags of a scan name, in order.
pub fn directives(found: &Scan) -> (v: Vec<Directive>)
    ensures
        directive_views(v@) == named(found.tags()),
{
    let mut v: Vec<Directive> = Vec::new();
    let mut i: usize = 0;
    while i < found.matches.len()
        invariant
            i <= found.matches.len(),
            v.len() == i,
            directive_views(v@) == named(found.tags()).take(i as int),
        decreases found.matches.len() - i,
    {
        let ghost before = v@;
        v.push(
            Directive {
                dir_path: found.group(i, 1).to_owned(),
                file_name: found.group(i, 2).to_owned(),
            },
        );
        proof {
            assert forall|k: int| 0 <= k < v.len() implies directive_views(v@)[k] == named(
                found.tags(),
            )[k] by {
                if k < i {
                    assert(directive_views(before)[k] == named(found.tags()).take(i as int)[k]);
                }
            }
            assert(directive_views(v@) =~= named(found.tags()).take(i + 1));
        }
        i += 1;
    }
    assert(named(found.tags()).take(i as int) =~= named(found.tags()));
    v
}

/// The resolver of `link or include` tags.
pub struct LinkOrInclude;

/// The resolver of `include` tags.
pub struct AlwaysInclude;

impl LinkOrInclude {
    /// The `link or include` tags of `content`, in order.
    pub open spec fn tags(content: Seq<char>) -> Seq<Seq<Option<Seq<char>>>> {
        regex_groups(LINK_PATTERN@, content)
    }

    /// The fragments that must be read to resolve `content`, in order: one
    /// for each tag, and none in dynamic mode.
    pub open spec fn needed(mode: BuildMode, content: Seq<char>) -> Seq<(Seq<char>, Seq<char>)> {
        if mode.reads_fragments() {
            named(Self::tags(content))
        } else {
            Seq::empty()
        }
    }

    /// `content` with each tag resolved: the text around the tags as it is,
    /// and in place of tag `i` what `link_fill` gives for it and fragment `i`.
    pub open spec fn resolved(
        mode: BuildMode,
        content: Seq<char>,
        fragments: Seq<(Seq<char>, Seq<char>)>,
    ) -> Seq<char> {
        weave(regex_gaps(LINK_PATTERN@, content), link_fills(mode, Self::tags(content), fragments))
    }

    /// Resolves the tags of a scanned text: the gaps of the scan as they
    /// are, and in place of tag `i` what `link_fill` gives for it and
    /// fragment `i`. There must be a fragment for each tag, and none in
    /// dynamic mode.
    pub fn resolve(&self, mode: BuildMode, found: &Scan, fragments: &Vec<Fragment>) -> (r: Result<
        String,
        PreprocessError,
    >)
        ensures
            match r {
                Ok(out) => {
                    &&& fragments.len() == if mode.reads_fragments() {
                        found.tags().len()
                    } else {
                        0
                    }
                    &&& out@ == weave(
                        found.gap_texts(),
                        link_fills(mode, found.tags(), fragment_views(fragments@)),
                    )
                },
                Err(PreprocessError::Pattern) => false,
                Err(PreprocessError::FragmentCount { expected, given }) => {
                    &&& expected == if mode.reads_fragments() {
                        found.tags().len()
                    } else {
                        0
                    }
                    &&& given == fragments.len()
                    &&& expected != given
                },
            },
    {
        let expected = if mode.needs_fragments() {
            found.matches.len()
        } else {
            0
        };
        if fragments.len() != expected {
            return Err(PreprocessError::FragmentCount { expected, given: fragments.len() });
        }
        let ghost tags = found.tags();
        let ghost given = fragment_views(fragments@);
        let mut fills: Vec<String> = Vec::new();
        let mut i: usize = 0;
        while i < found.matches.len()
            invariant
                i <= found.matches.len(),
                fills.len() == i,
                mode.reads_fragments() ==> fragments.len() == found.matches.len(),
                tags == found.tags(),
                given == fragment_views(fragments@),
                forall|k: int| 0 <= k < i ==> fills@[k]@ == link_fill(mode, tags[k], given[k]),
            decreases found.matches.len() - i,
        {
            let fill = match mode {
                BuildMode::Dynamic => link_reference(found.group(i, 1), found.group(i, 2)),
                BuildMode::Static => extract(fragments[i].content.as_str()),
                BuildMode::Spoiler => {
                    let marked = extract(fragments[i].content.as_str());
                    spoiler(fragments[i].path.as_str(), marked.as_str())
                },
            };
            fills.push(fill);
            i += 1;
        }
        assert(texts(fills@) =~= link_fills(mode, tags, given));
        Ok(found.splice(&fills))
    }

    /// The fragments that `transform` needs for `content`, in order.
    pub fn requests(&self, build_context: &BuildContext, content: &str) -> (r: Result<
        Vec<Directive>,
        PreprocessError,
    >)
        ensures
            r is Ok == regex_accepts(LINK_PATTERN@),
            r is Err ==> r == Err::<Vec<Directive>, PreprocessError>(PreprocessError::Pattern),
            r matches Ok(v) ==> directive_views(v@) == Self::needed(build_context.mode, content@),
    {
        let found = match scan(LINK_PATTERN, content) {
            Ok(found) => found,
            Err(e) => {
                return Err(e);
            },
        };
        if build_context.mode.needs_fragments() {
            Ok(directives(&found))
        } else {
            let none: Vec<Directive> = Vec::new();
            assert(directive_views(none@) =~= Seq::empty());
            Ok(none)
        }
    }

    /// Resolves every `link or include` tag of `content`. `fragments` holds
    /// what was read for `requests`, in the same order.
    pub fn transform(
        &self,
        build_context: &BuildContext,
        content: String,
        fragments: &Vec<Fragment>,
    ) -> (r: Result<String, PreprocessError>)
        ensures
            match r {
                Ok(out) => {
                    &&& regex_accepts(LINK_PATTERN@)
                    &&& fragments.len() == Self::needed(build_context.mode, content@).len()
                    &&& out@ == Self::resolved(
                        build_context.mode,
                        content@,
                        fragment_views(fragments@),
                    )
                },
                Err(PreprocessError::Pattern) => !regex_accepts(LINK_PATTERN@),
                Err(PreprocessError::FragmentCount { expected, given }) => {
                    &&& regex_accepts(LINK_PATTERN@)
                    &&& expected == Self::needed(build_context.mode, content@).len()
                    &&& given == fragments.len()
                    &&& expected != given
                },
            },
            regex_accepts(LINK_PATTERN@) && Self::tags(content@).len() == 0 && fragments.len() == 0
                ==> r is Ok && r.unwrap()@ == content@,
    {
        let found = match scan(LINK_PATTERN, content.as_str()) {
            Ok(found) => found,
            Err(e) => {
                return Err(e);
            },
        };
        self.resolve(build_context.mode, &found, fragments)
    }
}

impl AlwaysInclude {
    /// The `include` tags of `content`, in order.
    pub open spec fn tags(content: Seq<char>) -> Seq<Seq<Option<Seq<char>>>> {
        regex_groups(INCLUDE_PATTERN@, content)
    }

    /// The fragments that must be read to resolve `content`, in order: one
    /// for each tag, whatever the mode.
    pub open spec fn needed(content: Seq<char>) -> Seq<(Seq<char>, Seq<char>)> {
        named(Self::tags(content))
    }

    /// `content` with each tag resolved: the text around the tags as it is,
    /// and in place of tag `i` the text of fragment `i`, unchanged.
    pub open spec fn resolved(content: Seq<char>, fragments: Seq<(Seq<char>, Seq<char>)>) -> Seq<
        char,
    > {
        weave(regex_gaps(INCLUDE_PATTERN@, content), include_fills(fragments))
    }

    /// Resolves the tags of a scanned text: the gaps of the scan as they
    /// are, and in place of tag `i` the text of fragment `i`, unchanged.
    /// There must be a fragment for each tag.
    pub fn resolve(&self, found: &Scan, fragments: &Vec<Fragment>) -> (r: Result<
        String,
        PreprocessError,
    >)
        ensures
            match r {
                Ok(out) => {
                    &&& fragments.len() == found.tags().len()
                    &&& out@ == weave(found.gap_texts(), include_fills(fragment_views(fragments@)))
                },
                Err(PreprocessError::Pattern) => false,
                Err(PreprocessError::FragmentCount { expected, given }) => {
                    &&& expected == found.tags().len()
                    &&& given == fragments.len()
                    &&& expected != given
                },
            },
    {
        let expected = found.matches.len();
        if fragments.len() != expected {
            return Err(PreprocessError::FragmentCount { expected, given: fragments.len() });
        }
        let ghost given = fragment_views(fragments@);
        let mut fills: Vec<String> = Vec::new();
        let mut i: usize = 0;
        while i < fragments.len()
            invariant
                i <= fragments.len(),
                fills.len() == i,
                given == fragment_views(fragments@),
                forall|k: int| 0 <= k < i ==> fills@[k]@ == given[k].1,
            decreases fragments.len() - i,
        {
            fills.push(fragments[i].content.clone());
            i += 1;
        }
        assert(texts(fills@) =~= include_fills(given));
        Ok(found.splice(&fills))
    }

    /// The fragments that `transform` needs for `content`, in order.
    pub fn requests(&self, build_context: &BuildContext, content: &str) -> (r: Result<
        Vec<Directive>,
        PreprocessError,
    >)
        ensures
            r is Ok == regex_accepts(INCLUDE_PATTERN@),
            r is Err ==> r == Err::<Vec<Directive>, PreprocessError>(PreprocessError::Pattern),
            r matches Ok(v) ==> directive_views(v@) == Self::needed(content@),
    {
        match scan(INCLUDE_PATTERN, content) {
            Ok(found) => Ok(directives(&found)),
            Err(e) => Err(e),
        }
    }

    /// Resolves every `include` tag of `content`. `fragments` holds what was
    /// read for `requests`, in the same order.
    pub fn transform(
        &self,
        build_context: &BuildContext,
        content: String,
        fragments: &Vec<Fragment>,
    ) -> (r: Result<String, PreprocessError>)
        ensures
            match r {
                Ok(out) => {
                    &&& regex_accepts(INCLUDE_PATTERN@)
                    &&& fragments.len() == Self::needed(content@).len()
                    &&& out@ == Self::resolved(content@, fragment_views(fragments@))
                },
                Err(PreprocessError::Pattern) => !regex_accepts(INCLUDE_PATTERN@),
                Err(PreprocessError::FragmentCount { expected, given }) => {
                    &&& regex_accepts(INCLUDE_PATTERN@)
                    &&& expected == Self::needed(content@).len()
                    &&& given == fragments.len()
                    &&& expected != given
                },
            },
            regex_accepts(INCLUDE_PATTERN@) && Self::tags(content@).len() == 0 && fragments.len()
                == 0 ==> r is Ok && r.unwrap()@ == content@,
    {
        let found = match scan(INCLUDE_PATTERN, content.as_str()) {
            Ok(found) => found,
            Err(e) => {
                return Err(e);
            },
        };
        self.resolve(&found, fragments)
    }
}

} // verus!
