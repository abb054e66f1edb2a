//! The build mode and the context of one run.

use vstd::prelude::*;

verus! {

/// How a `link or include` tag is resolved.
#[derive(Clone, Copy, Debug, PartialEq, Eq, Structural)]
pub enum BuildMode {
    /// The tag becomes a link to the fragment.
    Dynamic,
    /// The tag becomes the marked text of the fragment.
    Static,
    /// The tag becomes the marked text of the fragment in a collapsed block.
    Spoiler,
}

impl BuildMode {
    /// Whether resolving a `link or include` tag reads the fragment.
    pub open spec fn reads_fragments(self) -> bool {
        self != BuildMode::Dynamic
    }

    /// Whether resolving a `link or include` tag reads the fragment.
    #[verifier::when_used_as_spec(reads_fragments)]
    pub fn needs_fragments(self) -> (r: bool)
        ensures
            r == self.reads_fragments(),
    {
        match self {
            BuildMode::Dynamic => false,
            BuildMode::Static => true,
            BuildMode::Spoiler => true,
        }
    }
}

/// What a run works with: its mode, and the path of the document that the
/// paths of the tags are relative to. It is made once and only read after.
pub struct BuildContext {
    pub mode: BuildMode,
    pub input_file: String,
}

} // verus!
