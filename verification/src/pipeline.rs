//! The run: `link or include` tags are resolved first, `include` tags in
//! the result of that second, each kind in one pass. Between the passes the
//! caller reads the fragments that the next pass asks for.

use crate::context::BuildContext;
use crate::directive::{
    directive_views, fragment_views, AlwaysInclude, Directive, Fragment, LinkOrInclude,
    INCLUDE_PATTERN, LINK_PATTERN,
};
use crate::outside::regex_accepts;
use crate::splice::PreprocessError;
use vstd::prelude::*;

verus! {

/// The pass that comes next.
#[derive(Clone, Copy, Debug, PartialEq, Eq, Structural)]
pub enum Stage {
    LinkOrInclude,
    AlwaysInclude,
    Finished,
}

impl Stage {
    /// The stage after this one.
    pub open spec fn next(self) -> Stage {
        match self {
            Stage::LinkOrInclude => Stage::AlwaysInclude,
            Stage::AlwaysInclude => Stage::Finished,
            Stage::Finished => Stage::Finished,
        }
    }
}

/// A run in progress: the text as the passes so far have left it.
pub struct Pipeline {
    pub stage: Stage,
    pub context: BuildContext,
    pub text: String,
}

impl Pipeline {
    /// Whether the pattern of the next pass is accepted.
    pub open spec fn accepted(&self) -> bool {
        match self.stage {
            Stage::LinkOrInclude => regex_accepts(LINK_PATTERN@),
            Stage::AlwaysInclude => regex_accepts(INCLUDE_PATTERN@),
            Stage::Finished => true,
        }
    }

    /// The fragments that the next pass reads, in order.
    pub open spec fn needed(&self) -> Seq<(Seq<char>, Seq<char>)> {
        match self.stage {
            Stage::LinkOrInclude => LinkOrInclude::needed(self.context.mode, self.text@),
            Stage::AlwaysInclude => AlwaysInclude::needed(self.text@),
            Stage::Finished => Seq::empty(),
        }
    }

    /// The number of tags that the next pass finds in the text.
    pub open spec fn tag_count(&self) -> nat {
        match self.stage {
            Stage::LinkOrInclude => LinkOrInclude::tags(self.text@).len(),
            Stage::AlwaysInclude => AlwaysInclude::tags(self.text@).len(),
            Stage::Finished => 0,
        }
    }

    /// The text after the next pass.
    pub open spec fn next_text(&self, fragments: Seq<(Seq<char>, Seq<char>)>) -> Seq<char> {
        match self.stage {
            Stage::LinkOrInclude => LinkOrInclude::resolved(
                self.context.mode,
                self.text@,
                fragments,
            ),
            Stage::AlwaysInclude => AlwaysInclude::resolved(self.text@, fragments),
            Stage::Finished => self.text@,
        }
    }

    /// A run on `content` that has made no pass yet.
    pub fn new(context: BuildContext, content: String) -> (p: Pipeline)
        ensures
            p.stage == Stage::LinkOrInclude,
            p.context == context,
            p.text == content,
    {
        Pipeline { stage: Stage::LinkOrInclude, context, text: content }
    }

    /// Whether both passes are made.
    pub fn is_finished(&self) -> (r: bool)
        ensures
            r == (self.stage == Stage::Finished),
    {
        self.stage == Stage::Finished
    }

    /// The fragments to read before the next pass, in order.
    pub fn requests(&self) -> (r: Result<Vec<Directive>, PreprocessError>)
        ensures
            r is Ok == self.accepted(),
            r is Err ==> r == Err::<Vec<Directive>, PreprocessError>(PreprocessError::Pattern),
            r matches Ok(v) ==> directive_views(v@) == self.needed(),
    {
        match self.stage {
            Stage::LinkOrInclude => LinkOrInclude.requests(&self.context, self.text.as_str()),
            Stage::AlwaysInclude => AlwaysInclude.requests(&self.context, self.text.as_str()),
            Stage::Finished => {
                let none: Vec<Directive> = Vec::new();
                assert(directive_views(none@) =~= Seq::empty());
                Ok(none)
            },
        }
    }

    /// Makes the next pass with the fragments that were read for
    /// `requests`, in the same order. A finished run stays as it is.
    pub fn advance(self, fragments: &Vec<Fragment>) -> (r: Result<Pipeline, PreprocessError>)
        ensures
            match r {
                Ok(p) => {
                    &&& self.accepted()
                    &&& fragments.len() == self.needed().len()
                    &&& p.stage == self.stage.next()
                    &&& p.context == self.context
                    &&& p.text@ == self.next_text(fragment_views(fragments@))
                },
                Err(PreprocessError::Pattern) => !self.accepted(),
                Err(PreprocessError::FragmentCount { expected, given }) => {
                    &&& self.accepted()
                    &&& expected == self.needed().len()
                    &&& given == fragments.len()
                    &&& expected != given
                },
            },
            self.accepted() && self.tag_count() == 0 && fragments.len() == 0 ==> r is Ok
                && r.unwrap().text@ == self.text@,
    {
        let Pipeline { stage, context, text } = self;
        match stage {
            Stage::LinkOrInclude => {
                match LinkOrInclude.transform(&context, text, fragments) {
                    Ok(text) => Ok(Pipeline { stage: Stage::AlwaysInclude, context, text }),
                    Err(e) => Err(e),
                }
            },
            Stage::AlwaysInclude => {
                match AlwaysInclude.transform(&context, text, fragments) {
                    Ok(text) => Ok(Pipeline { stage: Stage::Finished, context, text }),
                    Err(e) => Err(e),
                }
            },
            Stage::Finished => {
                if fragments.len() != 0 {
                    Err(PreprocessError::FragmentCount { expected: 0, given: fragments.len() })
                } else {
                    Ok(Pipeline { stage, context, text })
                }
            },
        }
    }

    /// The text of a finished run.
    pub fn output(self) -> (r: Option<String>)
        ensures
            r == if self.stage == Stage::Finished {
                Some(self.text)
            } else {
                None
            },
    {
        if self.stage == Stage::Finished {
            Some(self.text)
        } else {
            None
        }
    }
}

} // verus!
