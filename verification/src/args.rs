//! The arguments of a run and the rules that they must meet before any
//! file is read or written.

use crate::context::{BuildContext, BuildMode};
use vstd::prelude::*;

verus! {

/// What was found at a path.
#[derive(Clone, Copy, Debug, PartialEq, Eq, Structural)]
pub enum PathKind {
    /// Nothing is there.
    Missing,
    /// Something that is not a directory.
    File,
    /// A directory.
    Directory,
}

/// Whether the output file may be created by the run.
#[derive(Clone, Copy, Debug, PartialEq, Eq, Structural)]
pub enum OutputPolicy {
    /// The output file is created if it is missing, and emptied if not.
    CreateIfAbsent,
    /// The output file must be there before the run.
    MustPreExist,
}

/// What was found at the two paths of the arguments.
#[derive(Clone, Copy, Debug, PartialEq, Eq, Structural)]
pub struct PathProbe {
    pub input: PathKind,
    pub output: PathKind,
}

/// Why the arguments were refused.
#[derive(Clone, Copy, Debug, PartialEq, Eq, Structural)]
pub enum ArgsError {
    InputIsDirectory,
    InputMissing,
    OutputIsDirectory,
    OutputMissing,
}

/// The arguments of a run.
pub struct Args {
    pub input_file: String,
    pub build_mode: BuildMode,
    pub output_file: String,
    pub output_policy: OutputPolicy,
}

/// The first rule that the probed paths break, if any: the input must not be
/// a directory and must be there, the output must not be a directory, and
/// under `MustPreExist` it must be there.
pub open spec fn rejection(found: PathProbe, policy: OutputPolicy) -> Option<ArgsError> {
    if found.input == PathKind::Directory {
        Some(ArgsError::InputIsDirectory)
    } else if found.input == PathKind::Missing {
        Some(ArgsError::InputMissing)
    } else if found.output == PathKind::Directory {
        Some(ArgsError::OutputIsDirectory)
    } else if policy == OutputPolicy::MustPreExist && found.output == PathKind::Missing {
        Some(ArgsError::OutputMissing)
    } else {
        None
    }
}

/// The first rule that the probed paths break, if any.
pub fn rejection_of(found: PathProbe, policy: OutputPolicy) -> (r: Option<ArgsError>)
    ensures
        r == rejection(found, policy),
{
    if found.input == PathKind::Directory {
        Some(ArgsError::InputIsDirectory)
    } else if found.input == PathKind::Missing {
        Some(ArgsError::InputMissing)
    } else if found.output == PathKind::Directory {
        Some(ArgsError::OutputIsDirectory)
    } else if policy == OutputPolicy::MustPreExist && found.output == PathKind::Missing {
        Some(ArgsError::OutputMissing)
    } else {
        None
    }
}

impl ArgsError {
    /// The message for this error.
    pub open spec fn text(self) -> Seq<char> {
        match self {
            ArgsError::InputIsDirectory => "The input path must point to file"@,
            ArgsError::InputMissing => "The input file must be exist"@,
            ArgsError::OutputIsDirectory => "The output path must point to file"@,
            ArgsError::OutputMissing => "The output file must be exist"@,
        }
    }

    /// The message for this error.
    pub fn message(self) -> (m: String)
        ensures
            m@ == self.text(),
    {
        match self {
            ArgsError::InputIsDirectory => "The input path must point to file".to_owned(),
            ArgsError::InputMissing => "The input file must be exist".to_owned(),
            ArgsError::OutputIsDirectory => "The output path must point to file".to_owned(),
            ArgsError::OutputMissing => "The output file must be exist".to_owned(),
        }
    }
}

impl Args {
    /// Hands the arguments back if the probed paths break no rule, and else
    /// the first rule that they break.
    pub fn validate(self, found: PathProbe) -> (r: Result<Args, ArgsError>)
        ensures
            r == match rejection(found, self.output_policy) {
                Some(e) => Err::<Args, ArgsError>(e),
                None => Ok(self),
            },
    {
        match rejection_of(found, self.output_policy) {
            Some(e) => Err(e),
            None => Ok(self),
        }
    }

    /// The context of the run that these arguments ask for.
    pub fn context(&self) -> (c: BuildContext)
        ensures
            c.mode == self.build_mode,
            c.input_file@ == self.input_file@,
    {
        BuildContext { mode: self.build_mode, input_file: self.input_file.clone() }
    }
}

} // verus!
