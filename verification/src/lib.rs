//! A markdown preprocessor: resolves `{{link or include|..}}` and `{{include|..}}`
//! tags of a document against fragment files.

pub mod args;
pub mod context;
pub mod directive;
pub mod fragment;
pub mod headers;
pub mod outside;
pub mod pipeline;
pub mod splice;
pub mod text;
