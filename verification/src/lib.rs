//! Find uses of a dotted field path inside query snippets embedded in text.
//!
//! The library has two stages. The extractor scans arbitrary text for
//! marker-introduced, backtick-delimited query snippets. The matcher decides
//! whether a parsed query document selects a given dotted field path
//! somewhere under one of its definitions. Parsing a snippet into a
//! [`ast::Document`] is the job of the surrounding program; the matcher works
//! on that document alone.

pub mod ast;
pub mod extract;
pub mod fieldpath;
pub mod matcher;
