//! A toolkit for defining grammars: a scanner that turns source text into
//! tokens, and a backtracking recursive-descent engine that turns tokens into
//! parse trees that carry their spans.

use vstd::prelude::*;

pub mod choice;
pub mod convert;
pub mod grammar;
pub mod pattern;
pub mod record;
pub mod scanner;
pub mod sequence;
pub mod text;
pub mod token;

pub use choice::Either;
pub use grammar::{NoToken, Parse, ParseMeta, TokenStream};
pub use record::parse_record;
pub use scanner::{Field, Scanner};
pub use token::{FieldType, Token, Value};

verus! {

/// A piece of source text, with an optional name for diagnostics.
pub struct Source<'a> {
    pub name: Option<&'a str>,
    pub content: &'a str,
}

/// Why scanning or parsing stopped.
#[derive(Debug)]
pub enum ParseError<Tok> {
    /// No token kind matched the text at some position; `sample` is the text
    /// that the scanner examined there.
    ScanError { sample: String },
    /// No rule matched at a position where `token` stands.
    UnexpectedToken { token: Tok },
    /// No rule matched, and no token is left.
    Eof,
    /// Reserved for a rule that was declared and never given a parser.
    MissingImplementation,
}

} // verus!
