//! Regular expressions, for the kinds of token whose text varies.
//!
//! The expressions are compiled and run by the `regex` crate. What it does
//! is not proved here: this module names its results and says how they are
//! obtained, and the scanner's logic takes them as values.

use regex::Regex;
use vstd::prelude::*;

verus! {

/// `regex::Regex`, a compiled regular expression: carried, never looked into.
#[verifier::external_type_specification]
#[verifier::external_body]
pub struct ExRegex(Regex);

/// A compiled regular expression, with the pattern it was compiled from.
/// Its view is that pattern. Values are made by compiling and in no other
/// way, so the two always belong together.
pub struct Matcher {
    pattern: String,
    engine: Regex,
}

impl View for Matcher {
    type V = Seq<char>;

    closed spec fn view(&self) -> Seq<char> {
        self.pattern@
    }
}

/// Why a pattern was turned down.
#[derive(Debug)]
pub struct PatternError {
    /// The compiler's description of the fault.
    pub message: String,
}

/// The first match of an expression in a text: the byte offset at which it
/// starts, the text it covers, and for each group that was asked for by name
/// the text it covers, or `None` for a group that took no part in the match
/// or that the expression does not have.
#[derive(Debug)]
pub struct Found {
    pub start: usize,
    pub text: String,
    pub groups: Vec<Option<String>>,
}

/// A `Found` with its texts as sequences of characters.
pub struct FoundView {
    pub start: int,
    pub text: Seq<char>,
    pub groups: Seq<Option<Seq<char>>>,
}

/// The view of a text that may be missing.
pub open spec fn text_view(text: Option<String>) -> Option<Seq<char>> {
    match text {
        Some(s) => Some(s@),
        None => None,
    }
}

impl View for Found {
    type V = FoundView;

    open spec fn view(&self) -> FoundView {
        FoundView {
            start: self.start as int,
            text: self.text@,
            groups: Seq::new(self.groups@.len(), |i: int| text_view(self.groups@[i])),
        }
    }
}

/// The view of a search's result.
pub open spec fn found_view(found: Option<Found>) -> Option<FoundView> {
    match found {
        Some(f) => Some(f@),
        None => None,
    }
}

/// The views of `names`, in order.
pub open spec fn names_view(names: Seq<String>) -> Seq<Seq<char>> {
    Seq::new(names.len(), |i: int| names[i]@)
}

/// What the first match of the expression `pattern` in `text` is, with the
/// groups called `names`: the result of `regex::Regex::captures`, which this
/// library does not define.
pub uninterp spec fn regex_captures(
    pattern: Seq<char>,
    names: Seq<Seq<char>>,
    text: Seq<char>,
) -> Option<FoundView>;

/// Whether `pattern` compiles: whether `regex::Regex::new` accepts it, which
/// this library does not define.
pub uninterp spec fn regex_compiles(pattern: Seq<char>) -> bool;

/// Compiles `pattern` with `regex::Regex::new`. Assumed: whether it compiles
/// is a function of the pattern, namely `regex_compiles`; and a matcher that
/// comes back holds the expression compiled from `pattern`, so that its view
/// is `pattern`.
#[verifier::external_body]
fn compile(pattern: &str) -> (r: Result<Matcher, String>)
    ensures
        r is Ok == regex_compiles(pattern@),
        r matches Ok(m) ==> m@ == pattern@,
{
    match Regex::new(pattern) {
        Ok(engine) => Ok(Matcher { pattern: pattern.to_owned(), engine }),
        Err(e) => Err(e.to_string()),
    }
}

/// Searches `text` with `regex::Regex::captures` and copies out of the
/// `regex::Captures` where the whole match starts, its text, and the text of
/// each group in `names`. Assumed: the result is a function of the pattern,
/// the names and the text, namely `regex_captures`.
#[verifier::external_body]
pub(crate) fn search(matcher: &Matcher, names: &Vec<String>, text: &str) -> (r: Option<Found>)
    ensures
        found_view(r) == regex_captures(matcher@, names_view(names@), text@),
{
    let caps = matcher.engine.captures(text)?;
    let whole = caps.get(0)?;
    let groups = names.iter().map(|n| caps.name(n).map(|g| g.as_str().to_owned())).collect();
    Some(Found { start: whole.start(), text: whole.as_str().to_owned(), groups })
}

impl Matcher {
    /// Compiles `pattern`. A pattern that compiles gives a matcher with
    /// `pattern` as its view; one that the compiler turns down gives the
    /// compiler's message.
    pub fn new(pattern: &str) -> (r: Result<Matcher, PatternError>)
        ensures
            r is Ok == regex_compiles(pattern@),
            r matches Ok(m) ==> m@ == pattern@,
    {
        match compile(pattern) {
            Ok(m) => Ok(m),
            Err(message) => Err(PatternError { message }),
        }
    }
}

} // verus!
