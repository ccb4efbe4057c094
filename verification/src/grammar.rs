//! The cursor over a token sequence, the span-carrying result, and the
//! interface that every grammar rule implements.

use crate::ParseError;
use std::fmt::Debug;
use vstd::prelude::*;

verus! {

/// A read-only view of a token sequence with a position in it.
///
/// The position can be moved; the sequence cannot. Duplicating a cursor gives
/// one over the same sequence whose position moves on its own, which is how
/// every rule tries a parse that it may have to give up.
pub struct TokenStream<'a, Tok: Clone> {
    pub tokens: &'a Vec<Tok>,
    pub current: usize,
}

/// A parsed value with the span of tokens it was read from: `start` is the
/// index of its first token, `end` the index of the first token after it.
#[derive(Debug)]
pub struct ParseMeta<T> {
    pub start: usize,
    pub end: usize,
    pub value: T,
}

/// The error of a rule that found nothing to match at `pos`: the token that
/// stands there, or `Eof` where none is left.
pub open spec fn nothing_matched<Tok: Clone>(tokens: Seq<Tok>, pos: int, e: ParseError<Tok>) -> bool {
    if 0 <= pos < tokens.len() {
        e matches ParseError::UnexpectedToken { token } && cloned(tokens[pos], token)
    } else {
        e is Eof
    }
}

impl<'a, Tok: Clone> TokenStream<'a, Tok> {
    pub fn new(tokens: &'a Vec<Tok>) -> (r: TokenStream<'a, Tok>)
        ensures
            r.tokens == tokens,
            r.current == 0,
    {
        TokenStream { tokens, current: 0 }
    }

    /// A second cursor over the same tokens, at the same position.
    pub fn duplicate(&self) -> (r: TokenStream<'a, Tok>)
        ensures
            r == *self,
    {
        TokenStream { tokens: self.tokens, current: self.current }
    }

    /// The token at the position, if one is left.
    pub fn peek(&self) -> (r: Option<Tok>)
        ensures
            match r {
                Some(t) => self.current < self.tokens@.len() && cloned(
                    self.tokens@[self.current as int],
                    t,
                ),
                None => self.current >= self.tokens@.len(),
            },
    {
        if self.current < self.tokens.len() {
            Some(self.tokens[self.current].clone())
        } else {
            None
        }
    }

    /// Moves the position forward by `n` and returns the token that stood at
    /// the position before the move.
    pub fn advance_by(&mut self, n: usize) -> (r: Option<Tok>)
        requires
            old(self).current + n <= usize::MAX,
        ensures
            final(self).tokens == old(self).tokens,
            final(self).current == old(self).current + n,
            match r {
                Some(t) => old(self).current < old(self).tokens@.len() && cloned(
                    old(self).tokens@[old(self).current as int],
                    t,
                ),
                None => old(self).current >= old(self).tokens@.len(),
            },
    {
        let t = self.peek();
        self.current = self.current + n;
        t
    }

    /// The error for "nothing matches here".
    pub fn unexpected(&self) -> (e: ParseError<Tok>)
        ensures
            nothing_matched(self.tokens@, self.current as int, e),
    {
        match self.peek() {
            Some(token) => ParseError::UnexpectedToken { token },
            None => ParseError::Eof,
        }
    }

    /// Tries the rule `T` at the position: on success the cursor moves to the
    /// end of what was read, on failure it stays.
    pub fn try_parse<T: Parse<Tok>>(&mut self) -> (r: Result<ParseMeta<T>, ParseError<Tok>>)
        ensures
            attempt::<Tok, T>(*old(self), *final(self), r),
    {
        T::try_parse(self)
    }

    /// Tries the rule `T` on a duplicate of the cursor. The cursor itself is
    /// left as it is, whatever comes of the trial; to take what a successful
    /// trial read, advance by the length of its span.
    pub fn trial<T: Parse<Tok>>(&self) -> (r: Result<ParseMeta<T>, ParseError<Tok>>)
        ensures
            reads::<Tok, T>(self.tokens@, self.current as int, r),
    {
        let mut copy = self.duplicate();
        T::try_parse(&mut copy)
    }
}

impl<'a, Tok: Clone> Clone for TokenStream<'a, Tok> {
    fn clone(&self) -> (r: Self)
        ensures
            r == *self,
    {
        self.duplicate()
    }
}

impl<'a, Tok: Clone> From<&'a Vec<Tok>> for TokenStream<'a, Tok> {
    fn from(tokens: &'a Vec<Tok>) -> (r: Self) {
        TokenStream::new(tokens)
    }
}

impl<'a, Tok: Clone> vstd::std_specs::convert::FromSpecImpl<&'a Vec<Tok>> for TokenStream<'a, Tok> {
    open spec fn obeys_from_spec() -> bool {
        true
    }

    open spec fn from_spec(tokens: &'a Vec<Tok>) -> Self {
        TokenStream { tokens, current: 0 }
    }
}

impl<T> ParseMeta<T> {
    /// The same span, with the value moved behind an owning pointer.
    pub fn box_value(self) -> (r: ParseMeta<Box<T>>)
        ensures
            r == (ParseMeta { start: self.start, end: self.end, value: Box::new(self.value) }),
    {
        ParseMeta { start: self.start, end: self.end, value: Box::new(self.value) }
    }
}

/// What every grammar rule can do: try to read itself from a cursor.
pub trait Parse<Tok: Clone>: Sized + Debug {
    /// Whether `r` is a result that the rule may give when it is tried at
    /// `pos` of `tokens`. A rule that says nothing here admits every result.
    open spec fn yields(
        tokens: Seq<Tok>,
        pos: int,
        r: Result<ParseMeta<Self>, ParseError<Tok>>,
    ) -> bool {
        true
    }

    /// Tries to read the rule at the cursor's position.
    ///
    /// On success the span starts at that position and the cursor stands at
    /// the span's end. On failure the cursor has not moved.
    fn try_parse(stream: &mut TokenStream<Tok>) -> (r: Result<ParseMeta<Self>, ParseError<Tok>>)
        ensures
            Self::yields(old(stream).tokens@, old(stream).current as int, r),
            committed(*old(stream), *final(stream), r),
    ;
}

/// A success spans from `pos` to an end that lies no earlier and, for a
/// position inside `len` tokens, not past them.
pub open spec fn spanned<Tok, T>(len: nat, pos: int, r: Result<ParseMeta<T>, ParseError<Tok>>) -> bool {
    r matches Ok(m) ==> {
        &&& m.start == pos
        &&& m.start <= m.end
        &&& pos <= len ==> m.end <= len
    }
}

/// How a trial leaves its cursor: the tokens stay, a success spans from the
/// old position and the cursor stands at its end, and a failure has not moved
/// the cursor.
pub open spec fn committed<'a, Tok: Clone, T>(
    before: TokenStream<'a, Tok>,
    after: TokenStream<'a, Tok>,
    r: Result<ParseMeta<T>, ParseError<Tok>>,
) -> bool {
    &&& after.tokens == before.tokens
    &&& spanned(before.tokens@.len(), before.current as int, r)
    &&& after.current == match r {
        Ok(m) => m.end,
        Err(_) => before.current,
    }
}

/// `r` is a result of `T` at `pos` of `tokens`, with a span as `spanned` asks.
pub open spec fn reads<Tok: Clone, T: Parse<Tok>>(
    tokens: Seq<Tok>,
    pos: int,
    r: Result<ParseMeta<T>, ParseError<Tok>>,
) -> bool {
    T::yields(tokens, pos, r) && spanned(tokens.len(), pos, r)
}

/// The trial of `T` on a cursor: `r` is a result of `T` at the old position,
/// and the cursor is left as `committed` says.
pub open spec fn attempt<'a, Tok: Clone, T: Parse<Tok>>(
    before: TokenStream<'a, Tok>,
    after: TokenStream<'a, Tok>,
    r: Result<ParseMeta<T>, ParseError<Tok>>,
) -> bool {
    T::yields(before.tokens@, before.current as int, r) && committed(before, after, r)
}

/// `T` may fail at `pos`.
pub open spec fn fails<Tok: Clone, T: Parse<Tok>>(tokens: Seq<Tok>, pos: int) -> bool {
    exists|e: ParseError<Tok>| #[trigger] reads::<Tok, T>(tokens, pos, Err(e))
}

/// A success with another value over the same span.
pub open spec fn with_value<T, U>(m: ParseMeta<T>, value: U) -> ParseMeta<U> {
    ParseMeta { start: m.start, end: m.end, value }
}

/// What reading one token at `pos` gives: a copy of the token that stands
/// there, over the span of that one token; or `Eof`, where none stands there.
pub open spec fn reads_token<Tok: Clone>(
    tokens: Seq<Tok>,
    pos: int,
    r: Result<ParseMeta<Tok>, ParseError<Tok>>,
) -> bool {
    match r {
        Ok(m) => 0 <= pos < tokens.len() && m.start == pos && m.end == pos + 1 && cloned(
            tokens[pos],
            m.value,
        ),
        Err(e) => !(0 <= pos < tokens.len()) && e is Eof,
    }
}

/// Reads the one token at the cursor, of whatever kind, and moves past it.
/// Where no token is left, fails with `Eof` and leaves the cursor.
pub fn parse_token<Tok: Clone>(stream: &mut TokenStream<Tok>) -> (r: Result<
    ParseMeta<Tok>,
    ParseError<Tok>,
>)
    ensures
        reads_token(old(stream).tokens@, old(stream).current as int, r),
        committed(*old(stream), *final(stream), r),
{
    let start = stream.current;
    if start < stream.tokens.len() {
        match stream.advance_by(1) {
            Some(value) => {
                return Ok(ParseMeta { start, end: start + 1, value });
            },
            None => {},
        }
    }
    Err(ParseError::Eof)
}

/// The same result with the value taken out of its box.
pub open spec fn unboxed<Tok, T>(r: Result<ParseMeta<Box<T>>, ParseError<Tok>>) -> Result<
    ParseMeta<T>,
    ParseError<Tok>,
> {
    match r {
        Ok(m) => Ok(ParseMeta { start: m.start, end: m.end, value: *m.value }),
        Err(e) => Err(e),
    }
}

/// A boxed rule reads what the rule reads. It is there to give a rule that
/// refers to itself a finite size.
impl<Tok: Clone, T: Parse<Tok>> Parse<Tok> for Box<T> {
    open spec fn yields(
        tokens: Seq<Tok>,
        pos: int,
        r: Result<ParseMeta<Self>, ParseError<Tok>>,
    ) -> bool {
        T::yields(tokens, pos, unboxed(r))
    }

    fn try_parse(stream: &mut TokenStream<Tok>) -> (r: Result<ParseMeta<Self>, ParseError<Tok>>) {
        match T::try_parse(stream) {
            Ok(m) => Ok(m.box_value()),
            Err(e) => Err(e),
        }
    }
}

/// The empty rule: it matches everywhere and consumes nothing.
impl<Tok: Clone> Parse<Tok> for () {
    open spec fn yields(
        tokens: Seq<Tok>,
        pos: int,
        r: Result<ParseMeta<Self>, ParseError<Tok>>,
    ) -> bool {
        r == Ok::<ParseMeta<()>, ParseError<Tok>>(
            ParseMeta { start: pos as usize, end: pos as usize, value: () },
        )
    }

    fn try_parse(stream: &mut TokenStream<Tok>) -> (r: Result<ParseMeta<Self>, ParseError<Tok>>) {
        Ok(ParseMeta { start: stream.current, end: stream.current, value: () })
    }
}

/// The empty rule under a name of its own, for the alternative "nothing".
#[derive(Debug)]
pub struct NoToken;

impl<Tok: Clone> Parse<Tok> for NoToken {
    open spec fn yields(
        tokens: Seq<Tok>,
        pos: int,
        r: Result<ParseMeta<Self>, ParseError<Tok>>,
    ) -> bool {
        r == Ok::<ParseMeta<NoToken>, ParseError<Tok>>(
            ParseMeta { start: pos as usize, end: pos as usize, value: NoToken },
        )
    }

    fn try_parse(stream: &mut TokenStream<Tok>) -> (r: Result<ParseMeta<Self>, ParseError<Tok>>) {
        Ok(ParseMeta { start: stream.current, end: stream.current, value: NoToken })
    }
}

} // verus!
