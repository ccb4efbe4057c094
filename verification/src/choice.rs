//! Ordered choice: the first alternative that matches is the one that is
//! taken, whatever the later ones would have read.

use crate::grammar::{
    fails, nothing_matched, reads, with_value, Parse, ParseMeta, TokenStream,
};
use crate::ParseError;
use vstd::prelude::*;

verus! {

/// The value of a choice between two rules, tagged with the alternative that
/// matched. A choice between more rules nests: `Either<A, Either<B, C>>`
/// tries `A`, then `B`, then `C`.
#[derive(Debug, PartialEq, Eq)]
pub enum Either<A, B> {
    Left(A),
    Right(B),
}

impl<Tok: Clone, A: Parse<Tok>, B: Parse<Tok>> Parse<Tok> for Either<A, B> {
    /// `Left` is what `A` read; `Right` is what `B` read where `A` failed; an
    /// error is "nothing matched here", where both failed.
    open spec fn yields(
        tokens: Seq<Tok>,
        pos: int,
        r: Result<ParseMeta<Self>, ParseError<Tok>>,
    ) -> bool {
        match r {
            Ok(m) => match m.value {
                Either::Left(a) => reads::<Tok, A>(tokens, pos, Ok(with_value(m, a))),
                Either::Right(b) => fails::<Tok, A>(tokens, pos) && reads::<Tok, B>(
                    tokens,
                    pos,
                    Ok(with_value(m, b)),
                ),
            },
            Err(e) => {
                &&& fails::<Tok, A>(tokens, pos)
                &&& fails::<Tok, B>(tokens, pos)
                &&& nothing_matched(tokens, pos, e)
            },
        }
    }

    fn try_parse(stream: &mut TokenStream<Tok>) -> (r: Result<ParseMeta<Self>, ParseError<Tok>>) {
        match stream.trial::<A>() {
            Ok(a) => {
                stream.advance_by(a.end - a.start);
                let m = ParseMeta { start: a.start, end: a.end, value: Either::Left(a.value) };
                assert(with_value(m, a.value) == a);
                return Ok(m);
            },
            Err(_) => {},
        }
        match stream.trial::<B>() {
            Ok(b) => {
                stream.advance_by(b.end - b.start);
                let m = ParseMeta { start: b.start, end: b.end, value: Either::Right(b.value) };
                assert(with_value(m, b.value) == b);
                return Ok(m);
            },
            Err(_) => {},
        }
        Err(stream.unexpected())
    }
}

/// Where the first alternative does not fail, the choice gives what the
/// first alternative read: it does not fail and it does not give the second,
/// whatever the second would read there.
pub proof fn lemma_first_alternative_wins<Tok: Clone, A: Parse<Tok>, B: Parse<Tok>>(
    tokens: Seq<Tok>,
    pos: int,
    r: Result<ParseMeta<Either<A, B>>, ParseError<Tok>>,
)
    requires
        forall|e: ParseError<Tok>| !A::yields(tokens, pos, Err(e)),
        <Either<A, B> as Parse<Tok>>::yields(tokens, pos, r),
    ensures
        r matches Ok(m) && m.value matches Either::Left(a) && reads::<Tok, A>(
            tokens,
            pos,
            Ok(with_value(m, a)),
        ),
{
    if fails::<Tok, A>(tokens, pos) {
        let e = choose|e: ParseError<Tok>| #[trigger] reads::<Tok, A>(tokens, pos, Err(e));
        assert(A::yields(tokens, pos, Err(e)));
    }
}

/// The second alternative is given only where the first fails.
pub proof fn lemma_second_alternative_only_after_first_fails<
    Tok: Clone,
    A: Parse<Tok>,
    B: Parse<Tok>,
>(tokens: Seq<Tok>, pos: int, m: ParseMeta<Either<A, B>>)
    requires
        <Either<A, B> as Parse<Tok>>::yields(tokens, pos, Ok(m)),
        m.value is Right,
    ensures
        exists|e: ParseError<Tok>| A::yields(tokens, pos, Err(e)),
{
    let e = choose|e: ParseError<Tok>| #[trigger] reads::<Tok, A>(tokens, pos, Err(e));
    assert(A::yields(tokens, pos, Err(e)));
}

} // verus!
