//! Ordered concatenation: a tuple of rules reads its members one after the
//! other, each where the one before it ended.

use crate::grammar::{reads, Parse, ParseMeta, TokenStream};
use crate::ParseError;
use vstd::prelude::*;

verus! {

/// `a` was read at `pos`, and `b` where `a` ended.
pub open spec fn in_a_row<Tok: Clone, A: Parse<Tok>, B: Parse<Tok>>(
    tokens: Seq<Tok>,
    pos: int,
    a: ParseMeta<A>,
    b: ParseMeta<B>,
) -> bool {
    reads::<Tok, A>(tokens, pos, Ok(a)) && reads::<Tok, B>(tokens, a.end as int, Ok(b))
}

/// `e` is the error of the first member that fails: of `A` at `pos`, or of
/// `B` at the end of some success of `A`.
pub open spec fn fails_in_a_row<Tok: Clone, A: Parse<Tok>, B: Parse<Tok>>(
    tokens: Seq<Tok>,
    pos: int,
    e: ParseError<Tok>,
) -> bool {
    ||| reads::<Tok, A>(tokens, pos, Err(e))
    ||| exists|a: ParseMeta<A>| #[trigger]
        reads::<Tok, A>(tokens, pos, Ok(a)) && reads::<Tok, B>(tokens, a.end as int, Err(e))
}

/// The result of a pair whose members gave `a` and `b`.
pub open spec fn joined<A, B>(a: ParseMeta<A>, b: ParseMeta<B>) -> ParseMeta<(A, B)> {
    ParseMeta { start: a.start, end: b.end, value: (a.value, b.value) }
}

/// Reads `A` and then `B` on a duplicate of the cursor, and moves the cursor
/// itself only when both were read. The members come back with their own
/// spans, which meet: `B` starts where `A` ended.
pub fn parse_pair<Tok: Clone, A: Parse<Tok>, B: Parse<Tok>>(stream: &mut TokenStream<Tok>) -> (r:
    Result<(ParseMeta<A>, ParseMeta<B>), ParseError<Tok>>)
    ensures
        final(stream).tokens == old(stream).tokens,
        match r {
            Ok((a, b)) => {
                &&& in_a_row(old(stream).tokens@, old(stream).current as int, a, b)
                &&& a.end == b.start
                &&& final(stream).current == b.end
            },
            Err(e) => {
                &&& fails_in_a_row::<Tok, A, B>(
                    old(stream).tokens@,
                    old(stream).current as int,
                    e,
                )
                &&& final(stream).current == old(stream).current
            },
        },
{
    let mut trial = stream.duplicate();
    let a = match A::try_parse(&mut trial) {
        Ok(a) => a,
        Err(e) => {
            return Err(e);
        },
    };
    assert(reads::<Tok, A>(stream.tokens@, stream.current as int, Ok(a)));
    let b = match B::try_parse(&mut trial) {
        Ok(b) => b,
        Err(e) => {
            assert(reads::<Tok, B>(stream.tokens@, a.end as int, Err(e)));
            return Err(e);
        },
    };
    stream.advance_by(b.end - a.start);
    Ok((a, b))
}

impl<Tok: Clone, A: Parse<Tok>, B: Parse<Tok>> Parse<Tok> for (A, B) {
    open spec fn yields(
        tokens: Seq<Tok>,
        pos: int,
        r: Result<ParseMeta<Self>, ParseError<Tok>>,
    ) -> bool {
        match r {
            Ok(m) => exists|a: ParseMeta<A>, b: ParseMeta<B>| #[trigger]
                in_a_row(tokens, pos, a, b) && m == joined(a, b),
            Err(e) => fails_in_a_row::<Tok, A, B>(tokens, pos, e),
        }
    }

    fn try_parse(stream: &mut TokenStream<Tok>) -> (r: Result<ParseMeta<Self>, ParseError<Tok>>) {
        match parse_pair::<Tok, A, B>(stream) {
            Ok((a, b)) => {
                let m = ParseMeta { start: a.start, end: b.end, value: (a.value, b.value) };
                assert(m == joined(a, b));
                Ok(m)
            },
            Err(e) => Err(e),
        }
    }
}

/// A sequence of one member reads what the member reads.
pub open spec fn single<Tok, A>(r: Result<ParseMeta<(A,)>, ParseError<Tok>>) -> Result<
    ParseMeta<A>,
    ParseError<Tok>,
> {
    match r {
        Ok(m) => Ok(ParseMeta { start: m.start, end: m.end, value: m.value.0 }),
        Err(e) => Err(e),
    }
}

impl<Tok: Clone, A: Parse<Tok>> Parse<Tok> for (A,) {
    open spec fn yields(
        tokens: Seq<Tok>,
        pos: int,
        r: Result<ParseMeta<Self>, ParseError<Tok>>,
    ) -> bool {
        A::yields(tokens, pos, single(r))
    }

    fn try_parse(stream: &mut TokenStream<Tok>) -> (r: Result<ParseMeta<Self>, ParseError<Tok>>) {
        match A::try_parse(stream) {
            Ok(m) => Ok(ParseMeta { start: m.start, end: m.end, value: (m.value,) }),
            Err(e) => Err(e),
        }
    }
}

/// The result of a sequence of three, seen as the pair of its first
/// two members and its last.
pub open spec fn nested3<Tok, A, B, C>(r: Result<ParseMeta<(A, B, C)>, ParseError<Tok>>) -> Result<
    ParseMeta<((A, B), C)>,
    ParseError<Tok>,
> {
    match r {
        Ok(m) => Ok(
            ParseMeta {
                start: m.start,
                end: m.end,
                value: ((m.value.0, m.value.1), m.value.2),
            },
        ),
        Err(e) => Err(e),
    }
}

impl<Tok: Clone, A: Parse<Tok>, B: Parse<Tok>, C: Parse<Tok>> Parse<Tok> for (A, B, C) {
    open spec fn yields(
        tokens: Seq<Tok>,
        pos: int,
        r: Result<ParseMeta<Self>, ParseError<Tok>>,
    ) -> bool {
        <((A, B), C) as Parse<Tok>>::yields(tokens, pos, nested3(r))
    }

    fn try_parse(stream: &mut TokenStream<Tok>) -> (r: Result<ParseMeta<Self>, ParseError<Tok>>) {
        match <((A, B), C) as Parse<Tok>>::try_parse(stream) {
            Ok(m) => {
                let ((a, b), c) = m.value;
                Ok(ParseMeta { start: m.start, end: m.end, value: (a, b, c) })
            },
            Err(e) => Err(e),
        }
    }
}

/// The result of a sequence of four, seen as the pair of its first
/// three members and its last.
pub open spec fn nested4<Tok, A, B, C, D>(r: Result<ParseMeta<(A, B, C, D)>, ParseError<Tok>>) -> Result<
    ParseMeta<((A, B, C), D)>,
    ParseError<Tok>,
> {
    match r {
        Ok(m) => Ok(
            ParseMeta {
                start: m.start,
                end: m.end,
                value: ((m.value.0, m.value.1, m.value.2), m.value.3),
            },
        ),
        Err(e) => Err(e),
    }
}

impl<Tok: Clone, A: Parse<Tok>, B: Parse<Tok>, C: Parse<Tok>, D: Parse<Tok>> Parse<Tok> for (A, B, C, D) {
    open spec fn yields(
        tokens: Seq<Tok>,
        pos: int,
        r: Result<ParseMeta<Self>, ParseError<Tok>>,
    ) -> bool {
        <((A, B, C), D) as Parse<Tok>>::yields(tokens, pos, nested4(r))
    }

    fn try_parse(stream: &mut TokenStream<Tok>) -> (r: Result<ParseMeta<Self>, ParseError<Tok>>) {
        match <((A, B, C), D) as Parse<Tok>>::try_parse(stream) {
            Ok(m) => {
                let ((a, b, c), d) = m.value;
                Ok(ParseMeta { start: m.start, end: m.end, value: (a, b, c, d) })
            },
            Err(e) => Err(e),
        }
    }
}

/// The result of a sequence of five, seen as the pair of its first
/// four members and its last.
pub open spec fn nested5<Tok, A, B, C, D, E>(r: Result<ParseMeta<(A, B, C, D, E)>, ParseError<Tok>>) -> Result<
    ParseMeta<((A, B, C, D), E)>,
    ParseError<Tok>,
> {
    match r {
        Ok(m) => Ok(
            ParseMeta {
                start: m.start,
                end: m.end,
                value: ((m.value.0, m.value.1, m.value.2, m.value.3), m.value.4),
            },
        ),
        Err(e) => Err(e),
    }
}

impl<Tok: Clone, A: Parse<Tok>, B: Parse<Tok>, C: Parse<Tok>, D: Parse<Tok>, E: Parse<Tok>> Parse<Tok> for (A, B, C, D, E) {
    open spec fn yields(
        tokens: Seq<Tok>,
        pos: int,
        r: Result<ParseMeta<Self>, ParseError<Tok>>,
    ) -> bool {
        <((A, B, C, D), E) as Parse<Tok>>::yields(tokens, pos, nested5(r))
    }

    fn try_parse(stream: &mut TokenStream<Tok>) -> (r: Result<ParseMeta<Self>, ParseError<Tok>>) {
        match <((A, B, C, D), E) as Parse<Tok>>::try_parse(stream) {
            Ok(m) => {
                let ((a, b, c, d), e) = m.value;
                Ok(ParseMeta { start: m.start, end: m.end, value: (a, b, c, d, e) })
            },
            Err(e) => Err(e),
        }
    }
}

/// The result of a sequence of six, seen as the pair of its first
/// five members and its last.
pub open spec fn nested6<Tok, A, B, C, D, E, F>(r: Result<ParseMeta<(A, B, C, D, E, F)>, ParseError<Tok>>) -> Result<
    ParseMeta<((A, B, C, D, E), F)>,
    ParseError<Tok>,
> {
    match r {
        Ok(m) => Ok(
            ParseMeta {
                start: m.start,
                end: m.end,
                value: ((m.value.0, m.value.1, m.value.2, m.value.3, m.value.4), m.value.5),
            },
        ),
        Err(e) => Err(e),
    }
}

impl<Tok: Clone, A: Parse<Tok>, B: Parse<Tok>, C: Parse<Tok>, D: Parse<Tok>, E: Parse<Tok>, F: Parse<Tok>> Parse<Tok> for (A, B, C, D, E, F) {
    open spec fn yields(
        tokens: Seq<Tok>,
        pos: int,
        r: Result<ParseMeta<Self>, ParseError<Tok>>,
    ) -> bool {
        <((A, B, C, D, E), F) as Parse<Tok>>::yields(tokens, pos, nested6(r))
    }

    fn try_parse(stream: &mut TokenStream<Tok>) -> (r: Result<ParseMeta<Self>, ParseError<Tok>>) {
        match <((A, B, C, D, E), F) as Parse<Tok>>::try_parse(stream) {
            Ok(m) => {
                let ((a, b, c, d, e), f) = m.value;
                Ok(ParseMeta { start: m.start, end: m.end, value: (a, b, c, d, e, f) })
            },
            Err(e) => Err(e),
        }
    }
}

/// The result of a sequence of seven, seen as the pair of its first
/// six members and its last.
pub open spec fn nested7<Tok, A, B, C, D, E, F, G>(r: Result<ParseMeta<(A, B, C, D, E, F, G)>, ParseError<Tok>>) -> Result<
    ParseMeta<((A, B, C, D, E, F), G)>,
    ParseError<Tok>,
> {
    match r {
        Ok(m) => Ok(
            ParseMeta {
                start: m.start,
                end: m.end,
                value: ((m.value.0, m.value.1, m.value.2, m.value.3, m.value.4, m.value.5), m.value.6),
            },
        ),
        Err(e) => Err(e),
    }
}

impl<Tok: Clone, A: Parse<Tok>, B: Parse<Tok>, C: Parse<Tok>, D: Parse<Tok>, E: Parse<Tok>, F: Parse<Tok>, G: Parse<Tok>> Parse<Tok> for (A, B, C, D, E, F, G) {
    open spec fn yields(
        tokens: Seq<Tok>,
        pos: int,
        r: Result<ParseMeta<Self>, ParseError<Tok>>,
    ) -> bool {
        <((A, B, C, D, E, F), G) as Parse<Tok>>::yields(tokens, pos, nested7(r))
    }

    fn try_parse(stream: &mut TokenStream<Tok>) -> (r: Result<ParseMeta<Self>, ParseError<Tok>>) {
        match <((A, B, C, D, E, F), G) as Parse<Tok>>::try_parse(stream) {
            Ok(m) => {
                let ((a, b, c, d, e, f), g) = m.value;
                Ok(ParseMeta { start: m.start, end: m.end, value: (a, b, c, d, e, f, g) })
            },
            Err(e) => Err(e),
        }
    }
}

/// The result of a sequence of eight, seen as the pair of its first
/// seven members and its last.
pub open spec fn nested8<Tok, A, B, C, D, E, F, G, H>(r: Result<ParseMeta<(A, B, C, D, E, F, G, H)>, ParseError<Tok>>) -> Result<
    ParseMeta<((A, B, C, D, E, F, G), H)>,
    ParseError<Tok>,
> {
    match r {
        Ok(m) => Ok(
            ParseMeta {
                start: m.start,
                end: m.end,
                value: ((m.value.0, m.value.1, m.value.2, m.value.3, m.value.4, m.value.5, m.value.6), m.value.7),
            },
        ),
        Err(e) => Err(e),
    }
}

impl<Tok: Clone, A: Parse<Tok>, B: Parse<Tok>, C: Parse<Tok>, D: Parse<Tok>, E: Parse<Tok>, F: Parse<Tok>, G: Parse<Tok>, H: Parse<Tok>> Parse<Tok> for (A, B, C, D, E, F, G, H) {
    open spec fn yields(
        tokens: Seq<Tok>,
        pos: int,
        r: Result<ParseMeta<Self>, ParseError<Tok>>,
    ) -> bool {
        <((A, B, C, D, E, F, G), H) as Parse<Tok>>::yields(tokens, pos, nested8(r))
    }

    fn try_parse(stream: &mut TokenStream<Tok>) -> (r: Result<ParseMeta<Self>, ParseError<Tok>>) {
        match <((A, B, C, D, E, F, G), H) as Parse<Tok>>::try_parse(stream) {
            Ok(m) => {
                let ((a, b, c, d, e, f, g), h) = m.value;
                Ok(ParseMeta { start: m.start, end: m.end, value: (a, b, c, d, e, f, g, h) })
            },
            Err(e) => Err(e),
        }
    }
}

/// The result of a sequence of nine, seen as the pair of its first
/// eight members and its last.
pub open spec fn nested9<Tok, A, B, C, D, E, F, G, H, I>(r: Result<ParseMeta<(A, B, C, D, E, F, G, H, I)>, ParseError<Tok>>) -> Result<
    ParseMeta<((A, B, C, D, E, F, G, H), I)>,
    ParseError<Tok>,
> {
    match r {
        Ok(m) => Ok(
            ParseMeta {
                start: m.start,
                end: m.end,
                value: ((m.value.0, m.value.1, m.value.2, m.value.3, m.value.4, m.value.5, m.value.6, m.value.7), m.value.8),
            },
        ),
        Err(e) => Err(e),
    }
}

impl<Tok: Clone, A: Parse<Tok>, B: Parse<Tok>, C: Parse<Tok>, D: Parse<Tok>, E: Parse<Tok>, F: Parse<Tok>, G: Parse<Tok>, H: Parse<Tok>, I: Parse<Tok>> Parse<Tok> for (A, B, C, D, E, F, G, H, I) {
    open spec fn yields(
        tokens: Seq<Tok>,
        pos: int,
        r: Result<ParseMeta<Self>, ParseError<Tok>>,
    ) -> bool {
        <((A, B, C, D, E, F, G, H), I) as Parse<Tok>>::yields(tokens, pos, nested9(r))
    }

    fn try_parse(stream: &mut TokenStream<Tok>) -> (r: Result<ParseMeta<Self>, ParseError<Tok>>) {
        match <((A, B, C, D, E, F, G, H), I) as Parse<Tok>>::try_parse(stream) {
            Ok(m) => {
                let ((a, b, c, d, e, f, g, h), i) = m.value;
                Ok(ParseMeta { start: m.start, end: m.end, value: (a, b, c, d, e, f, g, h, i) })
            },
            Err(e) => Err(e),
        }
    }
}

/// The result of a sequence of ten, seen as the pair of its first
/// nine members and its last.
pub open spec fn nested10<Tok, A, B, C, D, E, F, G, H, I, J>(r: Result<ParseMeta<(A, B, C, D, E, F, G, H, I, J)>, ParseError<Tok>>) -> Result<
    ParseMeta<((A, B, C, D, E, F, G, H, I), J)>,
    ParseError<Tok>,
> {
    match r {
        Ok(m) => Ok(
            ParseMeta {
                start: m.start,
                end: m.end,
                value: ((m.value.0, m.value.1, m.value.2, m.value.3, m.value.4, m.value.5, m.value.6, m.value.7, m.value.8), m.value.9),
            },
        ),
        Err(e) => Err(e),
    }
}

impl<Tok: Clone, A: Parse<Tok>, B: Parse<Tok>, C: Parse<Tok>, D: Parse<Tok>, E: Parse<Tok>, F: Parse<Tok>, G: Parse<Tok>, H: Parse<Tok>, I: Parse<Tok>, J: Parse<Tok>> Parse<Tok> for (A, B, C, D, E, F, G, H, I, J) {
    open spec fn yields(
        tokens: Seq<Tok>,
        pos: int,
        r: Result<ParseMeta<Self>, ParseError<Tok>>,
    ) -> bool {
        <((A, B, C, D, E, F, G, H, I), J) as Parse<Tok>>::yields(tokens, pos, nested10(r))
    }

    fn try_parse(stream: &mut TokenStream<Tok>) -> (r: Result<ParseMeta<Self>, ParseError<Tok>>) {
        match <((A, B, C, D, E, F, G, H, I), J) as Parse<Tok>>::try_parse(stream) {
            Ok(m) => {
                let ((a, b, c, d, e, f, g, h, i), j) = m.value;
                Ok(ParseMeta { start: m.start, end: m.end, value: (a, b, c, d, e, f, g, h, i, j) })
            },
            Err(e) => Err(e),
        }
    }
}

/// The result of a sequence of eleven, seen as the pair of its first
/// ten members and its last.
pub open spec fn nested11<Tok, A, B, C, D, E, F, G, H, I, J, K>(r: Result<ParseMeta<(A, B, C, D, E, F, G, H, I, J, K)>, ParseError<Tok>>) -> Result<
    ParseMeta<((A, B, C, D, E, F, G, H, I, J), K)>,
    ParseError<Tok>,
> {
    match r {
        Ok(m) => Ok(
            ParseMeta {
                start: m.start,
                end: m.end,
                value: ((m.value.0, m.value.1, m.value.2, m.value.3, m.value.4, m.value.5, m.value.6, m.value.7, m.value.8, m.value.9), m.value.10),
            },
        ),
        Err(e) => Err(e),
    }
}

impl<Tok: Clone, A: Parse<Tok>, B: Parse<Tok>, C: Parse<Tok>, D: Parse<Tok>, E: Parse<Tok>, F: Parse<Tok>, G: Parse<Tok>, H: Parse<Tok>, I: Parse<Tok>, J: Parse<Tok>, K: Parse<Tok>> Parse<Tok> for (A, B, C, D, E, F, G, H, I, J, K) {
    open spec fn yields(
        tokens: Seq<Tok>,
        pos: int,
        r: Result<ParseMeta<Self>, ParseError<Tok>>,
    ) -> bool {
        <((A, B, C, D, E, F, G, H, I, J), K) as Parse<Tok>>::yields(tokens, pos, nested11(r))
    }

    fn try_parse(stream: &mut TokenStream<Tok>) -> (r: Result<ParseMeta<Self>, ParseError<Tok>>) {
        match <((A, B, C, D, E, F, G, H, I, J), K) as Parse<Tok>>::try_parse(stream) {
            Ok(m) => {
                let ((a, b, c, d, e, f, g, h, i, j), k) = m.value;
                Ok(ParseMeta { start: m.start, end: m.end, value: (a, b, c, d, e, f, g, h, i, j, k) })
            },
            Err(e) => Err(e),
        }
    }
}

/// The result of a sequence of twelve, seen as the pair of its first
/// eleven members and its last.
pub open spec fn nested12<Tok, A, B, C, D, E, F, G, H, I, J, K, L>(r: Result<ParseMeta<(A, B, C, D, E, F, G, H, I, J, K, L)>, ParseError<Tok>>) -> Result<
    ParseMeta<((A, B, C, D, E, F, G, H, I, J, K), L)>,
    ParseError<Tok>,
> {
    match r {
        Ok(m) => Ok(
            ParseMeta {
                start: m.start,
                end: m.end,
                value: ((m.value.0, m.value.1, m.value.2, m.value.3, m.value.4, m.value.5, m.value.6, m.value.7, m.value.8, m.value.9, m.value.10), m.value.11),
            },
        ),
        Err(e) => Err(e),
    }
}

impl<Tok: Clone, A: Parse<Tok>, B: Parse<Tok>, C: Parse<Tok>, D: Parse<Tok>, E: Parse<Tok>, F: Parse<Tok>, G: Parse<Tok>, H: Parse<Tok>, I: Parse<Tok>, J: Parse<Tok>, K: Parse<Tok>, L: Parse<Tok>> Parse<Tok> for (A, B, C, D, E, F, G, H, I, J, K, L) {
    open spec fn yields(
        tokens: Seq<Tok>,
        pos: int,
        r: Result<ParseMeta<Self>, ParseError<Tok>>,
    ) -> bool {
        <((A, B, C, D, E, F, G, H, I, J, K), L) as Parse<Tok>>::yields(tokens, pos, nested12(r))
    }

    fn try_parse(stream: &mut TokenStream<Tok>) -> (r: Result<ParseMeta<Self>, ParseError<Tok>>) {
        match <((A, B, C, D, E, F, G, H, I, J, K), L) as Parse<Tok>>::try_parse(stream) {
            Ok(m) => {
                let ((a, b, c, d, e, f, g, h, i, j, k), l) = m.value;
                Ok(ParseMeta { start: m.start, end: m.end, value: (a, b, c, d, e, f, g, h, i, j, k, l) })
            },
            Err(e) => Err(e),
        }
    }
}

/// In a pair that was read, the first member starts where the pair starts,
/// the second starts where the first ended, the pair ends where the second
/// ended, and no span ends before it starts.
pub proof fn lemma_pair_contiguous<Tok: Clone, A: Parse<Tok>, B: Parse<Tok>>(
    tokens: Seq<Tok>,
    pos: int,
    m: ParseMeta<(A, B)>,
)
    requires
        <(A, B) as Parse<Tok>>::yields(tokens, pos, Ok(m)),
    ensures
        exists|a: ParseMeta<A>, b: ParseMeta<B>|
            {
                &&& #[trigger] in_a_row(tokens, pos, a, b)
                &&& m == joined(a, b)
                &&& m.start == a.start == pos
                &&& a.end == b.start
                &&& b.end == m.end
                &&& a.start <= a.end
                &&& b.start <= b.end
                &&& m.start <= m.end
            },
{
    let (a, b) = choose|a: ParseMeta<A>, b: ParseMeta<B>| #[trigger]
        in_a_row(tokens, pos, a, b) && m == joined(a, b);
    assert(in_a_row(tokens, pos, a, b));
}

/// In a sequence of three that was read, each member starts where the one
/// before it ended, the first starts where the sequence starts and the last
/// ends where the sequence ends. Longer sequences are read in the same way:
/// a sequence is the pair of all its members but the last and that last.
pub proof fn lemma_triple_contiguous<Tok: Clone, A: Parse<Tok>, B: Parse<Tok>, C: Parse<Tok>>(
    tokens: Seq<Tok>,
    pos: int,
    m: ParseMeta<(A, B, C)>,
)
    requires
        <(A, B, C) as Parse<Tok>>::yields(tokens, pos, Ok(m)),
    ensures
        exists|a: ParseMeta<A>, b: ParseMeta<B>, c: ParseMeta<C>|
            {
                &&& #[trigger] in_a_row(tokens, pos, a, b)
                &&& #[trigger] reads::<Tok, C>(tokens, b.end as int, Ok(c))
                &&& m.value == (a.value, b.value, c.value)
                &&& m.start == a.start == pos
                &&& a.end == b.start
                &&& b.end == c.start
                &&& c.end == m.end
                &&& a.start <= a.end
                &&& b.start <= b.end
                &&& c.start <= c.end
            },
{
    let nested = nested3::<Tok, A, B, C>(Ok(m))->Ok_0;
    let (ab, c) = choose|ab: ParseMeta<(A, B)>, c: ParseMeta<C>| #[trigger]
        in_a_row(tokens, pos, ab, c) && nested == joined(ab, c);
    let (a, b) = choose|a: ParseMeta<A>, b: ParseMeta<B>| #[trigger]
        in_a_row(tokens, pos, a, b) && ab == joined(a, b);
    assert(in_a_row(tokens, pos, a, b));
    assert(reads::<Tok, C>(tokens, b.end as int, Ok(c)));
}

} // verus!
