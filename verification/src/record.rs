//! Record rules: a pattern is read, and a value is built from what it bound.

use crate::grammar::{committed, fails, nothing_matched, reads, Parse, ParseMeta, TokenStream};
use crate::ParseError;
use vstd::prelude::*;

verus! {

/// What a record rule with the pattern `P` and the binding `bind` gives at
/// `pos`: the value that `bind` made of a success of `P`, over the span of
/// that success; or "nothing matched here", where `P` failed or `bind`
/// turned down what `P` read.
pub open spec fn record_yields<Tok: Clone, P: Parse<Tok>, R, F: Fn(P) -> Option<R>>(
    bind: F,
    tokens: Seq<Tok>,
    pos: int,
    r: Result<ParseMeta<R>, ParseError<Tok>>,
) -> bool {
    match r {
        Ok(m) => exists|p: ParseMeta<P>|
            {
                &&& #[trigger] reads::<Tok, P>(tokens, pos, Ok(p))
                &&& call_ensures(bind, (p.value,), Some(m.value))
                &&& m.start == p.start
                &&& m.end == p.end
            },
        Err(e) => {
            &&& nothing_matched(tokens, pos, e)
            &&& {
                ||| fails::<Tok, P>(tokens, pos)
                ||| exists|p: ParseMeta<P>| #[trigger]
                    reads::<Tok, P>(tokens, pos, Ok(p)) && call_ensures(
                        bind,
                        (p.value,),
                        None::<R>,
                    )
            }
        },
    }
}

/// Reads the pattern `P` on a duplicate of the cursor and hands its value to
/// `bind`. Where `bind` makes a record of it, the cursor moves to the end of
/// the pattern's span and the record comes back with that span. Where the
/// pattern fails or `bind` gives `None`, the cursor stays and the error names
/// the token at the cursor; the pattern's own error is dropped.
pub fn parse_record<Tok: Clone, P: Parse<Tok>, R, F: Fn(P) -> Option<R>>(
    stream: &mut TokenStream<Tok>,
    bind: F,
) -> (r: Result<ParseMeta<R>, ParseError<Tok>>)
    requires
        forall|p: ParseMeta<P>| #[trigger]
            reads::<Tok, P>(old(stream).tokens@, old(stream).current as int, Ok(p))
                ==> call_requires(bind, (p.value,)),
    ensures
        committed(*old(stream), *final(stream), r),
        record_yields::<Tok, P, R, F>(bind, old(stream).tokens@, old(stream).current as int, r),
{
    match stream.trial::<P>() {
        Ok(p) => {
            let start = p.start;
            let end = p.end;
            match bind(p.value) {
                Some(value) => {
                    stream.advance_by(end - start);
                    Ok(ParseMeta { start, end, value })
                },
                None => Err(stream.unexpected()),
            }
        },
        Err(_) => Err(stream.unexpected()),
    }
}

} // verus!
