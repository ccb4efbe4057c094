//! What follows from the definition of scanning: which kind wins at a
//! position, and what the tokens of a text are like.

use crate::scanner::model::{
    captured_at, first_literal, growing_literal, lemma_first_captured, lemma_token_advances,
    literal_matches, longest_literal, lookahead_limit, scanned, token_at, KindView,
};
use crate::token::{TokenView, ValueView};
use vstd::prelude::*;

verus! {

/// Whether some literal of `l` characters stands at `idx`.
pub open spec fn some_literal_matches(kinds: Seq<KindView>, source: Seq<char>, idx: int, l: int) -> bool {
    exists|j: int| 0 <= j < kinds.len() && literal_matches(#[trigger] kinds[j], source, idx, l)
}

/// Whether some literal, of whatever length, stands at `idx`.
pub open spec fn some_literal_stands(kinds: Seq<KindView>, source: Seq<char>, idx: int) -> bool {
    exists|l: int| 1 <= l && #[trigger] some_literal_matches(kinds, source, idx, l)
}

/// No literal is longer than the longest.
pub proof fn lemma_longest_literal(kinds: Seq<KindView>, k: int)
    requires
        0 <= k < kinds.len(),
        kinds[k] is Literal,
    ensures
        kinds[k]->text.len() <= longest_literal(kinds),
    decreases kinds.len(),
{
    if k < kinds.len() - 1 {
        lemma_longest_literal(kinds.drop_last(), k);
    }
}

/// A literal that stands at `idx` is not empty only if its length is within
/// the limit of the lookahead: the lookahead grows far enough to meet every
/// literal that can stand there.
pub proof fn lemma_limit_covers_literals(
    kinds: Seq<KindView>,
    source: Seq<char>,
    idx: int,
    l: int,
    k: int,
)
    requires
        0 <= k < kinds.len(),
        1 <= l,
        literal_matches(kinds[k], source, idx, l),
    ensures
        l <= lookahead_limit(kinds, source, idx),
{
    lemma_longest_literal(kinds, k);
}

/// The first literal from `from` on is a literal that stands at `idx`, and
/// none declared between `from` and it does; where there is none, no literal
/// from `from` on stands there.
pub proof fn lemma_first_literal(kinds: Seq<KindView>, source: Seq<char>, idx: int, l: int, from: int)
    requires
        0 <= from,
    ensures
        match first_literal(kinds, source, idx, l, from) {
            Some(k) => {
                &&& from <= k < kinds.len()
                &&& literal_matches(kinds[k], source, idx, l)
                &&& forall|j: int|
                    from <= j < k ==> !literal_matches(#[trigger] kinds[j], source, idx, l)
            },
            None => forall|j: int|
                from <= j < kinds.len() ==> !literal_matches(#[trigger] kinds[j], source, idx, l),
        },
    decreases kinds.len() - from,
{
    if from < kinds.len() && !literal_matches(kinds[from], source, idx, l) {
        lemma_first_literal(kinds, source, idx, l, from + 1);
    }
}

/// The literal that a lookahead growing from `l` finds is the first declared
/// among those of its length, and no literal of a length from `l` up to its
/// own stands at `idx`; where it finds none, no literal of a length from `l`
/// up to the limit stands there.
pub proof fn lemma_growing_literal(kinds: Seq<KindView>, source: Seq<char>, idx: int, l: int)
    requires
        1 <= l,
    ensures
        match growing_literal(kinds, source, idx, l) {
            Some((k, len)) => {
                &&& l <= len <= lookahead_limit(kinds, source, idx)
                &&& 0 <= k < kinds.len()
                &&& literal_matches(kinds[k], source, idx, len)
                &&& forall|j: int|
                    0 <= j < k ==> !literal_matches(#[trigger] kinds[j], source, idx, len)
                &&& forall|s: int|
                    l <= s < len ==> !#[trigger] some_literal_matches(kinds, source, idx, s)
            },
            None => forall|s: int|
                l <= s <= lookahead_limit(kinds, source, idx) ==> !#[trigger] some_literal_matches(
                    kinds,
                    source,
                    idx,
                    s,
                ),
        },
    decreases lookahead_limit(kinds, source, idx) - l + 1,
{
    if l <= lookahead_limit(kinds, source, idx) {
        lemma_first_literal(kinds, source, idx, l, 0);
        if first_literal(kinds, source, idx, l, 0) is None {
            lemma_growing_literal(kinds, source, idx, l + 1);
            assert(!some_literal_matches(kinds, source, idx, l));
        }
    }
}

/// Literals compete by length: the literal that is found at `idx` is a
/// shortest one that stands there, and among those of its length the one
/// declared first. Where none is found, no literal stands there at all.
pub proof fn lemma_shortest_literal_wins(kinds: Seq<KindView>, source: Seq<char>, idx: int)
    ensures
        match growing_literal(kinds, source, idx, 1) {
            Some((k, len)) => {
                &&& 0 <= k < kinds.len()
                &&& 1 <= len
                &&& literal_matches(kinds[k], source, idx, len)
                &&& forall|j: int|
                    0 <= j < k ==> !literal_matches(#[trigger] kinds[j], source, idx, len)
                &&& forall|s: int|
                    1 <= s < len ==> !#[trigger] some_literal_matches(kinds, source, idx, s)
            },
            None => !some_literal_stands(kinds, source, idx),
        },
{
    lemma_growing_literal(kinds, source, idx, 1);
    if growing_literal(kinds, source, idx, 1) is None {
        assert forall|l: int| 1 <= l implies !#[trigger] some_literal_matches(
            kinds,
            source,
            idx,
            l,
        ) by {
            if some_literal_matches(kinds, source, idx, l) {
                let j = choose|j: int|
                    0 <= j < kinds.len() && literal_matches(#[trigger] kinds[j], source, idx, l);
                lemma_limit_covers_literals(kinds, source, idx, l, j);
            }
        }
    }
}

/// What the token at `idx` is. It belongs to a declared kind. A token of a
/// literal kind has no fields and is the literal that wins the competition
/// by length. A token of a captured kind is there only because no literal
/// stands at `idx`; it is what its kind reads there, and no captured kind
/// declared before it reads anything. An error means that no literal stands
/// at `idx` and no captured kind reads anything; its sample is the text
/// from `idx` up to the limit of the lookahead.
pub proof fn lemma_token_at(kinds: Seq<KindView>, source: Seq<char>, idx: int)
    requires
        0 <= idx < source.len(),
    ensures
        match token_at(kinds, source, idx) {
            Ok((token, len)) => {
                &&& token.kind < kinds.len()
                &&& 0 < len
                &&& idx + len <= source.len()
                &&& match kinds[token.kind as int] {
                    KindView::Literal { text } => {
                        &&& token.fields == Seq::<ValueView>::empty()
                        &&& growing_literal(kinds, source, idx, 1) == Some(
                            (token.kind as int, len),
                        )
                    },
                    KindView::Captured { .. } => {
                        &&& !some_literal_stands(kinds, source, idx)
                        &&& captured_at(
                            kinds[token.kind as int],
                            source.subrange(idx, source.len() as int),
                        ) == Some((len, token.fields))
                        &&& forall|j: int|
                            0 <= j < token.kind ==> captured_at(
                                #[trigger] kinds[j],
                                source.subrange(idx, source.len() as int),
                            ) is None
                    },
                }
            },
            Err(sample) => {
                &&& !some_literal_stands(kinds, source, idx)
                &&& forall|j: int|
                    0 <= j < kinds.len() ==> captured_at(
                        #[trigger] kinds[j],
                        source.subrange(idx, source.len() as int),
                    ) is None
                &&& sample == source.subrange(idx, idx + lookahead_limit(kinds, source, idx))
                &&& 1 <= lookahead_limit(kinds, source, idx) <= source.len() - idx
            },
        },
{
    lemma_shortest_literal_wins(kinds, source, idx);
    lemma_token_advances(kinds, source, idx);
    lemma_first_captured(kinds, source.subrange(idx, source.len() as int), 0);
}

/// Every token that scanning gives belongs to a declared kind, so none is
/// the placeholder.
pub proof fn lemma_scanned_kinds(kinds: Seq<KindView>, source: Seq<char>, idx: int)
    ensures
        scanned(kinds, source, idx) matches Ok(tokens) ==> forall|i: int|
            0 <= i < tokens.len() ==> (#[trigger] tokens[i]).kind < kinds.len(),
    decreases source.len() - idx,
{
    if 0 <= idx < source.len() {
        lemma_token_at(kinds, source, idx);
        match token_at(kinds, source, idx) {
            Ok((token, len)) => {
                lemma_scanned_kinds(kinds, source, idx + len);
            },
            Err(_) => {},
        }
    }
}

/// Scanning a text from its end gives no tokens.
pub proof fn lemma_scanned_at_end(kinds: Seq<KindView>, source: Seq<char>)
    ensures
        scanned(kinds, source, source.len() as int) == Ok::<Seq<TokenView>, Seq<char>>(
            Seq::empty(),
        ),
{
}

} // verus!
