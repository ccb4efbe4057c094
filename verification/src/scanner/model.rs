//! What scanning means: the declarations of token kinds as values, and the
//! tokens of a source text as a function of them.

use crate::convert::field_value;
use crate::pattern::{regex_captures, FoundView};
use crate::token::{FieldType, TokenView, ValueView};
use vstd::prelude::*;

verus! {

/// The declaration of a kind of token.
pub enum KindView {
    /// A fixed text that must stand in the source as it is.
    Literal { text: Seq<char> },
    /// A regular expression, and the groups of it that become fields.
    Captured { pattern: Seq<char>, names: Seq<Seq<char>>, types: Seq<FieldType> },
}

/// The length of the longest literal among `kinds`; 0 where there is none.
pub open spec fn longest_literal(kinds: Seq<KindView>) -> nat
    decreases kinds.len(),
{
    if kinds.len() == 0 {
        0
    } else {
        let before = longest_literal(kinds.drop_last());
        match kinds.last() {
            KindView::Literal { text } => if text.len() > before {
                text.len()
            } else {
                before
            },
            KindView::Captured { .. } => before,
        }
    }
}

/// Whether `kind` is a literal of `l` characters that stands at `idx`.
pub open spec fn literal_matches(kind: KindView, source: Seq<char>, idx: int, l: int) -> bool {
    &&& kind matches KindView::Literal { text }
    &&& text.len() == l
    &&& idx + l <= source.len()
    &&& source.subrange(idx, idx + l) == text
}

/// The first kind from `from` on that is a literal of `l` characters
/// standing at `idx`.
pub open spec fn first_literal(
    kinds: Seq<KindView>,
    source: Seq<char>,
    idx: int,
    l: int,
    from: int,
) -> Option<int>
    decreases kinds.len() - from,
{
    if from < 0 || from >= kinds.len() {
        None
    } else if literal_matches(kinds[from], source, idx, l) {
        Some(from)
    } else {
        first_literal(kinds, source, idx, l, from + 1)
    }
}

/// How far the lookahead grows at `idx`: to the length of the longest
/// literal or to the end of the source, whichever comes first, and to one
/// character at least.
pub open spec fn lookahead_limit(kinds: Seq<KindView>, source: Seq<char>, idx: int) -> int {
    let longest = longest_literal(kinds);
    let left = source.len() - idx;
    if longest == 0 {
        1
    } else if longest < left {
        longest as int
    } else {
        left
    }
}

/// The literal that the growing lookahead finds at `idx` when it starts from
/// `l` characters: the kind and the length.
pub open spec fn growing_literal(kinds: Seq<KindView>, source: Seq<char>, idx: int, l: int) -> Option<
    (int, int),
>
    decreases lookahead_limit(kinds, source, idx) - l + 1,
{
    if l > lookahead_limit(kinds, source, idx) {
        None
    } else {
        match first_literal(kinds, source, idx, l, 0) {
            Some(k) => Some((k, l)),
            None => growing_literal(kinds, source, idx, l + 1),
        }
    }
}

/// The values of all fields, where there is one text for each type and each
/// has a value.
pub open spec fn field_values(types: Seq<FieldType>, groups: Seq<Option<Seq<char>>>) -> Option<
    Seq<ValueView>,
> {
    if types.len() == groups.len() && (forall|i: int|
        0 <= i < types.len() ==> (#[trigger] field_value(types[i], groups[i])) is Some) {
        Some(Seq::new(types.len(), |i: int| field_value(types[i], groups[i])->0))
    } else {
        None
    }
}

/// What a search result is worth as a token at the start of `rest`: the
/// number of characters it takes and the values of its fields. A result
/// counts where the match starts at the very start of `rest`, is not empty,
/// covers a prefix of `rest`, and every field has a value.
pub open spec fn accepted(rest: Seq<char>, types: Seq<FieldType>, found: Option<FoundView>) -> Option<
    (int, Seq<ValueView>),
> {
    match found {
        Some(f) => if f.start == 0 && f.text.len() > 0 && f.text.is_prefix_of(rest) {
            match field_values(types, f.groups) {
                Some(values) => Some((f.text.len() as int, values)),
                None => None,
            }
        } else {
            None
        },
        None => None,
    }
}

/// What `kind` reads at the start of `rest` as a captured kind.
pub open spec fn captured_at(kind: KindView, rest: Seq<char>) -> Option<(int, Seq<ValueView>)> {
    match kind {
        KindView::Captured { pattern, names, types } => accepted(
            rest,
            types,
            regex_captures(pattern, names, rest),
        ),
        KindView::Literal { .. } => None,
    }
}

/// The first kind from `from` on that reads something at the start of `rest`
/// as a captured kind: the kind, the length and the fields' values.
pub open spec fn first_captured(kinds: Seq<KindView>, rest: Seq<char>, from: int) -> Option<
    (int, int, Seq<ValueView>),
>
    decreases kinds.len() - from,
{
    if from < 0 || from >= kinds.len() {
        None
    } else {
        match captured_at(kinds[from], rest) {
            Some((len, values)) => Some((from, len, values)),
            None => first_captured(kinds, rest, from + 1),
        }
    }
}

/// The token at `idx` and the number of characters it takes; or, where no
/// kind matches, the text that was examined there.
pub open spec fn token_at(kinds: Seq<KindView>, source: Seq<char>, idx: int) -> Result<
    (TokenView, int),
    Seq<char>,
> {
    match growing_literal(kinds, source, idx, 1) {
        Some((k, l)) => Ok((TokenView { kind: k as nat, fields: Seq::empty() }, l)),
        None => match first_captured(kinds, source.subrange(idx, source.len() as int), 0) {
            Some((k, len, values)) => Ok((TokenView { kind: k as nat, fields: values }, len)),
            None => Err(source.subrange(idx, idx + lookahead_limit(kinds, source, idx))),
        },
    }
}

/// The tokens of `source` from `idx` on; or the text examined at the first
/// position where no kind matches.
pub open spec fn scanned(kinds: Seq<KindView>, source: Seq<char>, idx: int) -> Result<
    Seq<TokenView>,
    Seq<char>,
>
    decreases source.len() - idx,
{
    if idx < 0 || idx >= source.len() {
        Ok(Seq::empty())
    } else {
        proof {
            lemma_token_advances(kinds, source, idx);
        }
        match token_at(kinds, source, idx) {
            Ok((token, len)) => match scanned(kinds, source, idx + len) {
                Ok(rest) => Ok(seq![token] + rest),
                Err(sample) => Err(sample),
            },
            Err(sample) => Err(sample),
        }
    }
}

/// A literal found by a lookahead that grows from `l` has `l` characters or
/// more, and no more than the limit.
pub proof fn lemma_growing_literal_length(kinds: Seq<KindView>, source: Seq<char>, idx: int, l: int)
    ensures
        growing_literal(kinds, source, idx, l) matches Some((k, len)) ==> l <= len
            <= lookahead_limit(kinds, source, idx) && first_literal(kinds, source, idx, len, 0)
            == Some(k),
    decreases lookahead_limit(kinds, source, idx) - l + 1,
{
    if l <= lookahead_limit(kinds, source, idx) && first_literal(kinds, source, idx, l, 0) is None {
        lemma_growing_literal_length(kinds, source, idx, l + 1);
    }
}

/// Every token takes at least one character, and none that the source does
/// not have.
pub proof fn lemma_token_advances(kinds: Seq<KindView>, source: Seq<char>, idx: int)
    requires
        0 <= idx < source.len(),
    ensures
        token_at(kinds, source, idx) matches Ok((_, len)) ==> 0 < len && idx + len
            <= source.len(),
{
    lemma_growing_literal_length(kinds, source, idx, 1);
    lemma_first_captured(kinds, source.subrange(idx, source.len() as int), 0);
}

/// What the first captured kind from `from` on gives is what that kind reads,
/// it is not empty, and no kind between `from` and it reads anything.
pub proof fn lemma_first_captured(kinds: Seq<KindView>, rest: Seq<char>, from: int)
    ensures
        first_captured(kinds, rest, from) matches Some((k, len, values)) ==> {
            &&& from <= k < kinds.len()
            &&& captured_at(kinds[k], rest) == Some((len, values))
            &&& 0 < len <= rest.len()
            &&& forall|j: int| from <= j < k ==> captured_at(#[trigger] kinds[j], rest) is None
        },
        first_captured(kinds, rest, from) is None ==> forall|j: int|
            0 <= from <= j < kinds.len() ==> captured_at(#[trigger] kinds[j], rest) is None,
    decreases kinds.len() - from,
{
    if 0 <= from < kinds.len() && captured_at(kinds[from], rest) is None {
        lemma_first_captured(kinds, rest, from + 1);
    }
}

} // verus!
