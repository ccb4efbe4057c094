//! The scanner: from declarations of token kinds and a source text to the
//! sequence of tokens.
//!
//! At each position the literal kinds are tried first, with a lookahead that
//! grows from one character to the length of the longest literal: a literal
//! can match only when the lookahead has its length, so the shortest literal
//! that matches wins, and among literals of one length the one declared
//! first. Only when no literal matched are the captured kinds tried, in
//! declaration order, each with its regular expression at the position.
//!
//! A captured kind matches where its expression matches from the position
//! on, over at least one character, and the text of each of its fields
//! converts to the field's type. So every token takes at least one
//! character and scanning ends; and a text that does not convert is a text
//! that the kind does not match, not a fault that stops the program.
//!
//! Positions and lengths count characters.

pub mod laws;
pub mod model;

use crate::convert::{convert, field_value};
use crate::pattern::{
    found_view, names_view, regex_compiles, search, text_view, Found, Matcher, PatternError,
};
use crate::scanner::laws::lemma_scanned_kinds;
use crate::scanner::model::{
    accepted, captured_at, field_values, first_captured, first_literal, growing_literal,
    lemma_token_advances, literal_matches, longest_literal, scanned, token_at, KindView,
};
use crate::text::{after, chars_of, starts_with};
use crate::token::{tokens_view, values_view, FieldType, Token, TokenView, Value, ValueView};
use crate::{ParseError, Source};
use vstd::prelude::*;
use vstd::slice::slice_subrange;
use vstd::string::*;

verus! {

/// A field that a captured kind binds: the name of a group of the kind's
/// regular expression, and the type that the group's text is converted to.
#[derive(Debug)]
pub struct Field {
    pub name: String,
    pub ty: FieldType,
}

/// A declared kind. A literal is held twice, as it was written and as its
/// characters; a captured kind holds its fields' names and types apart.
enum TokenKind {
    Literal { source: String, text: Vec<char> },
    Captured { matcher: Matcher, names: Vec<String>, types: Vec<FieldType> },
}

impl View for TokenKind {
    type V = KindView;

    closed spec fn view(&self) -> KindView {
        match self {
            TokenKind::Literal { text, .. } => KindView::Literal { text: text@ },
            TokenKind::Captured { matcher, names, types } => KindView::Captured {
                pattern: matcher@,
                names: names_view(names@),
                types: types@,
            },
        }
    }
}

/// The names of `fields`, in order.
pub open spec fn field_names(fields: Seq<Field>) -> Seq<Seq<char>> {
    Seq::new(fields.len(), |i: int| fields[i].name@)
}

/// The types of `fields`, in order.
pub open spec fn field_types(fields: Seq<Field>) -> Seq<FieldType> {
    Seq::new(fields.len(), |i: int| fields[i].ty)
}

/// The view of what `accept` gives.
pub open spec fn accept_view(r: Option<(usize, Vec<Value>)>) -> Option<(int, Seq<ValueView>)> {
    match r {
        Some((len, values)) => Some((len as int, values_view(values@))),
        None => None,
    }
}

/// The tokens `done`, followed by what `more` holds.
pub open spec fn followed_by(done: Seq<TokenView>, more: Result<Seq<TokenView>, Seq<char>>) -> Result<
    Seq<TokenView>,
    Seq<char>,
> {
    match more {
        Ok(rest) => Ok(done + rest),
        Err(sample) => Err(sample),
    }
}

/// Decides what a search result is worth as a token at the start of `rest`:
/// the number of characters that the token takes and the values of its
/// fields, or `None` where the result does not count.
#[verifier::loop_isolation(false)]
pub fn accept(rest: &[char], types: &Vec<FieldType>, found: &Option<Found>) -> (r: Option<
    (usize, Vec<Value>),
>)
    ensures
        accept_view(r) == accepted(rest@, types@, found_view(*found)),
{
    match found {
        None => None,
        Some(f) => {
            if f.start != 0 {
                return None;
            }
            let text = chars_of(f.text.as_str());
            if text.len() == 0 || !starts_with(rest, &text) {
                return None;
            }
            if f.groups.len() != types.len() {
                return None;
            }
            let mut values: Vec<Value> = Vec::new();
            let mut i: usize = 0;
            while i < types.len()
                invariant
                    i <= types@.len(),
                    f.groups@.len() == types@.len(),
                    f@.groups.len() == types@.len(),
                    values@.len() == i,
                    forall|j: int|
                        0 <= j < i ==> (#[trigger] field_value(types@[j], f@.groups[j])) == Some(
                            values@[j]@,
                        ),
                decreases types@.len() - i,
            {
                assert(f@.groups[i as int] == text_view(f.groups@[i as int]));
                match convert(types[i], &f.groups[i]) {
                    Some(v) => {
                        values.push(v);
                    },
                    None => {
                        assert(field_value(types@[i as int], f@.groups[i as int]) is None);
                        return None;
                    },
                }
                i = i + 1;
            }
            assert(values_view(values@) =~= field_values(types@, f@.groups)->0);
            Some((text.len(), values))
        },
    }
}

/// The declared kinds of token, in declaration order. A token's kind is the
/// index of its declaration.
pub struct Scanner {
    kinds: Vec<TokenKind>,
    longest: usize,
}

spec fn kinds_view(kinds: Seq<TokenKind>) -> Seq<KindView> {
    Seq::new(kinds.len(), |i: int| kinds[i]@)
}

impl View for Scanner {
    type V = Seq<KindView>;

    closed spec fn view(&self) -> Seq<KindView> {
        kinds_view(self.kinds@)
    }
}

impl Scanner {
    #[verifier::type_invariant]
    spec fn well_formed(self) -> bool {
        &&& self.longest == longest_literal(self@)
        &&& forall|k: int|
            0 <= k < self.kinds@.len() ==> (#[trigger] self.kinds@[k] matches TokenKind::Literal {
                source,
                text,
            } ==> source@ == text@)
    }

    /// A scanner without kinds.
    pub fn new() -> (r: Scanner)
        ensures
            r@ == Seq::<KindView>::empty(),
    {
        let kinds: Vec<TokenKind> = Vec::new();
        assert(kinds_view(kinds@) =~= Seq::<KindView>::empty());
        Scanner { kinds, longest: 0 }
    }

    /// The number of kinds declared so far, which is the index that the next
    /// declaration gets.
    pub fn len(&self) -> (r: usize)
        ensures
            r == self@.len(),
    {
        self.kinds.len()
    }

    /// Declares a literal kind: `text` must stand in the source as it is.
    pub fn literal(self, text: &str) -> (r: Scanner)
        ensures
            r@ == self@.push(KindView::Literal { text: text@ }),
    {
        proof {
            use_type_invariant(&self);
        }
        let ghost before = self@;
        let Scanner { mut kinds, longest } = self;
        let source = String::from_str(text);
        let text = chars_of(text);
        let longest = if text.len() > longest {
            text.len()
        } else {
            longest
        };
        let ghost declared = KindView::Literal { text: text@ };
        kinds.push(TokenKind::Literal { source, text });
        proof {
            assert(kinds_view(kinds@) =~= before.push(declared));
            assert(kinds_view(kinds@).drop_last() =~= before);
        }
        Scanner { kinds, longest }
    }

    /// Declares a captured kind: the regular expression `pattern`, whose
    /// groups named in `fields` become the token's fields, in that order.
    /// Fails where `pattern` does not compile.
    pub fn captured(self, pattern: &str, fields: Vec<Field>) -> (r: Result<Scanner, PatternError>)
        ensures
            r is Ok == regex_compiles(pattern@),
            r matches Ok(s) ==> s@ == self@.push(
                KindView::Captured {
                    pattern: pattern@,
                    names: field_names(fields@),
                    types: field_types(fields@),
                },
            ),
    {
        proof {
            use_type_invariant(&self);
        }
        let ghost before = self@;
        let matcher = match Matcher::new(pattern) {
            Ok(m) => m,
            Err(e) => {
                return Err(e);
            },
        };
        let mut names: Vec<String> = Vec::new();
        let mut types: Vec<FieldType> = Vec::new();
        let mut i: usize = 0;
        while i < fields.len()
            invariant
                i <= fields@.len(),
                names@.len() == i,
                types@.len() == i,
                forall|j: int| 0 <= j < i ==> names@[j]@ == fields@[j].name@,
                forall|j: int| 0 <= j < i ==> types@[j] == fields@[j].ty,
            decreases fields@.len() - i,
        {
            names.push(fields[i].name.clone());
            types.push(fields[i].ty);
            i = i + 1;
        }
        let Scanner { mut kinds, longest } = self;
        let kind = TokenKind::Captured { matcher, names, types };
        proof {
            assert(names_view(names@) =~= field_names(fields@));
            assert(types@ =~= field_types(fields@));
        }
        let ghost declared = kind@;
        kinds.push(kind);
        proof {
            assert(kinds_view(kinds@) =~= before.push(declared));
            assert(kinds_view(kinds@).drop_last() =~= before);
        }
        Ok(Scanner { kinds, longest })
    }

    /// The token at `idx`, with the number of characters it takes and the
    /// text that follows it; or the text examined there, where no kind
    /// matches. `ahead` is the text from `idx` on.
    #[verifier::loop_isolation(false)]
    fn next_token<'a>(&self, ahead: &'a str, chars: &Vec<char>, idx: usize) -> (r: Result<
        (Token, usize, &'a str),
        String,
    >)
        requires
            idx < chars@.len(),
            ahead@ == chars@.subrange(idx as int, chars@.len() as int),
        ensures
            match token_at(self@, chars@, idx as int) {
                Ok((token, len)) => r matches Ok((t, l, after_it)) && t@ == token && l == len
                    && after_it@ == chars@.subrange(idx + len, chars@.len() as int),
                Err(sample) => r matches Err(s) && s@ == sample,
            },
    {
        proof {
            use_type_invariant(self);
        }
        let n = chars.len();
        let left: usize = n - idx;
        let limit: usize = if self.longest == 0 {
            1
        } else if self.longest < left {
            self.longest
        } else {
            left
        };
        let rest = slice_subrange(chars.as_slice(), idx, n);
        let mut l: usize = 1;
        let mut growing = true;
        while growing
            invariant
                1 <= l <= limit,
                growing ==> growing_literal(self@, chars@, idx as int, l as int) == growing_literal(
                    self@,
                    chars@,
                    idx as int,
                    1,
                ),
                !growing ==> growing_literal(self@, chars@, idx as int, 1) is None,
            decreases limit - l + (if growing { 1int } else { 0int }),
        {
            let mut k: usize = 0;
            while k < self.kinds.len()
                invariant
                    k <= self.kinds@.len(),
                    first_literal(self@, chars@, idx as int, l as int, k as int) == first_literal(
                        self@,
                        chars@,
                        idx as int,
                        l as int,
                        0,
                    ),
                decreases self.kinds@.len() - k,
            {
                match &self.kinds[k] {
                    TokenKind::Literal { source, text } => {
                        let stands = text.len() == l && starts_with(rest, text);
                        proof {
                            if text@.len() == l && idx + l <= n {
                                assert(rest@.subrange(0, l as int) =~= chars@.subrange(
                                    idx as int,
                                    idx + l,
                                ));
                            }
                            assert(stands == literal_matches(
                                self@[k as int],
                                chars@,
                                idx as int,
                                l as int,
                            ));
                        }
                        if stands {
                            let fields: Vec<Value> = Vec::new();
                            let token = Token { kind: k, fields };
                            let after_it = after(ahead, source.as_str());
                            proof {
                                assert(token@.fields =~= Seq::empty());
                                assert(after_it@ =~= chars@.subrange(idx + l, n as int));
                            }
                            return Ok((token, l, after_it));
                        }
                    },
                    TokenKind::Captured { .. } => {},
                }
                k = k + 1;
            }
            if l < limit {
                l = l + 1;
            } else {
                assert(growing_literal(self@, chars@, idx as int, l + 1) is None);
                growing = false;
            }
        }
        let mut k: usize = 0;
        while k < self.kinds.len()
            invariant
                k <= self.kinds@.len(),
                first_captured(self@, rest@, k as int) == first_captured(self@, rest@, 0),
            decreases self.kinds@.len() - k,
        {
            match &self.kinds[k] {
                TokenKind::Captured { matcher, names, types } => {
                    let found = search(matcher, names, ahead);
                    match accept(rest, types, &found) {
                        Some((len, fields)) => {
                            assert(captured_at(self@[k as int], rest@) == Some(
                                (len as int, values_view(fields@)),
                            ));
                            if let Some(f) = &found {
                                let after_it = after(ahead, f.text.as_str());
                                assert(after_it@ =~= chars@.subrange(idx + len, n as int));
                                return Ok((Token { kind: k, fields }, len, after_it));
                            }
                        },
                        None => {
                            assert(captured_at(self@[k as int], rest@) is None);
                        },
                    }
                },
                TokenKind::Literal { .. } => {},
            }
            k = k + 1;
        }
        let sample = String::from_str(ahead.substring_char(0, limit));
        assert(sample@ =~= chars@.subrange(idx as int, idx + limit));
        Err(sample)
    }

    /// Scans the whole of `source` and gives its tokens; or, at the first
    /// position where no kind matches, a `ScanError` with the text examined
    /// there.
    ///
    /// Every token belongs to a declared kind: none is the placeholder.
    pub fn scan(&self, source: Source) -> (r: Result<Vec<Token>, ParseError<Token>>)
        ensures
            match scanned(self@, source.content@, 0) {
                Ok(tokens) => r matches Ok(v) && tokens_view(v@) == tokens,
                Err(sample) => r matches Err(ParseError::ScanError { sample: s }) && s@ == sample,
            },
            r matches Ok(v) ==> forall|i: int|
                0 <= i < v@.len() ==> (#[trigger] v@[i]).kind < self@.len() && !v@[i].is_placeholder(),
    {
        let chars = chars_of(source.content);
        let n = chars.len();
        let mut tokens: Vec<Token> = Vec::new();
        let mut idx: usize = 0;
        let mut ahead: &str = source.content;
        assert(ahead@ =~= chars@.subrange(0, n as int));
        assert(tokens_view(tokens@) + scanned(self@, chars@, 0)->Ok_0 =~= scanned(
            self@,
            chars@,
            0,
        )->Ok_0);
        while idx < n
            invariant
                idx <= n,
                n == chars@.len(),
                chars@ == source.content@,
                ahead@ == chars@.subrange(idx as int, n as int),
                scanned(self@, chars@, 0) == followed_by(
                    tokens_view(tokens@),
                    scanned(self@, chars@, idx as int),
                ),
            decreases n - idx,
        {
            proof {
                lemma_token_advances(self@, chars@, idx as int);
            }
            match self.next_token(ahead, &chars, idx) {
                Ok((token, len, after_it)) => {
                    let ghost done = tokens_view(tokens@);
                    tokens.push(token);
                    proof {
                        let more = scanned(self@, chars@, idx + len);
                        assert(tokens_view(tokens@) =~= done + seq![token@]);
                        if more is Ok {
                            assert(done + (seq![token@] + more->Ok_0) =~= (done + seq![token@])
                                + more->Ok_0);
                        }
                    }
                    idx = idx + len;
                    ahead = after_it;
                },
                Err(sample) => {
                    return Err(ParseError::ScanError { sample });
                },
            }
        }
        let declared = self.kinds.len();
        proof {
            assert(tokens_view(tokens@) + Seq::<TokenView>::empty() =~= tokens_view(tokens@));
            assert(scanned(self@, chars@, 0) == Ok::<Seq<TokenView>, Seq<char>>(
                tokens_view(tokens@),
            ));
            lemma_scanned_kinds(self@, chars@, 0);
            assert forall|i: int| 0 <= i < tokens@.len() implies (#[trigger] tokens@[i]).kind
                < self@.len() && !tokens@[i].is_placeholder() by {
                assert(tokens_view(tokens@)[i] == tokens@[i]@);
                assert(self@.len() == declared);
            }
        }
        Ok(tokens)
    }
}

} // verus!
