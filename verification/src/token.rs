//! The tokens that the scanner produces.

use crate::grammar::{parse_token, Parse, ParseMeta, TokenStream};
use crate::ParseError;
use vstd::prelude::*;

verus! {

/// The type that a captured field is converted to.
#[derive(Debug, Clone, Copy, PartialEq, Eq)]
pub enum FieldType {
    /// A decimal integer of 64 bits.
    Integer,
    /// The captured text as it stands.
    Text,
}

/// The value of a captured field.
#[derive(Debug, PartialEq, Eq)]
pub enum Value {
    Integer(i64),
    Text(String),
}

/// A field's value, with text as a sequence of characters.
pub enum ValueView {
    Integer(i64),
    Text(Seq<char>),
}

impl View for Value {
    type V = ValueView;

    open spec fn view(&self) -> ValueView {
        match self {
            Value::Integer(i) => ValueView::Integer(*i),
            Value::Text(s) => ValueView::Text(s@),
        }
    }
}

impl Clone for Value {
    fn clone(&self) -> (r: Self)
        ensures
            r@ == self@,
    {
        match self {
            Value::Integer(i) => Value::Integer(*i),
            Value::Text(s) => Value::Text(s.clone()),
        }
    }
}

/// A lexical unit: the kind it belongs to, by the index of the kind's
/// declaration, and the values of the fields that the kind captures.
///
/// The default token is a placeholder that belongs to no kind; the scanner
/// never produces it.
#[derive(Debug, PartialEq, Eq)]
pub struct Token {
    pub kind: usize,
    pub fields: Vec<Value>,
}

/// A token with its fields' values as `ValueView`s.
pub struct TokenView {
    pub kind: nat,
    pub fields: Seq<ValueView>,
}

/// The views of `values`, in order.
pub open spec fn values_view(values: Seq<Value>) -> Seq<ValueView> {
    Seq::new(values.len(), |i: int| values[i]@)
}

impl View for Token {
    type V = TokenView;

    open spec fn view(&self) -> TokenView {
        TokenView { kind: self.kind as nat, fields: values_view(self.fields@) }
    }
}

/// The views of `tokens`, in order.
pub open spec fn tokens_view(tokens: Seq<Token>) -> Seq<TokenView> {
    Seq::new(tokens.len(), |i: int| tokens[i]@)
}

impl Token {
    /// The kind of the placeholder token.
    pub const NO_KIND: usize = usize::MAX;

    /// Whether this is the placeholder.
    pub open spec fn is_placeholder(&self) -> bool {
        self@ == (TokenView { kind: usize::MAX as nat, fields: Seq::empty() })
    }
}

impl Clone for Token {
    fn clone(&self) -> (r: Self)
        ensures
            r@ == self@,
    {
        let mut fields: Vec<Value> = Vec::new();
        let mut i: usize = 0;
        while i < self.fields.len()
            invariant
                i <= self.fields@.len(),
                fields@.len() == i,
                forall|j: int| 0 <= j < i ==> fields@[j]@ == self.fields@[j]@,
            decreases self.fields@.len() - i,
        {
            fields.push(self.fields[i].clone());
            i = i + 1;
        }
        let r = Token { kind: self.kind, fields };
        assert(r@.fields =~= self@.fields);
        r
    }
}

impl Default for Token {
    fn default() -> (r: Self)
        ensures
            r.is_placeholder(),
    {
        let r = Token { kind: usize::MAX, fields: Vec::new() };
        assert(r@.fields =~= Seq::empty());
        r
    }
}

/// A copy of a token has the token's view.
pub proof fn lemma_cloned_token(a: Token, b: Token)
    requires
        cloned(a, b),
    ensures
        a@ == b@,
{
}

/// As a rule, a token reads the one token at the cursor, of whatever kind,
/// and fails with `Eof` where none is left.
impl Parse<Token> for Token {
    open spec fn yields(
        tokens: Seq<Token>,
        pos: int,
        r: Result<ParseMeta<Self>, ParseError<Token>>,
    ) -> bool {
        match r {
            Ok(m) => 0 <= pos < tokens.len() && m.start == pos && m.end == pos + 1
                && m.value@ == tokens[pos]@,
            Err(e) => !(0 <= pos < tokens.len()) && e is Eof,
        }
    }

    fn try_parse(stream: &mut TokenStream<Token>) -> (r: Result<
        ParseMeta<Self>,
        ParseError<Token>,
    >) {
        parse_token(stream)
    }
}

} // verus!
