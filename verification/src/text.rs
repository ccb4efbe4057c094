//! Text as a sequence of characters.

use vstd::prelude::*;
use vstd::string::*;
use vstd::utf8::{
    encode_utf8, encode_utf8_decode_utf8, encode_utf8_first_scalar, encode_utf8_valid_utf8,
    is_char_boundary, pop_first_scalar,
};

verus! {

/// The characters of `s`, in order.
pub fn chars_of(s: &str) -> (r: Vec<char>)
    ensures
        r@ == s@,
{
    let mut out: Vec<char> = Vec::new();
    for c in it: s.chars()
        invariant
            out@ == it.seq().take(it.index() as int),
            it.seq() == s@,
    {
        out.push(c);
    }
    out
}

/// Whether `text` stands at the start of `rest`.
pub fn starts_with(rest: &[char], text: &Vec<char>) -> (r: bool)
    ensures
        r == text@.is_prefix_of(rest@),
{
    if text.len() > rest.len() {
        return false;
    }
    let mut i: usize = 0;
    while i < text.len()
        invariant
            i <= text@.len() <= rest@.len(),
            forall|j: int| 0 <= j < i ==> text@[j] == rest@[j],
        decreases text@.len() - i,
    {
        if text[i] != rest[i] {
            assert(rest@.subrange(0, text@.len() as int)[i as int] != text@[i as int]);
            return false;
        }
        i = i + 1;
    }
    assert(text@ =~= rest@.subrange(0, text@.len() as int));
    true
}

/// The bytes of a text are the bytes of its start followed by the bytes of
/// the rest.
proof fn lemma_encode_concat(a: Seq<char>, b: Seq<char>)
    ensures
        encode_utf8(a + b) == encode_utf8(a) + encode_utf8(b),
    decreases a.len(),
{
    if a.len() == 0 {
        assert(a + b =~= b);
        assert(encode_utf8(a) + encode_utf8(b) =~= encode_utf8(b));
    } else {
        lemma_encode_concat(a.drop_first(), b);
        assert((a + b).drop_first() =~= a.drop_first() + b);
        assert(encode_utf8(a + b) =~= encode_utf8(a) + encode_utf8(b));
    }
}

/// Where the start of a text ends in its bytes, a character begins or the
/// text ends.
proof fn lemma_boundary_after_start(a: Seq<char>, b: Seq<char>)
    ensures
        is_char_boundary(encode_utf8(a + b), encode_utf8(a).len() as int),
    decreases a.len(),
{
    let bytes = encode_utf8(a + b);
    encode_utf8_valid_utf8(a + b);
    if a.len() > 0 {
        lemma_boundary_after_start(a.drop_first(), b);
        lemma_encode_concat(a, b);
        encode_utf8_first_scalar(a + b);
        encode_utf8_first_scalar(a);
        assert((a + b).drop_first() =~= a.drop_first() + b);
        assert(pop_first_scalar(bytes) =~= encode_utf8(a.drop_first() + b));
        assert(pop_first_scalar(encode_utf8(a)) =~= encode_utf8(a.drop_first()));
    }
}

/// What is left of `text` after `start`, which it begins with. Takes no
/// longer than it takes to say where `start` ends.
pub(crate) fn after<'a>(text: &'a str, start: &str) -> (r: &'a str)
    requires
        start@.is_prefix_of(text@),
    ensures
        r@ == text@.subrange(start@.len() as int, text@.len() as int),
{
    let ghost a = start@;
    let ghost b = text@.subrange(start@.len() as int, text@.len() as int);
    proof {
        assert(text@ =~= a + b);
        lemma_encode_concat(a, b);
        lemma_boundary_after_start(a, b);
    }
    let (_, r) = text.split_at(start.as_bytes().len());
    proof {
        assert(r.spec_bytes() =~= encode_utf8(b));
        encode_utf8_decode_utf8(r@);
        encode_utf8_decode_utf8(b);
    }
    r
}

} // verus!
