//! Turning captured text into the value that a field declares.

use crate::pattern::text_view;
use crate::text::chars_of;
use crate::token::{FieldType, Value, ValueView};
use vstd::prelude::*;

verus! {

/// Whether `c` is one of the ten decimal digits.
pub open spec fn is_digit(c: char) -> bool {
    '0' <= c && c <= '9'
}

/// Whether `s` holds decimal digits only.
pub open spec fn all_digits(s: Seq<char>) -> bool {
    forall|i: int| 0 <= i < s.len() ==> is_digit(#[trigger] s[i])
}

/// The number that a run of decimal digits writes.
pub open spec fn digits_value(s: Seq<char>) -> int
    decreases s.len(),
{
    if s.len() == 0 {
        0
    } else {
        10 * digits_value(s.drop_last()) + (s.last() as int - '0' as int)
    }
}

/// How many characters the sign takes: one for a leading `+` or `-`.
pub open spec fn sign_len(s: Seq<char>) -> int {
    if s.len() > 0 && (s[0] == '-' || s[0] == '+') {
        1
    } else {
        0
    }
}

/// The integer that `s` writes in decimal: an optional sign, then at least
/// one digit and nothing else, of a value that fits 64 bits.
pub open spec fn integer_of(s: Seq<char>) -> Option<i64> {
    let digits = s.subrange(sign_len(s), s.len() as int);
    let magnitude = digits_value(digits);
    let value = if s.len() > 0 && s[0] == '-' {
        -magnitude
    } else {
        magnitude
    };
    if digits.len() > 0 && all_digits(digits) && i64::MIN <= value <= i64::MAX {
        Some(value as i64)
    } else {
        None
    }
}

/// A run of digits writes no less than any of its prefixes does.
proof fn lemma_digits_value_grows(s: Seq<char>, i: int)
    requires
        all_digits(s),
        0 <= i <= s.len(),
    ensures
        0 <= digits_value(s.subrange(0, i)) <= digits_value(s),
    decreases s.len() - i,
{
    if i == s.len() {
        assert(s.subrange(0, i) == s);
        lemma_digits_value_not_negative(s);
    } else {
        lemma_digits_value_grows(s.drop_last(), i);
        assert(s.drop_last().subrange(0, i) == s.subrange(0, i));
        assert(is_digit(s[s.len() - 1]));
    }
}

/// A run of digits writes no negative number.
proof fn lemma_digits_value_not_negative(s: Seq<char>)
    requires
        all_digits(s),
    ensures
        0 <= digits_value(s),
    decreases s.len(),
{
    if s.len() > 0 {
        lemma_digits_value_not_negative(s.drop_last());
        assert(is_digit(s[s.len() - 1]));
    }
}

/// Reads a decimal integer: an optional sign and then digits only, as
/// `integer_of` says. Gives `None` for any other text and for a number that
/// does not fit 64 bits.
pub fn parse_integer(text: &Vec<char>) -> (r: Option<i64>)
    ensures
        r == integer_of(text@),
{
    let n = text.len();
    let negative = n > 0 && text[0] == '-';
    let start: usize = if n > 0 && (text[0] == '-' || text[0] == '+') {
        1
    } else {
        0
    };
    if start == n {
        return None;
    }
    let ghost digits = text@.subrange(start as int, n as int);
    let limit: i128 = 0x8000_0000_0000_0000;
    let mut acc: i128 = 0;
    let mut i: usize = start;
    while i < n
        invariant
            start <= i <= n,
            n == text@.len(),
            start == sign_len(text@),
            negative == (n > 0 && text@[0] == '-'),
            digits == text@.subrange(start as int, n as int),
            all_digits(digits.subrange(0, i - start)),
            acc == digits_value(digits.subrange(0, i - start)),
            0 <= acc <= limit,
            limit == 0x8000_0000_0000_0000,
        decreases n - i,
    {
        let c = text[i];
        if !(c >= '0' && c <= '9') {
            assert(digits[i - start] == c);
            return None;
        }
        let d: i128 = (c as u32 - '0' as u32) as i128;
        let next: i128 = acc * 10 + d;
        proof {
            let longer = digits.subrange(0, i - start + 1);
            assert(longer.drop_last() == digits.subrange(0, i - start));
            assert(longer.last() == c);
            assert(all_digits(longer)) by {
                assert forall|j: int| 0 <= j < longer.len() implies is_digit(#[trigger] longer[j]) by {
                    if j < i - start {
                        assert(longer[j] == digits.subrange(0, i - start)[j]);
                    }
                }
            }
            if next > limit && all_digits(digits) {
                lemma_digits_value_grows(digits, i - start + 1);
            }
        }
        if next > limit {
            return None;
        }
        acc = next;
        i = i + 1;
    }
    assert(digits.subrange(0, n - start) == digits);
    if negative {
        Some((-acc) as i64)
    } else if acc == limit {
        None
    } else {
        Some(acc as i64)
    }
}

/// The value of a field of type `ty` whose group covers `text`. A group that
/// took no part in the match has no value, and neither has an integer field
/// whose text is no integer.
pub open spec fn field_value(ty: FieldType, text: Option<Seq<char>>) -> Option<ValueView> {
    match text {
        None => None,
        Some(t) => match ty {
            FieldType::Text => Some(ValueView::Text(t)),
            FieldType::Integer => match integer_of(t) {
                Some(i) => Some(ValueView::Integer(i)),
                None => None,
            },
        },
    }
}

/// The view of a value that may be missing.
pub open spec fn value_view(value: Option<Value>) -> Option<ValueView> {
    match value {
        Some(v) => Some(v@),
        None => None,
    }
}

/// Converts the text of a field's group to the field's type. Gives `None`
/// for a group without text and for text that the type cannot read.
pub fn convert(ty: FieldType, text: &Option<String>) -> (r: Option<Value>)
    ensures
        value_view(r) == field_value(ty, text_view(*text)),
{
    match text {
        None => None,
        Some(s) => match ty {
            FieldType::Text => Some(Value::Text(s.clone())),
            FieldType::Integer => {
                let digits = chars_of(s.as_str());
                match parse_integer(&digits) {
                    Some(i) => Some(Value::Integer(i)),
                    None => None,
                }
            },
        },
    }
}

} // verus!
