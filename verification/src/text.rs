//! Tests on the characters of a text and decimal numbers in text.

use vstd::prelude::*;
use vstd::string::StrSliceExecFns;

verus! {

/// Whether `c` is a letter or a number, as `char::is_alphanumeric` of the
/// standard library decides by the Unicode tables.
pub uninterp spec fn alphanumeric(c: char) -> bool;

/// Tests a character with `char::is_alphanumeric`.
///
/// Trusted: the answer depends on the character alone.
#[verifier::external_body]
pub(crate) fn char_is_alphanumeric(c: char) -> (yes: bool)
    ensures
        yes == alphanumeric(c),
{
    c.is_alphanumeric()
}

/// Every character of `text` is a letter or a number.
pub open spec fn all_alphanumeric(text: Seq<char>) -> bool {
    forall|i: int| 0 <= i < text.len() ==> alphanumeric(#[trigger] text[i])
}

/// Whether every character of `text` is a letter or a number.
pub fn is_alphanumeric_text(text: &str) -> (yes: bool)
    ensures
        yes == all_alphanumeric(text@),
{
    let len = text.unicode_len();
    let mut i: usize = 0;
    while i < len
        invariant
            len == text@.len(),
            i <= len,
            forall|j: int| 0 <= j < i ==> alphanumeric(#[trigger] text@[j]),
        decreases len - i,
    {
        if !char_is_alphanumeric(text.get_char(i)) {
            return false;
        }
        i += 1;
    }
    true
}

/// `c` is one of the digits `0` to `9`.
pub open spec fn is_digit(c: char) -> bool {
    '0' <= c <= '9'
}

/// The number that a text of digits stands for in decimal.
pub open spec fn digits_value(text: Seq<char>) -> nat
    decreases text.len(),
{
    if text.len() == 0 {
        0
    } else {
        (digits_value(text.drop_last()) * 10 + (text.last() as int - '0' as int)) as nat
    }
}

/// Every character of `text` is a digit.
pub open spec fn all_digits(text: Seq<char>) -> bool {
    forall|i: int| 0 <= i < text.len() ==> is_digit(#[trigger] text[i])
}

/// The number that `text` stands for in decimal, where it is at most
/// `limit`: `text` is one or more digits.
pub open spec fn bounded_value(text: Seq<char>, limit: int) -> Option<int> {
    if text.len() > 0 && all_digits(text) && digits_value(text) <= limit {
        Some(digits_value(text) as int)
    } else {
        None
    }
}

/// The number that `text` stands for in decimal: `text` is one or more
/// digits, and the number fits an `i64`.
pub open spec fn decimal_value(text: Seq<char>) -> Option<i64> {
    match bounded_value(text, i64::MAX as int) {
        Some(number) => Some(number as i64),
        None => None,
    }
}

/// The number that `text` stands for in decimal: `text` is one or more
/// digits, and the number fits a `u64`.
pub open spec fn natural_value(text: Seq<char>) -> Option<u64> {
    match bounded_value(text, u64::MAX as int) {
        Some(number) => Some(number as u64),
        None => None,
    }
}

/// `text` without the plus sign that it may start with.
pub open spec fn without_plus(text: Seq<char>) -> Seq<char> {
    if text.len() > 0 && text[0] == '+' {
        text.skip(1)
    } else {
        text
    }
}

/// The number without a sign that `text` stands for: one or more digits,
/// after a plus sign or not, and the number fits a `u64`.
pub open spec fn unsigned_value(text: Seq<char>) -> Option<u64> {
    let digits = without_plus(text);
    if digits.len() > 0 && all_digits(digits) && digits_value(digits) <= u64::MAX {
        Some(digits_value(digits) as u64)
    } else {
        None
    }
}

/// Whether `text` is the text `literal`.
pub fn is_text(text: &str, literal: &str) -> (yes: bool)
    ensures
        yes == (text@ == literal@),
{
    text.to_owned() == literal.to_owned()
}

/// A text of digits stands for at least what a prefix of it stands for.
pub proof fn lemma_digits_value_grows(text: Seq<char>, k: int)
    requires
        all_digits(text),
        0 <= k <= text.len(),
    ensures
        digits_value(text.take(k)) <= digits_value(text),
    decreases text.len() - k,
{
    if k == text.len() {
        assert(text.take(k) == text);
    } else {
        lemma_digits_value_grows(text, k + 1);
        assert(text.take(k + 1).drop_last() == text.take(k));
        assert(is_digit(text[k]));
        assert(text.take(k + 1).last() == text[k]);
    }
}

/// Reads a number of at most `limit` from decimal text without a sign.
pub fn parse_bounded(text: &str, limit: u64) -> (number: Option<u64>)
    ensures
        match bounded_value(text@, limit as int) {
            Some(value) => number == Some(value as u64),
            None => number is None,
        },
{
    let len = text.unicode_len();
    if len == 0 {
        return None;
    }
    let mut value: u64 = 0;
    let mut i: usize = 0;
    assert(text@.take(0) == Seq::<char>::empty());
    while i < len
        invariant
            len == text@.len(),
            i <= len,
            all_digits(text@.take(i as int)),
            value == digits_value(text@.take(i as int)),
            value <= limit,
        decreases len - i,
    {
        let c = text.get_char(i);
        proof {
            assert(text@.take(i + 1).drop_last() == text@.take(i as int));
            assert(text@.take(i + 1).last() == c);
        }
        if !('0' <= c && c <= '9') {
            assert(!is_digit(text@[i as int]));
            return None;
        }
        let digit: u64 = (c as u32 - '0' as u32) as u64;
        proof {
            assert forall|j: int| 0 <= j < i + 1 implies is_digit(
                #[trigger] text@.take(i + 1)[j],
            ) by {
                if j < i {
                    assert(text@.take(i as int)[j] == text@[j]);
                }
            }
        }
        if digit > limit || value > (limit - digit) / 10 {
            proof {
                assert(value * 10 + digit > limit);
                if all_digits(text@) {
                    lemma_digits_value_grows(text@, i + 1);
                }
            }
            return None;
        }
        value = value * 10 + digit;
        i += 1;
    }
    proof {
        assert(text@.take(i as int) == text@);
    }
    Some(value)
}

/// Reads an `i64` from decimal text without a sign.
pub fn parse_decimal(text: &str) -> (number: Option<i64>)
    ensures
        number == decimal_value(text@),
{
    match parse_bounded(text, 0x7fff_ffff_ffff_ffff) {
        Some(value) => Some(value as i64),
        None => None,
    }
}

/// Reads a `u64` from decimal text that may start with a plus sign.
pub fn parse_unsigned(text: &str) -> (number: Option<u64>)
    ensures
        number == unsigned_value(text@),
{
    let len = text.unicode_len();
    if len > 0 && text.get_char(0) == '+' {
        let digits = text.substring_char(1, len);
        proof {
            assert(digits@ =~= text@.skip(1));
        }
        parse_natural(digits)
    } else {
        parse_natural(text)
    }
}

/// Reads a `u64` from decimal text without a sign.
pub fn parse_natural(text: &str) -> (number: Option<u64>)
    ensures
        number == natural_value(text@),
{
    parse_bounded(text, u64::MAX)
}

} // verus!
