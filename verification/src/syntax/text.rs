//! What the parser reads out of a lexeme: the text of a name, the value of
//! a number, the inside of a string literal.

use vstd::prelude::*;
use vstd::slice::slice_subrange;

use crate::syntax::lexer::is_digit;

verus! {

/// The text that `String::from_utf8_lossy` makes of `bytes`: their
/// decoding as UTF-8, with U+FFFD in place of each stretch that is not
/// well formed.
pub uninterp spec fn utf8_lossy(bytes: Seq<u8>) -> Seq<char>;

/// The text of a lexeme, by `String::from_utf8_lossy` and
/// `Cow::into_owned` of the standard library. Assumed, not proved: the
/// result is the lossy decoding of the bytes, which for well-formed UTF-8
/// is their decoding.
#[verifier::external_body]
pub(crate) fn lexeme_to_string(lexeme: &[u8]) -> (text: String)
    ensures
        text@ == utf8_lossy(lexeme@),
        vstd::utf8::valid_utf8(lexeme@) ==> text@ == vstd::utf8::decode_utf8(lexeme@),
{
    String::from_utf8_lossy(lexeme).into_owned()
}

/// The number that the decimal digits `digits` write.
pub open spec fn decimal(digits: Seq<u8>) -> nat
    decreases digits.len(),
{
    if digits.len() == 0 {
        0
    } else {
        decimal(digits.drop_last()) * 10 + (digits.last() - 0x30) as nat
    }
}

/// Every byte is a decimal digit.
pub open spec fn all_digits(bytes: Seq<u8>) -> bool {
    forall|i: int| 0 <= i < bytes.len() ==> is_digit(#[trigger] bytes[i])
}

/// The lexeme without a plus sign at its head.
pub open spec fn unsigned(lexeme: Seq<u8>) -> Seq<u8> {
    if lexeme.len() > 0 && lexeme[0] == 0x2b {
        lexeme.drop_first()
    } else {
        lexeme
    }
}

/// The value of a number lexeme: what its digits write where it is one or
/// more decimal digits, behind a plus sign or none, that fit in 64 bits;
/// 0 for every other lexeme.
pub open spec fn number_value(lexeme: Seq<u8>) -> nat {
    let digits = unsigned(lexeme);
    if digits.len() > 0 && all_digits(digits) && decimal(digits) <= u64::MAX {
        decimal(digits)
    } else {
        0
    }
}

/// A number is no smaller than what any of its leading digits write.
pub proof fn lemma_decimal_prefix(digits: Seq<u8>, k: int)
    requires
        all_digits(digits),
        0 <= k <= digits.len(),
    ensures
        decimal(digits.take(k)) <= decimal(digits),
    decreases digits.len() - k,
{
    if k < digits.len() {
        lemma_decimal_prefix(digits, k + 1);
        let longer = digits.take(k + 1);
        assert(longer.drop_last() == digits.take(k));
        assert(is_digit(digits[k]));
        assert(longer.last() == digits[k]);
    } else {
        assert(digits.take(k) == digits);
    }
}

/// Reads a number lexeme. A lexeme that is no number, or whose number
/// does not fit, reads as 0.
pub fn parse_number(lexeme: &[u8]) -> (value: u64)
    ensures
        value == number_value(lexeme@),
{
    let start: usize = if lexeme.len() > 0 && lexeme[0] == 0x2b {
        1
    } else {
        0
    };
    let ghost digits = unsigned(lexeme@);
    assert(digits == lexeme@.subrange(start as int, lexeme@.len() as int));
    if start == lexeme.len() {
        return 0;
    }
    let mut value: u64 = 0;
    let mut i: usize = start;
    while i < lexeme.len()
        invariant
            start <= i <= lexeme@.len(),
            start < lexeme@.len(),
            digits == unsigned(lexeme@),
            digits == lexeme@.subrange(start as int, lexeme@.len() as int),
            all_digits(digits.take(i - start)),
            value == decimal(digits.take(i - start)),
        decreases lexeme@.len() - i,
    {
        let byte: u8 = lexeme[i];
        if byte < 0x30 || byte > 0x39 {
            assert(!is_digit(digits[i - start]));
            return 0;
        }
        let ghost longer = digits.take(i - start + 1);
        proof {
            assert(longer.drop_last() == digits.take(i - start));
            assert(longer.last() == byte);
            assert forall|k: int| 0 <= k < longer.len() implies is_digit(#[trigger] longer[k]) by {
                if k < i - start {
                    assert(digits.take(i - start)[k] == longer[k]);
                }
            }
        }
        let digit: u64 = (byte - 0x30) as u64;
        let next: Option<u64> = match value.checked_mul(10) {
            Some(tenfold) => tenfold.checked_add(digit),
            None => None,
        };
        match next {
            Some(more) => {
                value = more;
            },
            None => {
                proof {
                    assert(decimal(longer) > u64::MAX);
                    if all_digits(digits) {
                        lemma_decimal_prefix(digits, i - start + 1);
                    }
                }
                return 0;
            },
        }
        i += 1;
    }
    assert(digits.take(i - start) == digits);
    value
}

/// The inside of a string lexeme: the lexeme without its first and its
/// last byte, or all of it where it has fewer than two bytes.
pub open spec fn unquoted(lexeme: Seq<u8>) -> Seq<u8> {
    if lexeme.len() >= 2 {
        lexeme.subrange(1, lexeme.len() - 1)
    } else {
        lexeme
    }
}

/// Strips the quotes of a string lexeme.
pub fn unquote<'a>(lexeme: &'a [u8]) -> (inside: &'a [u8])
    ensures
        inside@ == unquoted(lexeme@),
{
    if lexeme.len() >= 2 {
        slice_subrange(lexeme, 1, lexeme.len() - 1)
    } else {
        lexeme
    }
}

} // verus!
