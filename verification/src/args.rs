//! Pieces that the command lines share: unsigned numbers and argument lists.
use crate::text::decimal;
use vstd::prelude::*;
use vstd::string::*;

verus! {

/// Why a text is no number of the expected size.
#[derive(Clone, Copy, Debug, PartialEq, Eq, Structural)]
pub enum NumberError {
    Empty,
    InvalidDigit,
    TooLarge,
}

impl NumberError {
    pub open spec fn spec_message(self) -> Seq<char> {
        match self {
            NumberError::Empty => "cannot parse integer from empty string"@,
            NumberError::InvalidDigit => "invalid digit found in string"@,
            NumberError::TooLarge => "number too large to fit in target type"@,
        }
    }

    pub fn message(self) -> (text: String)
        ensures
            text@ == self.spec_message(),
    {
        match self {
            NumberError::Empty => "cannot parse integer from empty string".to_owned(),
            NumberError::InvalidDigit => "invalid digit found in string".to_owned(),
            NumberError::TooLarge => "number too large to fit in target type".to_owned(),
        }
    }
}

pub open spec fn is_digit(c: char) -> bool {
    48 <= c as int <= 57
}

/// How many digits stand at the front of `text`.
pub open spec fn leading_digits(text: Seq<char>) -> nat
    decreases text.len(),
{
    if text.len() > 0 && is_digit(text[0]) {
        1 + leading_digits(text.skip(1))
    } else {
        0
    }
}

/// The number that a run of decimal digits writes.
pub open spec fn digits_value(digits: Seq<char>) -> nat
    decreases digits.len(),
{
    if digits.len() == 0 {
        0
    } else {
        (10 * digits_value(digits.drop_last()) + (digits.last() as int - 48)) as nat
    }
}

/// What follows an optional plus sign.
pub open spec fn unsigned_part(text: Seq<char>) -> Seq<char> {
    if text.len() > 0 && text[0] == '+' {
        text.skip(1)
    } else {
        text
    }
}

/// An unsigned decimal number of at most `max`: an optional plus sign, then
/// digits and nothing else. Digits whose number is already too large are
/// reported as such, whatever comes after them.
pub open spec fn number(text: Seq<char>, max: u64) -> Result<u64, NumberError> {
    let part = unsigned_part(text);
    let run = leading_digits(part);
    let value = digits_value(part.take(run as int));
    if text.len() == 0 {
        Err(NumberError::Empty)
    } else if value > max {
        Err(NumberError::TooLarge)
    } else if run < part.len() || run == 0 {
        Err(NumberError::InvalidDigit)
    } else {
        Ok(value as u64)
    }
}

/// The digits at the front really are digits, and what follows them is none.
proof fn lemma_leading_digits(text: Seq<char>)
    ensures
        leading_digits(text) <= text.len(),
        forall|i: int| 0 <= i < leading_digits(text) ==> is_digit(#[trigger] text[i]),
        leading_digits(text) < text.len() ==> !is_digit(text[leading_digits(text) as int]),
    decreases text.len(),
{
    if text.len() > 0 && is_digit(text[0]) {
        let rest = text.skip(1);
        lemma_leading_digits(rest);
        assert forall|i: int| 0 <= i < leading_digits(text) implies is_digit(#[trigger] text[i]) by {
            if i > 0 {
                assert(text[i] == rest[i - 1]);
            }
        }
    }
}

/// Further digits never make a number smaller.
proof fn lemma_value_grows(digits: Seq<char>, n: int)
    requires
        0 <= n <= digits.len(),
        forall|i: int| 0 <= i < digits.len() ==> is_digit(#[trigger] digits[i]),
    ensures
        digits_value(digits.take(n)) <= digits_value(digits),
    decreases digits.len() - n,
{
    if n < digits.len() {
        lemma_value_grows(digits, n + 1);
        assert(digits.take(n + 1).drop_last() =~= digits.take(n));
        assert(digits.take(n + 1).last() == digits[n]);
    } else {
        assert(digits.take(n) =~= digits);
    }
}

/// Reads an unsigned decimal number of at most `max`.
pub fn parse_number(text: &str, max: u64) -> (value: Result<u64, NumberError>)
    ensures
        value == number(text@, max),
{
    let len: usize = text.unicode_len();
    if len == 0 {
        return Err(NumberError::Empty);
    }
    let ghost part = unsigned_part(text@);
    let ghost run = leading_digits(part);
    proof {
        lemma_leading_digits(part);
    }
    let start: usize = if text.get_char(0) == '+' {
        1
    } else {
        0
    };
    if start == len {
        return Err(NumberError::InvalidDigit);
    }
    let mut value: u64 = 0;
    let mut i: usize = start;
    assert(part.take(0) =~= Seq::empty());
    while i < len
        invariant
            len == text@.len(),
            start <= i <= len,
            start <= 1,
            start < len,
            part == text@.skip(start as int),
            part == unsigned_part(text@),
            run == leading_digits(part),
            i - start <= run <= part.len(),
            forall|j: int| 0 <= j < run ==> is_digit(#[trigger] part[j]),
            run < part.len() ==> !is_digit(part[run as int]),
            value == digits_value(part.take(i - start)),
            value <= max,
        decreases len - i,
    {
        let c: char = text.get_char(i);
        let ghost at = i - start;
        assert(c == part[at]);
        let code: u32 = c as u32;
        if code < 48 || code > 57 {
            assert(!is_digit(part[at]));
            return Err(NumberError::InvalidDigit);
        }
        assert(is_digit(part[at]));
        assert(part.take(at + 1).drop_last() =~= part.take(at));
        let next: u128 = value as u128 * 10 + (code - 48) as u128;
        if next > max as u128 {
            proof {
                lemma_value_grows(part.take(run as int), at + 1);
                assert(part.take(run as int).take(at + 1) =~= part.take(at + 1));
            }
            return Err(NumberError::TooLarge);
        }
        value = next as u64;
        i = i + 1;
    }
    Ok(value)
}

/// The texts of an argument list.
pub open spec fn texts(args: Seq<String>) -> Seq<Seq<char>> {
    args.map_values(|arg: String| arg@)
}

/// The text inside, where there is one.
pub open spec fn text_of(text: Option<String>) -> Option<Seq<char>> {
    match text {
        Some(text) => Some(text@),
        None => None,
    }
}

/// A number that is written out in decimal reads back as itself.
pub proof fn law_numbers_read_back(value: u64, max: u64)
    requires
        value <= max,
    ensures
        number(decimal(value as nat), max) == Ok::<u64, NumberError>(value),
{
    let text = decimal(value as nat);
    lemma_decimal_digits(value as nat);
    lemma_all_digits(text);
    assert(is_digit(text[0]));
    assert(unsigned_part(text) == text);
    assert(text.take(text.len() as int) =~= text);
}

/// Decimal numbers hold digits only, and at least one.
proof fn lemma_decimal_digits(value: nat)
    ensures
        decimal(value).len() > 0,
        forall|i: int| 0 <= i < decimal(value).len() ==> is_digit(#[trigger] decimal(value)[i]),
        digits_value(decimal(value)) == value,
    decreases value,
{
    let text = decimal(value);
    if value < 10 {
        assert(text.drop_last() =~= Seq::empty());
        assert(digits_value(Seq::empty()) == 0);
    } else {
        lemma_decimal_digits(value / 10);
        assert(text.drop_last() =~= decimal(value / 10));
        assert forall|i: int| 0 <= i < text.len() implies is_digit(#[trigger] text[i]) by {
            if i < text.len() - 1 {
                assert(text[i] == decimal(value / 10)[i]);
            }
        }
    }
}

/// Where everything is a digit, all of it is at the front.
proof fn lemma_all_digits(text: Seq<char>)
    requires
        forall|i: int| 0 <= i < text.len() ==> is_digit(#[trigger] text[i]),
    ensures
        leading_digits(text) == text.len(),
    decreases text.len(),
{
    if text.len() > 0 {
        let rest = text.skip(1);
        assert forall|i: int| 0 <= i < rest.len() implies is_digit(#[trigger] rest[i]) by {
            assert(rest[i] == text[i + 1]);
        }
        lemma_all_digits(rest);
    }
}

} // verus!
