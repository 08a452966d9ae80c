//! Text helpers: comparison, character appends, UTF-8 decoding, and numbers in
//! decimal and hexadecimal.
use vstd::prelude::*;
use vstd::string::*;
use vstd::utf8::*;

verus! {

/// `str::eq`: two string slices are equal exactly when they hold the same
/// characters in the same order.
pub assume_specification[ <str as PartialEq>::eq ](a: &str, b: &str) -> (same: bool)
    ensures
        same == (a@ == b@),
;

/// `String::push`: the given character is appended to the end.
pub assume_specification[ String::push ](text: &mut String, c: char)
    ensures
        final(text)@ == old(text)@.push(c),
;

/// The error of a failed UTF-8 decoding, carried through unread.
#[verifier::external_type_specification]
#[verifier::external_body]
pub struct ExUtf8Error(std::str::Utf8Error);

/// `std::str::from_utf8`: a slice that is valid UTF-8 is handed back as a
/// string slice over the same bytes, and any other slice is an error.
pub assume_specification<'a>[ std::str::from_utf8 ](bytes: &'a [u8]) -> (text: Result<
    &'a str,
    std::str::Utf8Error,
>)
    ensures
        text is Ok <==> valid_utf8(bytes@),
        text matches Ok(decoded) ==> decoded.spec_bytes() == bytes@,
;

/// What the `Debug` form of a string slice holds: the text in double quotes,
/// with quotes, backslashes and unprintable characters escaped.
pub uninterp spec fn debug_text(text: Seq<char>) -> Seq<char>;

/// `<str as Debug>::fmt`, by way of `format!`: the result is the `Debug` form
/// of the text. It depends on the text alone; the escapes themselves are not
/// spelled out.
#[verifier::external_body]
pub(crate) fn quoted(text: &str) -> (out: String)
    ensures
        out@ == debug_text(text@),
{
    format!("{text:?}")
}

/// The lower-case hexadecimal digit of `value`.
pub open spec fn hex_digit(value: int) -> char {
    if value < 10 {
        (48 + value) as char
    } else {
        (87 + value) as char
    }
}

/// Appends one hexadecimal digit.
fn push_hex_digit(text: &mut String, value: u8)
    requires
        value < 16,
    ensures
        final(text)@ == old(text)@.push(hex_digit(value as int)),
{
    if value < 10 {
        text.push((48 + value) as char);
    } else {
        text.push((87 + value) as char);
    }
}

/// `value` as eight hexadecimal digits.
pub open spec fn hex_word(value: u32) -> Seq<char> {
    Seq::new(8, |i: int| hex_digit(((value >> ((28 - 4 * i) as u32)) & 15) as int))
}

/// Appends `value` as eight hexadecimal digits.
pub fn push_hex_word(text: &mut String, value: u32)
    ensures
        final(text)@ == old(text)@ + hex_word(value),
{
    let mut i: u32 = 0;
    assert(text@ =~= old(text)@ + hex_word(value).take(0));
    while i < 8
        invariant
            i <= 8,
            text@ == old(text)@ + hex_word(value).take(i as int),
        decreases 8 - i,
    {
        let shift: u32 = 28 - 4 * i;
        let digit: u32 = (value >> shift) & 15;
        assert(digit < 16) by (bit_vector)
            requires
                digit == (value >> shift) & 15,
        ;
        push_hex_digit(text, digit as u8);
        i = i + 1;
        assert(text@ =~= old(text)@ + hex_word(value).take(i as int));
    }
    assert(hex_word(value).take(8) =~= hex_word(value));
}

/// `value` as sixteen hexadecimal digits.
pub open spec fn hex_double_word(value: u64) -> Seq<char> {
    hex_word((value >> 32) as u32) + hex_word((value & 0xffff_ffff) as u32)
}

/// `value` as sixteen hexadecimal digits.
pub fn hex16(value: u64) -> (text: String)
    ensures
        text@ == hex_double_word(value),
{
    assert(value >> 32 <= 0xffff_ffff) by (bit_vector);
    assert(value & 0xffff_ffff <= 0xffff_ffff) by (bit_vector);
    let mut text = String::new();
    push_hex_word(&mut text, (value >> 32) as u32);
    push_hex_word(&mut text, (value & 0xffff_ffff) as u32);
    text
}

/// `value` in decimal, without leading zeros.
pub open spec fn decimal(value: nat) -> Seq<char>
    decreases value,
{
    if value < 10 {
        seq![hex_digit(value as int)]
    } else {
        decimal(value / 10).push(hex_digit((value % 10) as int))
    }
}

/// Appends `value` in decimal.
pub fn push_decimal(text: &mut String, value: u128)
    ensures
        final(text)@ == old(text)@ + decimal(value as nat),
    decreases value,
{
    if value < 10 {
        push_hex_digit(text, value as u8);
        assert(text@ =~= old(text)@ + decimal(value as nat));
    } else {
        push_decimal(text, value / 10);
        push_hex_digit(text, (value % 10) as u8);
        assert(text@ =~= old(text)@ + decimal(value as nat));
    }
}

/// `value` in decimal, with a minus sign where it is negative.
pub open spec fn signed_decimal(value: int) -> Seq<char> {
    if value < 0 {
        "-"@ + decimal((-value) as nat)
    } else {
        decimal(value as nat)
    }
}

/// Appends `value` in decimal.
pub fn push_signed(text: &mut String, value: i32)
    ensures
        final(text)@ == old(text)@ + signed_decimal(value as int),
{
    let wide: i64 = value as i64;
    if wide < 0 {
        text.append("-");
        push_decimal(text, (-wide) as u128);
        assert(text@ =~= old(text)@ + signed_decimal(value as int));
    } else {
        push_decimal(text, wide as u128);
    }
}

/// An optional number, as `Some(..)` or `None`.
pub open spec fn optional_decimal(value: Option<i32>) -> Seq<char> {
    match value {
        Some(value) => "Some("@ + signed_decimal(value as int) + ")"@,
        None => "None"@,
    }
}

/// Appends an optional number.
pub fn push_optional(text: &mut String, value: Option<i32>)
    ensures
        final(text)@ == old(text)@ + optional_decimal(value),
{
    match value {
        Some(value) => {
            text.append("Some(");
            push_signed(text, value);
            text.append(")");
            assert(text@ =~= old(text)@ + optional_decimal(Some(value)));
        },
        None => {
            text.append("None");
        },
    }
}

/// `true` or `false`.
pub open spec fn truth(value: bool) -> Seq<char> {
    if value {
        "true"@
    } else {
        "false"@
    }
}

/// Appends `true` or `false`.
pub fn push_truth(text: &mut String, value: bool)
    ensures
        final(text)@ == old(text)@ + truth(value),
{
    if value {
        text.append("true");
    } else {
        text.append("false");
    }
}

/// Numbers with commas between them.
pub open spec fn joined(values: Seq<u128>) -> Seq<char>
    decreases values.len(),
{
    if values.len() == 0 {
        Seq::empty()
    } else if values.len() == 1 {
        decimal(values[0] as nat)
    } else {
        joined(values.drop_last()) + ", "@ + decimal(values.last() as nat)
    }
}

/// Numbers in square brackets.
pub open spec fn listed(values: Seq<u128>) -> Seq<char> {
    "["@ + joined(values) + "]"@
}

/// Appends numbers in square brackets.
pub fn push_list(text: &mut String, values: &Vec<u128>)
    ensures
        final(text)@ == old(text)@ + listed(values@),
{
    text.append("[");
    let mut i: usize = 0;
    assert(text@ =~= old(text)@ + ("["@ + joined(values@.take(0))));
    while i < values.len()
        invariant
            i <= values.len(),
            text@ == old(text)@ + ("["@ + joined(values@.take(i as int))),
        decreases values.len() - i,
    {
        if i > 0 {
            text.append(", ");
        }
        push_decimal(text, values[i]);
        i = i + 1;
        assert(values@.take(i as int).drop_last() =~= values@.take(i - 1));
        assert(text@ =~= old(text)@ + ("["@ + joined(values@.take(i as int))));
    }
    assert(values@.take(i as int) =~= values@);
    text.append("]");
    assert(text@ =~= old(text)@ + listed(values@));
}

/// 32-bit words as wider numbers.
pub open spec fn widened(values: Seq<u32>) -> Seq<u128> {
    values.map_values(|value: u32| value as u128)
}

/// Appends 32-bit words in square brackets.
pub fn push_words(text: &mut String, values: &Vec<u32>)
    ensures
        final(text)@ == old(text)@ + listed(widened(values@)),
{
    let mut wide: Vec<u128> = Vec::new();
    let mut i: usize = 0;
    while i < values.len()
        invariant
            i <= values.len(),
            wide@ == widened(values@.take(i as int)),
        decreases values.len() - i,
    {
        wide.push(values[i] as u128);
        i = i + 1;
        assert(wide@ =~= widened(values@.take(i as int)));
    }
    assert(values@.take(i as int) =~= values@);
    push_list(text, &wide);
}

/// One indented, dashed line for each item, after `head`.
pub open spec fn bullets(head: Seq<char>, items: Seq<&'static str>) -> Seq<char>
    decreases items.len(),
{
    if items.len() == 0 {
        head
    } else {
        bullets(head, items.drop_last()) + "  - "@ + items.last()@ + "\n"@
    }
}

/// Appends one indented, dashed line for each item.
pub fn push_bullets(text: &mut String, items: &Vec<&'static str>)
    ensures
        final(text)@ == bullets(old(text)@, items@),
{
    let mut i: usize = 0;
    assert(items@.take(0) =~= Seq::empty());
    while i < items.len()
        invariant
            i <= items.len(),
            text@ == bullets(old(text)@, items@.take(i as int)),
        decreases items.len() - i,
    {
        text.append("  - ");
        text.append(items[i]);
        text.append("\n");
        i = i + 1;
        assert(items@.take(i as int).drop_last() =~= items@.take(i - 1));
    }
    assert(items@.take(i as int) =~= items@);
}

} // verus!
