//! Unique identifiers: 128-bit values that are written as 32 hexadecimal
//! digits in five groups of 8, 4, 4, 4 and 12, with a hyphen between groups.

use vstd::prelude::*;
use crate::error::DecodeError;

verus! {

/// A unique identifier, held as the number that its 32 digits spell.
#[derive(Clone, Copy, Debug, PartialEq, Eq, Structural)]
pub struct Identifier {
    pub value: u128,
}

/// Whether `c` is a hexadecimal digit, in either case.
pub open spec fn is_hex(c: char) -> bool {
    ('0' <= c <= '9') || ('a' <= c <= 'f') || ('A' <= c <= 'F')
}

/// The number that the hexadecimal digit `c` stands for.
pub open spec fn hex_value(c: char) -> nat {
    if '0' <= c <= '9' {
        (c as int - '0' as int) as nat
    } else if 'a' <= c <= 'f' {
        (c as int - 'a' as int + 10) as nat
    } else {
        (c as int - 'A' as int + 10) as nat
    }
}

/// The sixteen digits in lower case, each at the place of its value.
pub open spec fn lower_digits() -> Seq<char> {
    seq!['0', '1', '2', '3', '4', '5', '6', '7', '8', '9', 'a', 'b', 'c', 'd', 'e', 'f']
}

/// The places of the four hyphens in the grouped form.
pub open spec fn is_hyphen_place(i: int) -> bool {
    i == 8 || i == 13 || i == 18 || i == 23
}

/// Whether `text` is in the grouped form: 36 characters, a hyphen at each of
/// the four hyphen places and a hexadecimal digit everywhere else.
pub open spec fn is_grouped(text: Seq<char>) -> bool {
    &&& text.len() == 36
    &&& forall|i: int|
        0 <= i < 36 ==> if is_hyphen_place(i) {
            #[trigger] text[i] == '-'
        } else {
            is_hex(text[i])
        }
}

/// The 32 digits of a text in the grouped form, with the hyphens left out.
pub open spec fn grouped_digits(text: Seq<char>) -> Seq<char> {
    text.subrange(0, 8) + text.subrange(9, 13) + text.subrange(14, 18) + text.subrange(19, 23)
        + text.subrange(24, 36)
}

/// The number that a row of hexadecimal digits spells, the first digit
/// weighing most.
pub open spec fn hex_number(digits: Seq<char>) -> nat
    decreases digits.len(),
{
    if digits.len() == 0 {
        0
    } else {
        16 * hex_number(digits.drop_last()) + hex_value(digits.last())
    }
}

/// The number that a text in the grouped form spells.
pub open spec fn grouped_value(text: Seq<char>) -> nat {
    hex_number(grouped_digits(text))
}

/// The last `width` hexadecimal digits of `value`, in lower case.
pub open spec fn hex_text(value: nat, width: nat) -> Seq<char>
    decreases width,
{
    if width == 0 {
        Seq::empty()
    } else {
        hex_text(value / 16, (width - 1) as nat).push(lower_digits()[(value % 16) as int])
    }
}

/// The grouped form of `value`, in lower case.
pub open spec fn grouped_text(value: nat) -> Seq<char> {
    let d = hex_text(value, 32);
    d.subrange(0, 8) + seq!['-'] + d.subrange(8, 12) + seq!['-'] + d.subrange(12, 16) + seq!['-']
        + d.subrange(16, 20) + seq!['-'] + d.subrange(20, 32)
}

/// What decoding `text` as an identifier gives: the number that its digits
/// spell where the text is in the grouped form, and a failure everywhere else.
pub open spec fn decoded_identifier(text: Seq<char>) -> Result<Identifier, DecodeError> {
    if is_grouped(text) {
        Ok(Identifier { value: grouped_value(text) as u128 })
    } else {
        Err(DecodeError::InvalidIdentifier)
    }
}

/// 16 to the power `n`.
pub open spec fn pow16(n: nat) -> nat
    decreases n,
{
    if n == 0 {
        1
    } else {
        16 * pow16((n - 1) as nat)
    }
}

/// `uuid::Uuid::parse_str`, followed by `Uuid::as_u128`.
///
/// Of a text in the grouped form the parser reads the 32 digits, in either
/// case, as 16 bytes in the order written, and `as_u128` reads those bytes
/// with the first weighing most. The parser also takes three other forms;
/// nothing is claimed of a text that is not in the grouped form.
#[verifier::external_body]
fn parse_grouped(text: &str) -> (value: Option<u128>)
    ensures
        is_grouped(text@) ==> value is Some,
        is_grouped(text@) ==> value->0 as nat == grouped_value(text@),
{
    uuid::Uuid::parse_str(text).ok().map(|id| id.as_u128())
}

/// `uuid::Uuid::from_u128`, then `Uuid::hyphenated` and its `to_string`.
///
/// The bytes of the value, the weightiest first, are written as two
/// lower-case digits each, with hyphens after the 8th, 12th, 16th and 20th
/// digit.
#[verifier::external_body]
fn format_grouped(value: u128) -> (text: String)
    ensures
        text@ == grouped_text(value as nat),
{
    uuid::Uuid::from_u128(value).hyphenated().to_string()
}

/// Whether `text` is in the grouped form.
pub fn is_grouped_text(text: &str) -> (ok: bool)
    ensures
        ok == is_grouped(text@),
{
    broadcast use vstd::string::is_ascii_spec_bytes;

    if !text.is_ascii() {
        return false;
    }
    if text.as_bytes().len() != 36 {
        return false;
    }
    let mut i: usize = 0;
    while i < 36
        invariant
            0 <= i <= 36,
            text.is_ascii(),
            text@.len() == 36,
            forall|j: int|
                0 <= j < i ==> if is_hyphen_place(j) {
                    #[trigger] text@[j] == '-'
                } else {
                    is_hex(text@[j])
                },
        decreases 36 - i,
    {
        let b: u8 = text.get_ascii(i);
        let hyphen_place = i == 8 || i == 13 || i == 18 || i == 23;
        let fits = if hyphen_place {
            b == 45
        } else {
            (48 <= b && b <= 57) || (97 <= b && b <= 102) || (65 <= b && b <= 70)
        };
        if !fits {
            return false;
        }
        i = i + 1;
    }
    true
}

impl Identifier {
    /// Decodes an identifier from its grouped form. A text in any other form
    /// is refused.
    pub fn decode(text: &str) -> (out: Result<Identifier, DecodeError>)
        ensures
            out == decoded_identifier(text@),
    {
        if !is_grouped_text(text) {
            return Err(DecodeError::InvalidIdentifier);
        }
        match parse_grouped(text) {
            Some(value) => Ok(Identifier { value }),
            None => Err(DecodeError::InvalidIdentifier),
        }
    }

    /// Encodes the identifier in the grouped form, in lower case.
    pub fn encode(&self) -> (text: String)
        ensures
            text@ == grouped_text(self.value as nat),
    {
        format_grouped(self.value)
    }
}

/// A row of `width` digits has `width` characters, each of them a digit in
/// lower case that stands for its own place value.
pub proof fn lemma_hex_text_digits(value: nat, width: nat)
    ensures
        hex_text(value, width).len() == width,
        forall|i: int| 0 <= i < width ==> is_hex(#[trigger] hex_text(value, width)[i]),
    decreases width,
{
    if width > 0 {
        lemma_hex_text_digits(value / 16, (width - 1) as nat);
    }
}

/// The digits written for a value that fits in `width` digits spell that
/// value.
pub proof fn lemma_hex_number_of_text(value: nat, width: nat)
    requires
        value < pow16(width),
    ensures
        hex_number(hex_text(value, width)) == value,
    decreases width,
{
    if width > 0 {
        let rest = hex_text(value / 16, (width - 1) as nat);
        let text = hex_text(value, width);
        lemma_hex_number_of_text(value / 16, (width - 1) as nat);
        assert(text.drop_last() =~= rest);
    }
}

/// A row of hexadecimal digits spells a number below 16 to the power of its
/// length.
pub proof fn lemma_hex_number_bound(digits: Seq<char>)
    requires
        forall|i: int| 0 <= i < digits.len() ==> is_hex(#[trigger] digits[i]),
    ensures
        hex_number(digits) < pow16(digits.len()),
    decreases digits.len(),
{
    if digits.len() > 0 {
        lemma_hex_number_bound(digits.drop_last());
    }
}

/// The number that a text in the grouped form spells fits in 128 bits.
pub proof fn lemma_grouped_value_fits(text: Seq<char>)
    requires
        is_grouped(text),
    ensures
        grouped_value(text) <= u128::MAX,
{
    let digits = grouped_digits(text);
    lemma_hex_number_bound(digits);
    reveal_with_fuel(pow16, 33);
}

/// A 128-bit value fits in 32 hexadecimal digits.
pub proof fn lemma_u128_fits(value: u128)
    ensures
        (value as nat) < pow16(32),
{
    reveal_with_fuel(pow16, 33);
}

/// Decoding what was encoded gives the identifier back, for every
/// identifier.
pub proof fn lemma_identifier_round_trip(id: Identifier)
    ensures
        is_grouped(grouped_text(id.value as nat)),
        decoded_identifier(grouped_text(id.value as nat)) == Ok::<Identifier, DecodeError>(id),
{
    let value = id.value as nat;
    let d = hex_text(value, 32);
    let text = grouped_text(value);
    lemma_hex_text_digits(value, 32);
    lemma_u128_fits(id.value);
    lemma_hex_number_of_text(value, 32);
    assert(grouped_digits(text) =~= d);
}

/// Encoding a decoded identifier and decoding it again gives the same
/// identifier: the written form may change its case, the value does not.
pub proof fn lemma_identifier_stable(text: Seq<char>)
    ensures
        decoded_identifier(text) matches Ok(id) ==> decoded_identifier(
            grouped_text(id.value as nat),
        ) == decoded_identifier(text),
{
    if let Ok(id) = decoded_identifier(text) {
        lemma_identifier_round_trip(id);
    }
}

} // verus!
