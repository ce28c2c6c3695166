//! Hexadecimal text.
use vstd::prelude::*;
use vstd::string::*;
use crate::text::decimal;
use vstd::utf8::{encode_utf8, is_ascii_chars, is_ascii_chars_encode_utf8};

verus! {

/// Why a text is not the hexadecimal form of a byte string.
#[derive(Clone, Copy, Debug, PartialEq, Eq)]
pub enum HexError {
    /// The byte at `index`, shown as the character `c`, is no hexadecimal digit.
    InvalidHexCharacter { c: char, index: usize },
    /// The text holds an odd number of bytes.
    OddLength,
    /// The text does not fit a container of fixed size.
    InvalidStringLength,
}

/// The value of a hexadecimal digit of either case.
pub open spec fn nibble(digit: u8) -> Option<nat> {
    if 48 <= digit <= 57 {
        Some((digit - 48) as nat)
    } else if 65 <= digit <= 70 {
        Some((digit - 55) as nat)
    } else if 97 <= digit <= 102 {
        Some((digit - 87) as nat)
    } else {
        None
    }
}

/// The first position at or after `from` that holds no hexadecimal digit.
pub open spec fn first_non_digit(text: Seq<u8>, from: nat) -> Option<nat>
    decreases text.len() - from,
{
    if from >= text.len() {
        None
    } else if nibble(text[from as int]) is None {
        Some(from)
    } else {
        first_non_digit(text, from + 1)
    }
}

/// The bytes written as pairs of digits in `text`.
pub open spec fn paired(text: Seq<u8>) -> Seq<u8> {
    Seq::new(
        text.len() / 2,
        |i: int| (nibble(text[2 * i])->0 * 16 + nibble(text[2 * i + 1])->0) as u8,
    )
}

/// What hexadecimal `text` stands for: an even number of digits of either
/// case, two to a byte.
pub open spec fn hex_decoded(text: Seq<u8>) -> Result<Seq<u8>, HexError> {
    if text.len() % 2 != 0 {
        Err(HexError::OddLength)
    } else {
        match first_non_digit(text, 0) {
            Some(at) => Err(
                HexError::InvalidHexCharacter { c: text[at as int] as char, index: at as usize },
            ),
            None => Ok(paired(text)),
        }
    }
}

/// The lower-case digit of a number below sixteen.
pub open spec fn hex_digit(value: nat) -> char {
    if value < 10 {
        (48 + value) as char
    } else {
        (87 + value) as char
    }
}

/// `bytes` in lower-case hexadecimal, two digits to a byte.
pub open spec fn hex_encoded(bytes: Seq<u8>) -> Seq<char> {
    Seq::new(
        2 * bytes.len(),
        |i: int|
            if i % 2 == 0 {
                hex_digit(bytes[i / 2] as nat / 16)
            } else {
                hex_digit(bytes[i / 2] as nat % 16)
            },
    )
}

/// `bytes` in hexadecimal behind `0x`.
pub open spec fn prefixed_hex(bytes: Seq<u8>) -> Seq<char> {
    "0x"@ + hex_encoded(bytes)
}

/// Whether `text` starts with `0x`.
pub open spec fn has_0x(text: Seq<char>) -> bool {
    text.len() >= 2 && text[0] == '0' && text[1] == 'x'
}

/// `text` without one leading `0x`, if it has one.
pub open spec fn without_0x(text: Seq<char>) -> Seq<char> {
    if has_0x(text) {
        text.skip(2)
    } else {
        text
    }
}

/// `text` without any of the `0x` that it repeats at its start.
pub open spec fn without_any_0x(text: Seq<char>) -> Seq<char>
    decreases text.len(),
{
    if has_0x(text) {
        without_any_0x(text.skip(2))
    } else {
        text
    }
}

/// A character as `{:?}` prints it.
pub uninterp spec fn char_debug(c: char) -> Seq<char>;

/// The message that goes with a [`HexError`].
pub open spec fn hex_error_text(error: HexError) -> Seq<char> {
    match error {
        HexError::InvalidHexCharacter { c, index } => "Invalid character "@ + char_debug(c)
            + " at position "@ + decimal(index as nat),
        HexError::OddLength => "Odd number of digits"@,
        HexError::InvalidStringLength => "Invalid string length"@,
    }
}

/// Calls `hex::decode`. Trusted: it accepts exactly an even number of
/// hexadecimal digits of either case, reads two to a byte, and otherwise
/// reports an odd length first, then the first byte that is no digit.
#[verifier::external_body]
pub(crate) fn decode(text: &[u8]) -> (result: Result<Vec<u8>, HexError>)
    ensures
        match (result, hex_decoded(text@)) {
            (Ok(bytes), Ok(expected)) => bytes@ == expected,
            (Err(error), Err(expected)) => error == expected,
            _ => false,
        },
{
    match hex::decode(text) {
        Ok(bytes) => Ok(bytes),
        Err(hex::FromHexError::InvalidHexCharacter { c, index }) => Err(
            HexError::InvalidHexCharacter { c, index },
        ),
        Err(hex::FromHexError::OddLength) => Err(HexError::OddLength),
        Err(hex::FromHexError::InvalidStringLength) => Err(HexError::InvalidStringLength),
    }
}

/// Calls `hex::encode`. Trusted: two lower-case digits for each byte, in order.
#[verifier::external_body]
pub(crate) fn encode(bytes: &[u8]) -> (text: String)
    ensures
        text@ == hex_encoded(bytes@),
{
    hex::encode(bytes)
}

/// Calls the `Display` of `hex::FromHexError`. Trusted: the fixed messages, and
/// for an invalid character its `Debug` form and its position in decimal.
#[verifier::external_body]
fn error_message(error: HexError) -> (text: String)
    ensures
        match error {
            HexError::InvalidHexCharacter { c, index } => text@ == "Invalid character "@
                + char_debug(c) + " at position "@ + decimal(index as nat),
            HexError::OddLength => text@ == "Odd number of digits"@,
            HexError::InvalidStringLength => text@ == "Invalid string length"@,
        },
{
    match error {
        HexError::InvalidHexCharacter { c, index } => hex::FromHexError::InvalidHexCharacter {
            c,
            index,
        },
        HexError::OddLength => hex::FromHexError::OddLength,
        HexError::InvalidStringLength => hex::FromHexError::InvalidStringLength,
    }.to_string()
}

impl HexError {
    /// The message of the error.
    pub fn message(&self) -> (text: String)
        ensures
            text@ == hex_error_text(*self),
    {
        error_message(*self)
    }
}

/// Writes `bytes` in hexadecimal behind `0x`.
pub fn encode_prefixed(bytes: &[u8]) -> (text: String)
    ensures
        text@ == prefixed_hex(bytes@),
{
    let mut text: String = "0x".to_string();
    text.append(encode(bytes).as_str());
    text
}

/// Drops one leading `0x`, if there is one.
pub fn strip_0x(text: &str) -> (rest: &str)
    ensures
        rest@ == without_0x(text@),
{
    let len: usize = text.unicode_len();
    if len >= 2 && text.get_char(0) == '0' && text.get_char(1) == 'x' {
        let rest: &str = text.substring_char(2, len);
        assert(rest@ =~= text@.skip(2));
        rest
    } else {
        text
    }
}

/// Drops every `0x` that `text` repeats at its start.
pub fn trim_0x(text: &str) -> (rest: &str)
    ensures
        rest@ == without_any_0x(text@),
    decreases text@.len(),
{
    let len: usize = text.unicode_len();
    if len >= 2 && text.get_char(0) == '0' && text.get_char(1) == 'x' {
        let rest: &str = text.substring_char(2, len);
        assert(rest@ =~= text@.skip(2));
        trim_0x(rest)
    } else {
        text
    }
}

pub(crate) proof fn lemma_all_digits(text: Seq<u8>, from: nat)
    requires
        forall|i: int| 0 <= i < text.len() ==> nibble(#[trigger] text[i]) is Some,
    ensures
        first_non_digit(text, from) is None,
    decreases text.len() - from,
{
    if from < text.len() {
        lemma_all_digits(text, from + 1);
    }
}

/// Decoding undoes encoding.
pub proof fn lemma_decode_undoes_encode(bytes: Seq<u8>)
    ensures
        hex_decoded(encode_utf8(hex_encoded(bytes))) == Ok::<Seq<u8>, HexError>(bytes),
{
    let chars = hex_encoded(bytes);
    let text = encode_utf8(chars);
    assert forall|i: int| 0 <= i < chars.len() implies {
        &&& 0 <= #[trigger] chars[i] as int
        &&& chars[i] as int <= 127
    } by {
        assert(0 <= i / 2 < bytes.len());
    }
    assert(is_ascii_chars(chars));
    is_ascii_chars_encode_utf8(chars);
    assert forall|i: int| 0 <= i < text.len() implies nibble(#[trigger] text[i]) == Some(
        if i % 2 == 0 {
            bytes[i / 2] as nat / 16
        } else {
            bytes[i / 2] as nat % 16
        },
    ) by {
        assert(text[i] == chars[i] as u8);
    }
    lemma_all_digits(text, 0);
    assert(paired(text) =~= bytes) by {
        assert forall|i: int| 0 <= i < bytes.len() implies paired(text)[i] == bytes[i] by {
            assert(nibble(text[2 * i]) == Some(bytes[i] as nat / 16));
            assert(nibble(text[2 * i + 1]) == Some(bytes[i] as nat % 16));
        }
    }
}

/// Hexadecimal text stands for the bytes that it was written from, with the
/// prefix and without.
pub proof fn lemma_hex_round_trip(bytes: Seq<u8>)
    ensures
        hex_decoded(encode_utf8(without_0x(prefixed_hex(bytes)))) == Ok::<Seq<u8>, HexError>(bytes),
        hex_decoded(encode_utf8(without_0x(hex_encoded(bytes)))) == Ok::<Seq<u8>, HexError>(bytes),
{
    reveal_strlit("0x");
    assert(without_0x(prefixed_hex(bytes)) =~= hex_encoded(bytes));
    assert(!has_0x(hex_encoded(bytes)));
    lemma_decode_undoes_encode(bytes);
}

/// The prefix is optional: text behind `0x` means the same as the text alone,
/// unless that text starts with `0x` itself.
pub proof fn lemma_prefix_is_optional(text: Seq<char>)
    requires
        !has_0x(text),
    ensures
        without_0x("0x"@ + text) == without_0x(text),
{
    reveal_strlit("0x");
    assert(("0x"@ + text).skip(2) =~= text);
}

} // verus!
