//! Narrowing of Solidity values and parsing of command-line text.
use vstd::prelude::*;
use vstd::string::*;
use vstd::utf8::encode_utf8;
use crate::bytes::{word_from, Word};
use crate::calldata::{Value, ValueView};
use crate::hex_text::{decode, hex_decoded, hex_error_text, strip_0x, without_0x};
use crate::u256::{decimal_value, DecimalError, U256};

verus! {

/// A Solidity value of another type than the one asked for.
#[derive(Clone, Copy, Debug, PartialEq, Eq)]
pub enum ConvertError {
    ExpectedFixedBytes,
    ExpectedUint,
}

impl ConvertError {
    /// The message of the error.
    pub fn message(&self) -> (text: &'static str)
        ensures
            match self {
                ConvertError::ExpectedFixedBytes => text@ == "expected FixedBytes value"@,
                ConvertError::ExpectedUint => text@ == "expected Uint value"@,
            },
    {
        match self {
            ConvertError::ExpectedFixedBytes => "expected FixedBytes value",
            ConvertError::ExpectedUint => "expected Uint value",
        }
    }
}

/// What a value is as a 32-byte word.
pub open spec fn fixed_bytes32_of(value: ValueView) -> Result<Seq<u8>, ConvertError> {
    match value {
        ValueView::FixedBytes(bytes) => Ok(bytes),
        _ => Err(ConvertError::ExpectedFixedBytes),
    }
}

/// What a value is as an unsigned integer.
pub open spec fn uint_of(value: ValueView) -> Result<nat, ConvertError> {
    match value {
        ValueView::Uint(number) => Ok(number),
        _ => Err(ConvertError::ExpectedUint),
    }
}

/// A fixed byte string, if there is one, holds 32 bytes.
pub open spec fn is_word_sized(value: ValueView) -> bool {
    value matches ValueView::FixedBytes(bytes) ==> bytes.len() == 32
}

/// The message that goes with a [`DecimalError`].
pub open spec fn decimal_error_text(error: DecimalError) -> Seq<char> {
    match error {
        DecimalError::InvalidCharacter => "a character is not in the range 0-9"@,
        DecimalError::InvalidLength => "the number is too large for the type"@,
    }
}

/// Takes the word out of a `bytes32` value.
pub fn as_fixed_bytes32(value: Value) -> (result: Result<Word, ConvertError>)
    requires
        is_word_sized(value@),
    ensures
        match (result, fixed_bytes32_of(value@)) {
            (Ok(word), Ok(expected)) => word@ == expected,
            (Err(error), Err(expected)) => error == expected,
            _ => false,
        },
{
    match value {
        Value::FixedBytes(bytes) => Ok(word_from(&bytes)),
        _ => Err(ConvertError::ExpectedFixedBytes),
    }
}

/// Takes the number out of a `uint256` value.
pub fn as_uint(value: Value) -> (result: Result<U256, ConvertError>)
    ensures
        match (result, uint_of(value@)) {
            (Ok(number), Ok(expected)) => number@ == expected,
            (Err(error), Err(expected)) => error == expected,
            _ => false,
        },
{
    match value {
        Value::Uint(number) => Ok(number),
        _ => Err(ConvertError::ExpectedUint),
    }
}

/// Parses an amount in wei, written in decimal.
pub fn parse_wei(s: &str) -> (result: Result<U256, String>)
    ensures
        match (result, decimal_value(encode_utf8(s@))) {
            (Ok(amount), Ok(expected)) => amount@ == expected,
            (Err(text), Err(error)) => text@ == decimal_error_text(error),
            _ => false,
        },
{
    match U256::from_dec_str(s) {
        Ok(amount) => Ok(amount),
        Err(DecimalError::InvalidCharacter) => Err(
            "a character is not in the range 0-9".to_string(),
        ),
        Err(DecimalError::InvalidLength) => Err("the number is too large for the type".to_string()),
    }
}

/// Parses bytes in hexadecimal, `0x`-prefixed or bare.
pub fn parse_hex_bytes(s: &str) -> (result: Result<Vec<u8>, String>)
    ensures
        match (result, hex_decoded(encode_utf8(without_0x(s@)))) {
            (Ok(bytes), Ok(expected)) => bytes@ == expected,
            (Err(text), Err(error)) => text@ == hex_error_text(error),
            _ => false,
        },
{
    match decode(strip_0x(s).as_bytes()) {
        Ok(bytes) => Ok(bytes),
        Err(error) => Err(error.message()),
    }
}

} // verus!
