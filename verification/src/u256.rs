//! Unsigned 256-bit integers.
use vstd::prelude::*;
use vstd::arithmetic::power::pow;
use vstd::string::*;
use vstd::utf8::{encode_utf8, is_ascii_chars, is_ascii_chars_encode_utf8};
use crate::bytes::Word;
use crate::text::{decimal, digit_char};

verus! {

/// An unsigned 256-bit integer as four 64-bit limbs, the lowest first.
#[derive(Clone, Copy, Debug, PartialEq, Eq)]
pub struct U256 {
    pub limbs: [u64; 4],
}

/// Why a text is not the decimal form of a [`U256`].
#[derive(Clone, Copy, Debug, PartialEq, Eq)]
pub enum DecimalError {
    /// A character is not a decimal digit.
    InvalidCharacter,
    /// The number does not fit.
    InvalidLength,
}

/// One past the largest [`U256`].
pub open spec fn u256_bound() -> nat {
    0x1_0000_0000_0000_0000_0000_0000_0000_0000_0000_0000_0000_0000_0000_0000_0000_0000nat
}

impl View for U256 {
    type V = nat;

    open spec fn view(&self) -> nat {
        self.limbs@[0] as nat
            + self.limbs@[1] as nat * 0x1_0000_0000_0000_0000nat
            + self.limbs@[2] as nat * 0x1_0000_0000_0000_0000_0000_0000_0000_0000nat
            + self.limbs@[3] as nat
            * 0x1_0000_0000_0000_0000_0000_0000_0000_0000_0000_0000_0000_0000nat
    }
}

/// The number that `bytes` spell in base 256, most significant byte first.
pub open spec fn be_value(bytes: Seq<u8>) -> nat
    decreases bytes.len(),
{
    if bytes.len() == 0 {
        0
    } else {
        be_value(bytes.drop_last()) * 256 + bytes.last() as nat
    }
}

/// The last `len` base-256 digits of `value`, most significant first.
pub open spec fn be_bytes(value: nat, len: nat) -> Seq<u8>
    decreases len,
{
    if len == 0 {
        Seq::empty()
    } else {
        be_bytes(value / 256, (len - 1) as nat).push((value % 256) as u8)
    }
}

/// Whether a byte is an ASCII decimal digit.
pub open spec fn is_decimal_digit(byte: u8) -> bool {
    48 <= byte <= 57
}

/// The decimal digits that `text` starts with.
pub open spec fn leading_digits(text: Seq<u8>) -> Seq<u8>
    decreases text.len(),
{
    if text.len() == 0 || !is_decimal_digit(text[0]) {
        Seq::empty()
    } else {
        seq![text[0]] + leading_digits(text.skip(1))
    }
}

/// The number that decimal digits spell.
pub open spec fn digits_value(digits: Seq<u8>) -> nat
    decreases digits.len(),
{
    if digits.len() == 0 {
        0
    } else {
        digits_value(digits.drop_last()) * 10 + (digits.last() - 48) as nat
    }
}

/// What decimal `text` stands for. The digits are read from the left, so a
/// number that already does not fit is reported before a later character that
/// is no digit. The empty text stands for zero.
pub open spec fn decimal_value(text: Seq<u8>) -> Result<nat, DecimalError> {
    let digits = leading_digits(text);
    if digits_value(digits) >= u256_bound() {
        Err(DecimalError::InvalidLength)
    } else if digits.len() < text.len() {
        Err(DecimalError::InvalidCharacter)
    } else {
        Ok(digits_value(digits))
    }
}

/// Byte strings of one length that spell the same number are the same.
pub proof fn lemma_be_value_injective(a: Seq<u8>, b: Seq<u8>)
    requires
        a.len() == b.len(),
        be_value(a) == be_value(b),
    ensures
        a == b,
    decreases a.len(),
{
    if a.len() > 0 {
        lemma_be_value_injective(a.drop_last(), b.drop_last());
        assert(a =~= a.drop_last().push(a.last()));
        assert(b =~= b.drop_last().push(b.last()));
    } else {
        assert(a =~= b);
    }
}

/// Writing the number that bytes spell gives the bytes back.
pub proof fn lemma_bytes_round_trip(bytes: Seq<u8>)
    ensures
        be_bytes(be_value(bytes), bytes.len()) == bytes,
    decreases bytes.len(),
{
    if bytes.len() > 0 {
        lemma_bytes_round_trip(bytes.drop_last());
        assert(bytes =~= bytes.drop_last().push(bytes.last()));
    } else {
        assert(be_bytes(0, 0) =~= bytes);
    }
}

/// Reading the bytes that spell a number gives the number back.
pub proof fn lemma_number_round_trip(value: U256)
    ensures
        be_value(be_bytes(value@, 32)) == value@,
{
    assert(pow(256, 32) == u256_bound()) by {
        reveal_with_fuel(pow, 33);
    }
    lemma_be_bytes_value(value@, 32);
}

proof fn lemma_be_bytes_value(value: nat, len: nat)
    requires
        value < pow(256, len),
    ensures
        be_bytes(value, len).len() == len,
        be_value(be_bytes(value, len)) == value,
    decreases len,
{
    reveal(pow);
    if len > 0 {
        lemma_be_bytes_value(value / 256, (len - 1) as nat);
        let shorter = be_bytes(value / 256, (len - 1) as nat);
        assert(shorter.push((value % 256) as u8).drop_last() =~= shorter);
    }
}

pub(crate) proof fn lemma_digits_lead(digits: Seq<u8>)
    requires
        forall|i: int| 0 <= i < digits.len() ==> is_decimal_digit(#[trigger] digits[i]),
    ensures
        leading_digits(digits) == digits,
    decreases digits.len(),
{
    if digits.len() > 0 {
        assert forall|i: int| 0 <= i < digits.skip(1).len() implies is_decimal_digit(
            #[trigger] digits.skip(1)[i],
        ) by {
            assert(digits.skip(1)[i] == digits[i + 1]);
        }
        lemma_digits_lead(digits.skip(1));
        assert(seq![digits[0]] + digits.skip(1) =~= digits);
    } else {
        assert(leading_digits(digits) =~= digits);
    }
}

/// A numeral is made of decimal digits that spell its number.
proof fn lemma_numeral_digits(number: nat)
    ensures
        ({
            let digits = decimal(number).map_values(|c: char| c as u8);
            &&& digits_value(digits) == number
            &&& forall|i: int| 0 <= i < digits.len() ==> is_decimal_digit(#[trigger] digits[i])
        }),
        forall|i: int|
            0 <= i < decimal(number).len() ==> 48 <= #[trigger] decimal(number)[i] as int <= 57,
    decreases number,
{
    let digits = decimal(number).map_values(|c: char| c as u8);
    if number < 10 {
        assert(digits =~= seq![(48 + number) as u8]);
        assert(digits.drop_last() =~= Seq::empty());
        assert(digits_value(digits.drop_last()) == 0);
    } else {
        lemma_numeral_digits(number / 10);
        let shorter = decimal(number / 10).map_values(|c: char| c as u8);
        assert(digits.drop_last() =~= shorter);
        assert(digits =~= shorter.push(digit_char(number % 10) as u8));
    }
}

/// An amount is read back from its decimal form.
pub proof fn lemma_decimal_round_trip(value: U256)
    ensures
        decimal_value(encode_utf8(decimal(value@))) == Ok::<nat, DecimalError>(value@),
{
    let chars = decimal(value@);
    let digits = chars.map_values(|c: char| c as u8);
    lemma_numeral_digits(value@);
    assert(is_ascii_chars(chars));
    is_ascii_chars_encode_utf8(chars);
    assert(encode_utf8(chars) =~= digits);
    lemma_digits_lead(digits);
}

impl U256 {
    /// Zero.
    pub fn zero() -> (value: U256)
        ensures
            value@ == 0,
    {
        U256 { limbs: [0, 0, 0, 0] }
    }

    /// The number `low`.
    pub fn from_u64(low: u64) -> (value: U256)
        ensures
            value@ == low,
    {
        U256 { limbs: [low, 0, 0, 0] }
    }

    /// Whether the number is zero.
    pub fn is_zero(&self) -> (zero: bool)
        ensures
            zero == (self@ == 0),
    {
        self.limbs[0] == 0 && self.limbs[1] == 0 && self.limbs[2] == 0 && self.limbs[3] == 0
    }

    /// The number as a `u64`, which it must fit.
    pub fn as_u64(&self) -> (low: u64)
        requires
            self@ <= u64::MAX,
        ensures
            low == self@,
    {
        self.limbs[0]
    }

    /// Whether `low` is less than the number.
    pub fn exceeds(&self, low: u64) -> (greater: bool)
        ensures
            greater == (self@ > low),
    {
        self.limbs[1] != 0 || self.limbs[2] != 0 || self.limbs[3] != 0 || self.limbs[0] > low
    }

    /// Calls `ethrex_common::U256::to_big_endian`. Trusted: the 32 bytes spell
    /// the number, most significant byte first.
    #[verifier::external_body]
    pub(crate) fn to_big_endian(&self) -> (bytes: Word)
        ensures
            bytes@ == be_bytes(self@, 32),
    {
        ethrex_common::U256(self.limbs).to_big_endian()
    }

    /// Calls `ethrex_common::U256::from_big_endian` on a word. Trusted: the
    /// number is the one that the bytes spell, most significant byte first.
    #[verifier::external_body]
    pub(crate) fn from_big_endian(bytes: &Word) -> (value: U256)
        ensures
            value@ == be_value(bytes@),
    {
        U256 { limbs: ethrex_common::U256::from_big_endian(bytes).0 }
    }

    /// Calls `ethrex_common::U256::from_dec_str`. Trusted: it reads the UTF-8
    /// bytes of `text` as [`decimal_value`] says.
    #[verifier::external_body]
    pub(crate) fn from_dec_str(text: &str) -> (result: Result<U256, DecimalError>)
        ensures
            match (result, decimal_value(encode_utf8(text@))) {
                (Ok(value), Ok(expected)) => value@ == expected,
                (Err(error), Err(expected)) => error == expected,
                _ => false,
            },
    {
        match ethrex_common::U256::from_dec_str(text) {
            Ok(value) => Ok(U256 { limbs: value.0 }),
            Err(ethrex_common::FromDecStrErr::InvalidCharacter) => Err(
                DecimalError::InvalidCharacter,
            ),
            Err(ethrex_common::FromDecStrErr::InvalidLength) => Err(DecimalError::InvalidLength),
        }
    }

    /// Calls the `Display` of `ethrex_common::U256`. Trusted: the decimal
    /// numeral, without leading zeros.
    #[verifier::external_body]
    pub(crate) fn to_decimal(&self) -> (text: String)
        ensures
            text@ == decimal(self@),
    {
        ethrex_common::U256(self.limbs).to_string()
    }
}

} // verus!
