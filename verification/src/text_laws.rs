//! What the texts are: numerals, hexadecimal, and the lines of the commands.
use vstd::prelude::*;
use vstd::string::*;
use vstd::utf8::{
    encode_utf8,
    encode_utf8_decode_utf8,
    is_ascii_chars,
    is_ascii_chars_encode_utf8,
};
use crate::bytes::{Address, Word};
use crate::convert::{parse_hex_bytes, parse_wei};
use crate::hex_text::{
    char_debug,
    encode_prefixed,
    first_non_digit,
    has_0x,
    HexError,
    hex_encoded,
    lemma_all_digits,
    lemma_hex_round_trip,
    nibble,
    paired,
    prefixed_hex,
    strip_0x,
    trim_0x,
    without_0x,
    without_any_0x,
};
use crate::report::{
    balance_line,
    new_note_line,
    owner_line,
    salt_line,
    sent_line,
    status_line,
    withdrew_line,
};
use crate::text::{
    decimal,
    decimal_text,
    left_aligned,
    lines_view,
    right_aligned,
};
use crate::u256::{digits_value, is_decimal_digit, leading_digits, lemma_digits_lead, U256};

verus! {

/// Whether a character is a decimal digit.
pub open spec fn is_digit(c: char) -> bool {
    '0' <= c && c <= '9'
}

/// The number that decimal digits spell, the first digit first.
pub open spec fn numeral_value(digits: Seq<char>) -> nat
    decreases digits.len(),
{
    if digits.len() == 0 {
        0
    } else {
        10 * numeral_value(digits.drop_last()) + (digits.last() as int - '0' as int) as nat
    }
}

/// Whether `text` is the numeral of `number`: digits that spell it, without
/// leading zeros.
pub open spec fn is_numeral(text: Seq<char>, number: nat) -> bool {
    &&& text.len() > 0
    &&& forall|i: int| #![trigger text[i]] 0 <= i < text.len() ==> is_digit(text[i])
    &&& numeral_value(text) == number
    &&& text.len() > 1 ==> text[0] != '0'
}

/// Numbers are written as their numerals.
pub proof fn lemma_decimal_is_the_numeral(number: nat)
    ensures
        is_numeral(decimal(number), number),
        number > 0 ==> decimal(number)[0] != '0',
    decreases number,
{
    let text = decimal(number);
    if number < 10 {
        assert(text.drop_last() =~= Seq::empty());
        assert(numeral_value(text.drop_last()) == 0);
    } else {
        lemma_decimal_is_the_numeral(number / 10);
        assert(text.drop_last() =~= decimal(number / 10));
        assert(text[0] == decimal(number / 10)[0]);
        assert forall|i: int| #![trigger text[i]] 0 <= i < text.len() implies is_digit(
            text[i],
        ) by {
            if i < text.len() - 1 {
                assert(text[i] == decimal(number / 10)[i]);
            }
        }
    }
}

/// A number's text is its numeral.
pub proof fn lemma_number_is_written_out(number: u128, text: String)
    requires
        call_ensures(decimal_text, (number,), text),
    ensures
        is_numeral(text@, number as nat),
{
    lemma_decimal_is_the_numeral(number as nat);
}

/// Left alignment keeps the text and only adds spaces behind it, up to the
/// width; right alignment adds them before it.
pub proof fn lemma_alignment_only_adds_spaces(text: Seq<char>, width: nat)
    ensures
        ({
            let left = left_aligned(text, width);
            let right = right_aligned(text, width);
            let len: nat = if text.len() < width {
                width
            } else {
                text.len()
            };
            &&& left.len() == len
            &&& right.len() == len
            &&& left.take(text.len() as int) == text
            &&& right.skip(len - text.len()) == text
            &&& forall|i: int| #![trigger left[i]] text.len() <= i < len ==> left[i] == ' '
            &&& forall|i: int|
                #![trigger right[i]]
                0 <= i < len - text.len() ==> right[i] == ' '
        }),
{
    let left = left_aligned(text, width);
    let right = right_aligned(text, width);
    assert(left.take(text.len() as int) =~= text);
    assert(right.skip(right.len() - text.len()) =~= text);
}

/// The content of a list of lines is the lines, in order.
pub proof fn lemma_lines_by_content(lines: Seq<String>)
    ensures
        lines_view(lines).len() == lines.len(),
        forall|i: int|
            #![trigger lines[i]]
            0 <= i < lines.len() ==> lines_view(lines)[i] == lines[i]@,
{
}

/// Whether `c` is the lower-case hexadecimal digit of `value`.
pub open spec fn is_hex_digit_of(c: char, value: int) -> bool {
    &&& 0 <= value < 16
    &&& c as int == if value < 10 {
        '0' as int + value
    } else {
        'a' as int + value - 10
    }
}

/// Whether `text` spells `bytes` in hexadecimal from position `at` on, two
/// digits to a byte, and then ends.
pub open spec fn spells(text: Seq<char>, at: int, bytes: Seq<u8>) -> bool {
    &&& text.len() == at + 2 * bytes.len()
    &&& forall|i: int|
        #![trigger bytes[i]]
        0 <= i < bytes.len() ==> is_hex_digit_of(text[at + 2 * i], bytes[i] as int / 16)
            && is_hex_digit_of(text[at + 2 * i + 1], bytes[i] as int % 16)
}

/// Prefixed hexadecimal is `0x` and then every byte in two digits.
pub proof fn lemma_hex_spells_every_byte(bytes: Seq<u8>)
    ensures
        prefixed_hex(bytes)[0] == '0',
        prefixed_hex(bytes)[1] == 'x',
        spells(prefixed_hex(bytes), 2, bytes),
{
    reveal_strlit("0x");
    let text = prefixed_hex(bytes);
    assert forall|i: int| #![trigger bytes[i]] 0 <= i < bytes.len() implies is_hex_digit_of(
        text[2 + 2 * i],
        bytes[i] as int / 16,
    ) && is_hex_digit_of(text[2 + 2 * i + 1], bytes[i] as int % 16) by {
        assert(text[2 + 2 * i] == hex_encoded(bytes)[2 * i]);
        assert(text[2 + 2 * i + 1] == hex_encoded(bytes)[2 * i + 1]);
        assert((2 * i) / 2 == i && (2 * i) % 2 == 0);
        assert((2 * i + 1) / 2 == i && (2 * i + 1) % 2 == 1);
    }
}

/// Bytes are written in full.
pub proof fn lemma_bytes_are_written_out(bytes: &[u8], text: String)
    requires
        call_ensures(encode_prefixed, (bytes,), text),
    ensures
        text@[0] == '0',
        text@[1] == 'x',
        spells(text@, 2, bytes@),
{
    lemma_hex_spells_every_byte(bytes@);
}

/// Whether `text` starts with `0x`.
pub open spec fn is_prefixed(text: Seq<char>) -> bool {
    text.len() >= 2 && text[0] == '0' && text[1] == 'x'
}

/// One prefix is dropped where there is one, and nothing else.
pub proof fn lemma_one_prefix_is_stripped(text: &str, rest: &str)
    requires
        call_ensures(strip_0x, (text,), rest),
    ensures
        is_prefixed(text@) ==> rest@ == text@.skip(2),
        !is_prefixed(text@) ==> rest@ == text@,
{
}

/// Prefixes are dropped until there is none, and nothing else: what is left has
/// no prefix and stands behind `count` of them.
pub proof fn lemma_all_prefixes_are_trimmed(text: &str, rest: &str)
    requires
        call_ensures(trim_0x, (text,), rest),
    ensures
        !is_prefixed(rest@),
        exists|count: nat|
            #![trigger text@.skip(2 * count as int)]
            2 * count <= text@.len() && rest@ == text@.skip(2 * count as int) && forall|i: int|
                #![trigger text@[2 * i]]
                0 <= i < count ==> text@[2 * i] == '0' && text@[2 * i + 1] == 'x',
{
    let count = lemma_trimmed(text@);
    assert(rest@ == text@.skip(2 * count as int));
}

proof fn lemma_pair_at(text: Seq<char>, count: nat, j: int)
    requires
        0 <= j < count,
        forall|i: int|
            #![trigger text[2 * i]]
            0 <= i < count ==> text[2 * i] == '0' && text[2 * i + 1] == 'x',
    ensures
        text[2 * j] == '0',
        text[2 * j + 1] == 'x',
{
    assert(text[2 * j] == '0');
}

proof fn lemma_trimmed(text: Seq<char>) -> (count: nat)
    ensures
        !is_prefixed(without_any_0x(text)),
        2 * count <= text.len(),
        without_any_0x(text) == text.skip(2 * count as int),
        forall|i: int|
            #![trigger text[2 * i]]
            0 <= i < count ==> text[2 * i] == '0' && text[2 * i + 1] == 'x',
    decreases text.len(),
{
    if has_0x(text) {
        let rest = text.skip(2);
        let count = lemma_trimmed(rest);
        assert(rest.skip(2 * count as int) =~= text.skip(2 * (count + 1) as int));
        assert forall|i: int| #![trigger text[2 * i]] 0 <= i < count + 1 implies text[2 * i]
            == '0' && text[2 * i + 1] == 'x' by {
            if i > 0 {
                lemma_pair_at(rest, count, i - 1);
                assert(rest[2 * (i - 1)] == text[2 * i]);
                assert(rest[2 * (i - 1) + 1] == text[2 * i + 1]);
            }
        }
        count + 1
    } else {
        assert(text.skip(0) =~= text);
        0
    }
}

/// The value of a hexadecimal digit of either case.
pub open spec fn hex_value(c: char) -> int {
    if '0' <= c && c <= '9' {
        c as int - '0' as int
    } else if 'a' <= c && c <= 'f' {
        c as int - 'a' as int + 10
    } else if 'A' <= c && c <= 'F' {
        c as int - 'A' as int + 10
    } else {
        -1
    }
}

/// Hexadecimal digits behind at most one prefix are read two to a byte, in
/// order; only an odd number of them is refused.
pub proof fn lemma_hex_is_read_digit_by_digit(
    s: &str,
    result: Result<Vec<u8>, String>,
    digits: Seq<char>,
)
    requires
        call_ensures(parse_hex_bytes, (s,), result),
        digits == if is_prefixed(s@) {
            s@.skip(2)
        } else {
            s@
        },
        forall|i: int| #![trigger digits[i]] 0 <= i < digits.len() ==> hex_value(digits[i]) >= 0,
    ensures
        result is Ok <==> digits.len() % 2 == 0,
        result matches Ok(bytes) ==> 2 * bytes@.len() == digits.len() && forall|i: int|
            #![trigger bytes@[i]]
            0 <= i < bytes@.len() ==> bytes@[i] == 16 * hex_value(digits[2 * i]) + hex_value(
                digits[2 * i + 1],
            ),
{
    let text = encode_utf8(digits);
    assert(without_0x(s@) == digits);
    assert(is_ascii_chars(digits));
    is_ascii_chars_encode_utf8(digits);
    assert forall|i: int| #![trigger text[i]] 0 <= i < text.len() implies nibble(text[i]) is Some
        && nibble(text[i])->0 == hex_value(digits[i]) by {
        assert(hex_value(digits[i]) >= 0);
        assert(text[i] == digits[i] as u8);
    }
    lemma_all_digits(text, 0);
    if result is Ok {
        let bytes = result->Ok_0;
        assert(bytes@ == paired(text));
        assert forall|i: int| #![trigger bytes@[i]] 0 <= i < bytes@.len() implies bytes@[i] == 16
            * hex_value(digits[2 * i]) + hex_value(digits[2 * i + 1]) by {
            assert(nibble(text[2 * i])->0 == hex_value(digits[2 * i]));
            assert(nibble(text[2 * i + 1])->0 == hex_value(digits[2 * i + 1]));
        }
    }
}

/// What was written in hexadecimal is read back.
pub proof fn lemma_written_bytes_are_read_back(
    bytes: &[u8],
    text: String,
    s: &str,
    result: Result<Vec<u8>, String>,
)
    requires
        call_ensures(encode_prefixed, (bytes,), text),
        s@ == text@,
        call_ensures(parse_hex_bytes, (s,), result),
    ensures
        result is Ok,
        result->Ok_0@ == bytes@,
{
    lemma_hex_round_trip(bytes@);
}

/// The message of an error in hexadecimal text names the error.
pub proof fn lemma_hex_errors_are_explained(error: &HexError, text: String)
    requires
        call_ensures(HexError::message, (error,), text),
    ensures
        error is OddLength ==> text@ == "Odd number of digits"@,
        error is InvalidStringLength ==> text@ == "Invalid string length"@,
        error matches HexError::InvalidHexCharacter { c, index } ==> text@ == "Invalid character "@
            + char_debug(*c) + " at position "@ + decimal(*index as nat),
{
}

/// Decimal digits are read as the number that they spell, which is refused only
/// where it does not fit 256 bits.
pub proof fn lemma_wei_is_read_digit_by_digit(s: &str, result: Result<U256, String>)
    requires
        call_ensures(parse_wei, (s,), result),
        forall|i: int| #![trigger s@[i]] 0 <= i < s@.len() ==> is_digit(s@[i]),
    ensures
        numeral_value(s@)
            < 0x1_0000_0000_0000_0000_0000_0000_0000_0000_0000_0000_0000_0000_0000_0000_0000_0000nat
            ==> result is Ok && result->Ok_0@ == numeral_value(s@),
        numeral_value(s@)
            >= 0x1_0000_0000_0000_0000_0000_0000_0000_0000_0000_0000_0000_0000_0000_0000_0000_0000nat
            ==> result is Err && result->Err_0@ == "the number is too large for the type"@,
{
    let text = encode_utf8(s@);
    assert(is_ascii_chars(s@));
    is_ascii_chars_encode_utf8(s@);
    assert forall|i: int| #![trigger text[i]] 0 <= i < text.len() implies is_decimal_digit(
        text[i],
    ) by {
        assert(is_digit(s@[i]));
        assert(text[i] == s@[i] as u8);
    }
    lemma_digits_lead(text);
    lemma_digits_spell(s@, text);
}

proof fn lemma_digits_spell(chars: Seq<char>, bytes: Seq<u8>)
    requires
        chars.len() == bytes.len(),
        forall|i: int| #![trigger chars[i]] 0 <= i < chars.len() ==> is_digit(chars[i]),
        forall|i: int| #![trigger bytes[i]] 0 <= i < bytes.len() ==> bytes[i] == chars[i] as u8,
    ensures
        numeral_value(chars) == digits_value(bytes),
    decreases chars.len(),
{
    if chars.len() > 0 {
        let shorter = chars.drop_last();
        assert forall|i: int| #![trigger shorter[i]] 0 <= i < shorter.len() implies is_digit(
            shorter[i],
        ) by {
            assert(shorter[i] == chars[i]);
        }
        assert forall|i: int|
            #![trigger bytes.drop_last()[i]]
            0 <= i < bytes.drop_last().len() implies bytes.drop_last()[i] == shorter[i] as u8 by {
            assert(bytes.drop_last()[i] == bytes[i]);
        }
        lemma_digits_spell(shorter, bytes.drop_last());
        assert(is_digit(chars[chars.len() - 1]));
        assert(bytes[bytes.len() - 1] == chars[chars.len() - 1] as u8);
    }
}

/// The commands' lines name, in full, the accounts, amounts, salts and hashes
/// that they are about.
pub proof fn lemma_lines_name_what_they_are_about(
    account: &Address,
    amount: &U256,
    word: &Word,
    label: &str,
    success: bool,
    owner: String,
    balance: String,
    salt: String,
    new_note: String,
    withdrew: String,
    sent: String,
    status: String,
)
    requires
        call_ensures(owner_line, (account,), owner),
        call_ensures(balance_line, (amount,), balance),
        call_ensures(salt_line, (word,), salt),
        call_ensures(new_note_line, (amount, word), new_note),
        call_ensures(withdrew_line, (amount, account), withdrew),
        call_ensures(sent_line, (label, word), sent),
        call_ensures(status_line, (success,), status),
    ensures
        owner@ == "owner: "@ + prefixed_hex(account@),
        balance@ == "balance: "@ + decimal(amount@) + " wei"@,
        salt@ == "salt: "@ + prefixed_hex(word@),
        new_note@ == "new note: amount="@ + decimal(amount@) + ", salt="@ + prefixed_hex(word@),
        withdrew@ == "withdrew "@ + decimal(amount@) + " wei to "@ + prefixed_hex(account@),
        sent@ == label@ + " sent: "@ + prefixed_hex(word@),
        success ==> status@ == "status: "@ + "success"@,
        !success ==> status@ == "status: "@ + "failed"@,
        spells(prefixed_hex(account@), 2, account@),
        spells(prefixed_hex(word@), 2, word@),
        is_numeral(decimal(amount@), amount@),
{
    lemma_hex_spells_every_byte(account@);
    lemma_hex_spells_every_byte(word@);
    lemma_decimal_is_the_numeral(amount@);
}

/// A text whose bytes are all ASCII is made of ASCII characters.
proof fn lemma_ascii_bytes(chars: Seq<char>)
    requires
        forall|i: int|
            #![trigger encode_utf8(chars)[i]]
            0 <= i < encode_utf8(chars).len() ==> encode_utf8(chars)[i] < 128,
    ensures
        is_ascii_chars(chars),
{
    let bytes = encode_utf8(chars);
    let same = bytes.map_values(|b: u8| b as char);
    assert forall|i: int| 0 <= i < same.len() implies {
        &&& 0 <= #[trigger] same[i] as int
        &&& same[i] as int <= 127
    } by {
        assert(bytes[i] < 128);
    }
    assert(is_ascii_chars(same));
    is_ascii_chars_encode_utf8(same);
    assert(encode_utf8(same) =~= bytes) by {
        assert forall|i: int| 0 <= i < bytes.len() implies encode_utf8(same)[i] == bytes[i] by {
            assert(same[i] as u8 == encode_utf8(same)[i]);
        }
    }
    encode_utf8_decode_utf8(same);
    encode_utf8_decode_utf8(chars);
}

/// Nothing but decimal digits is read as an amount.
pub proof fn lemma_only_digits_are_wei(s: &str, result: Result<U256, String>)
    requires
        call_ensures(parse_wei, (s,), result),
        result is Ok,
    ensures
        forall|i: int| #![trigger s@[i]] 0 <= i < s@.len() ==> is_digit(s@[i]),
{
    let text = encode_utf8(s@);
    lemma_leading_digits_are_digits(text);
    assert(leading_digits(text) == text);
    lemma_ascii_bytes(s@);
    is_ascii_chars_encode_utf8(s@);
    assert forall|i: int| #![trigger s@[i]] 0 <= i < s@.len() implies is_digit(s@[i]) by {
        assert(is_decimal_digit(text[i]));
        assert(s@[i] as u8 == text[i]);
    }
}

proof fn lemma_leading_digits_are_digits(text: Seq<u8>)
    ensures
        ({
            let lead = leading_digits(text);
            &&& lead.len() <= text.len()
            &&& forall|i: int|
                #![trigger text[i]]
                0 <= i < lead.len() ==> is_decimal_digit(text[i]) && lead[i] == text[i]
            &&& lead.len() == text.len() ==> lead == text
        }),
    decreases text.len(),
{
    let lead = leading_digits(text);
    if text.len() > 0 && is_decimal_digit(text[0]) {
        let rest = text.skip(1);
        lemma_leading_digits_are_digits(rest);
        assert forall|i: int| #![trigger text[i]] 0 <= i < lead.len() implies is_decimal_digit(
            text[i],
        ) && lead[i] == text[i] by {
            if i > 0 {
                assert(rest[i - 1] == text[i]);
            }
        }
        if lead.len() == text.len() {
            assert(lead =~= text);
        }
    } else if text.len() == 0 {
        assert(lead =~= text);
    }
}

/// A character that is no digit, behind digits that fit 256 bits, is refused as
/// such.
pub proof fn lemma_other_characters_are_no_wei(
    s: &str,
    at: nat,
    result: Result<U256, String>,
)
    requires
        call_ensures(parse_wei, (s,), result),
        is_ascii_chars(s@),
        at < s@.len(),
        !is_digit(s@[at as int]),
        forall|i: int| #![trigger s@[i]] 0 <= i < at ==> is_digit(s@[i]),
        numeral_value(s@.take(at as int))
            < 0x1_0000_0000_0000_0000_0000_0000_0000_0000_0000_0000_0000_0000_0000_0000_0000_0000nat,
    ensures
        result is Err,
        result->Err_0@ == "a character is not in the range 0-9"@,
{
    let text = encode_utf8(s@);
    is_ascii_chars_encode_utf8(s@);
    assert(s@[at as int] as u8 == text[at as int]);
    assert forall|i: int| #![trigger text[i]] 0 <= i < at implies is_decimal_digit(text[i]) by {
        assert(is_digit(s@[i]));
        assert(s@[i] as u8 == text[i]);
    }
    lemma_digits_lead_up_to(text, at);
    let chars = s@.take(at as int);
    let bytes = text.take(at as int);
    assert forall|i: int| #![trigger chars[i]] 0 <= i < chars.len() implies is_digit(
        chars[i],
    ) by {
        assert(chars[i] == s@[i]);
    }
    assert forall|i: int| #![trigger bytes[i]] 0 <= i < bytes.len() implies bytes[i]
        == chars[i] as u8 by {
        assert(bytes[i] == text[i]);
        assert(s@[i] as u8 == text[i]);
    }
    lemma_digits_spell(chars, bytes);
}

proof fn lemma_digits_lead_up_to(text: Seq<u8>, at: nat)
    requires
        at < text.len(),
        !is_decimal_digit(text[at as int]),
        forall|i: int| #![trigger text[i]] 0 <= i < at ==> is_decimal_digit(text[i]),
    ensures
        leading_digits(text) == text.take(at as int),
    decreases at,
{
    if at > 0 {
        let rest = text.skip(1);
        assert(is_decimal_digit(text[0]));
        assert forall|i: int| #![trigger rest[i]] 0 <= i < at - 1 implies is_decimal_digit(
            rest[i],
        ) by {
            assert(rest[i] == text[i + 1]);
        }
        lemma_digits_lead_up_to(rest, (at - 1) as nat);
        assert(seq![text[0]] + rest.take(at - 1) =~= text.take(at as int));
    } else {
        assert(leading_digits(text) =~= text.take(0));
    }
}

/// Nothing but hexadecimal digits, behind at most one prefix, is read as bytes.
pub proof fn lemma_only_hex_digits_are_bytes(
    s: &str,
    result: Result<Vec<u8>, String>,
    digits: Seq<char>,
)
    requires
        call_ensures(parse_hex_bytes, (s,), result),
        digits == if is_prefixed(s@) {
            s@.skip(2)
        } else {
            s@
        },
        result is Ok,
    ensures
        forall|i: int| #![trigger digits[i]] 0 <= i < digits.len() ==> hex_value(digits[i]) >= 0,
{
    let text = encode_utf8(digits);
    assert(without_0x(s@) == digits);
    lemma_digits_only(text, 0);
    lemma_ascii_bytes(digits);
    is_ascii_chars_encode_utf8(digits);
    assert forall|i: int| #![trigger digits[i]] 0 <= i < digits.len() implies hex_value(digits[i])
        >= 0 by {
        assert(nibble(text[i]) is Some);
        assert(digits[i] as u8 == text[i]);
    }
}

proof fn lemma_digits_only(text: Seq<u8>, from: nat)
    requires
        first_non_digit(text, from) is None,
    ensures
        forall|i: int| #![trigger text[i]] from <= i < text.len() ==> nibble(text[i]) is Some,
    decreases text.len() - from,
{
    if from < text.len() {
        lemma_digits_only(text, from + 1);
    }
}

/// Numbers are kept, told from zero, and compared as numbers.
pub proof fn lemma_numbers_are_kept(
    low: u64,
    number: U256,
    nothing: U256,
    made: U256,
    is_nothing: bool,
    greater: bool,
    narrowed: u64,
)
    requires
        call_ensures(U256::zero, (), nothing),
        call_ensures(U256::from_u64, (low,), made),
        call_ensures(U256::is_zero, (&number,), is_nothing),
        call_ensures(U256::exceeds, (&number, low), greater),
        number@ <= u64::MAX ==> call_ensures(U256::as_u64, (&number,), narrowed),
    ensures
        nothing@ == 0,
        made@ == low,
        is_nothing == (number@ == 0),
        greater == (number@ > low),
        number@ <= u64::MAX ==> narrowed == number@,
{
}

} // verus!
