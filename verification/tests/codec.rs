use ethrex_common::utils::keccak;
use gastank::bytes::{Address, Word};
use gastank::calldata::Value;
use gastank::contract::{
    encode_deposit, encode_execute, encode_refresh_root, encode_settle, encode_verify,
    encode_withdraw, leaf, padded_reply, read_commitment, read_last_root_slot,
    read_next_leaf_index, read_note, read_root, read_source_id, Read,
};
use gastank::convert::{as_fixed_bytes32, as_uint, parse_hex_bytes, parse_wei, ConvertError};
use gastank::hex_text::{encode_prefixed, strip_0x, trim_0x, HexError};
use gastank::report::{
    balance_line, new_note_line, owner_line, salt_line, sent_line, status_line, withdrew_line,
};
use gastank::text::decimal_text;
use gastank::u256::U256;

const OWNER: Address = [0x11; 20];
const SALT: Word = [0x22; 32];

fn max() -> U256 {
    U256 { limbs: [u64::MAX; 4] }
}

fn show(values: &[Value]) -> Vec<String> {
    values.iter().map(|value| format!("{:?}", value)).collect()
}

#[test]
fn wei_is_decimal() {
    assert_eq!(parse_wei("1000000000000000000"), Ok(U256::from_u64(1_000_000_000_000_000_000)));
    assert_eq!(parse_wei("0"), Ok(U256::zero()));
    assert_eq!(parse_wei(""), Ok(U256::zero()));
    assert_eq!(parse_wei("18446744073709551616"), Ok(U256 { limbs: [0, 1, 0, 0] }));
    assert_eq!(
        parse_wei("115792089237316195423570985008687907853269984665640564039457584007913129639935"),
        Ok(max())
    );
}

#[test]
fn wei_that_is_no_number_is_refused() {
    let character = Err("a character is not in the range 0-9".to_string());
    let length = Err("the number is too large for the type".to_string());
    assert_eq!(parse_wei("12a"), character);
    assert_eq!(parse_wei("-1"), character);
    assert_eq!(parse_wei("0x10"), character);
    assert_eq!(
        parse_wei("115792089237316195423570985008687907853269984665640564039457584007913129639936"),
        length
    );
    assert_eq!(
        parse_wei("999999999999999999999999999999999999999999999999999999999999999999999999999999x"),
        length
    );
    assert_eq!(
        parse_wei("12a").unwrap_err(),
        ethrex_common::U256::from_dec_str("12a").unwrap_err().to_string()
    );
    let long = "9".repeat(79);
    assert_eq!(
        parse_wei(&long).unwrap_err(),
        ethrex_common::U256::from_dec_str(&long).unwrap_err().to_string()
    );
}

#[test]
fn amounts_are_read_back_from_what_is_printed() {
    for amount in [U256::zero(), U256::from_u64(10), U256 { limbs: [5, 6, 7, 8] }, max()] {
        let line = balance_line(&amount);
        let text = line.strip_prefix("balance: ").unwrap().strip_suffix(" wei").unwrap();
        assert_eq!(parse_wei(text), Ok(amount));
    }
}

#[test]
fn hex_bytes_need_no_prefix() {
    assert_eq!(parse_hex_bytes("0xDEADbeef"), Ok(vec![0xde, 0xad, 0xbe, 0xef]));
    assert_eq!(parse_hex_bytes("deadbeef"), Ok(vec![0xde, 0xad, 0xbe, 0xef]));
    assert_eq!(parse_hex_bytes("0x"), Ok(vec![]));
    assert_eq!(parse_hex_bytes(""), Ok(vec![]));
}

#[test]
fn hex_bytes_that_are_no_hex_are_refused() {
    assert_eq!(parse_hex_bytes("0x123"), Err("Odd number of digits".to_string()));
    assert_eq!(parse_hex_bytes("12zz"), Err("Invalid character 'z' at position 2".to_string()));
    assert_eq!(
        parse_hex_bytes("0x0x12"),
        Err("Invalid character 'x' at position 1".to_string())
    );
    assert_eq!(
        parse_hex_bytes("0x00'0"),
        Err("Invalid character '\\'' at position 2".to_string())
    );
    assert_eq!(
        HexError::InvalidStringLength.message(),
        hex::FromHexError::InvalidStringLength.to_string()
    );
}

#[test]
fn bytes_are_read_back_from_their_hex() {
    let bytes: Vec<u8> = (0..=255).collect();
    let text = encode_prefixed(&bytes);
    assert_eq!(&text[..10], "0x00010203");
    assert_eq!(&text[text.len() - 6..], "fdfeff");
    assert_eq!(parse_hex_bytes(&text), Ok(bytes.clone()));
    assert_eq!(parse_hex_bytes(strip_0x(&text)), Ok(bytes));
}

#[test]
fn prefixes_are_stripped_once_or_trimmed() {
    assert_eq!(strip_0x("0x0x12"), "0x12");
    assert_eq!(strip_0x("12"), "12");
    assert_eq!(strip_0x("0"), "0");
    assert_eq!(trim_0x("0x0x12"), "12");
    assert_eq!(trim_0x("0X12"), "0X12");
    assert_eq!(trim_0x("0x"), "");
}

#[test]
fn numerals_have_no_leading_zeros() {
    assert_eq!(decimal_text(0), "0");
    assert_eq!(decimal_text(9), "9");
    assert_eq!(decimal_text(10), "10");
    assert_eq!(decimal_text(1_203_045), "1203045");
    assert_eq!(decimal_text(u128::MAX), u128::MAX.to_string());
}

#[test]
fn numbers_compare_with_words() {
    assert!(U256::zero().is_zero());
    assert!(!U256 { limbs: [0, 0, 0, 1] }.is_zero());
    assert_eq!(U256::from_u64(7).as_u64(), 7);
    assert!(U256::from_u64(8).exceeds(7));
    assert!(!U256::from_u64(7).exceeds(7));
    assert!(U256 { limbs: [0, 1, 0, 0] }.exceeds(u64::MAX));
}

#[test]
fn values_are_narrowed_to_their_type() {
    assert_eq!(as_fixed_bytes32(Value::FixedBytes(vec![3; 32])), Ok([3; 32]));
    assert_eq!(
        as_fixed_bytes32(Value::Bytes(vec![3; 32])),
        Err(ConvertError::ExpectedFixedBytes)
    );
    assert_eq!(as_uint(Value::Uint(U256::from_u64(4))), Ok(U256::from_u64(4)));
    assert_eq!(as_uint(Value::Int(U256::from_u64(4))), Err(ConvertError::ExpectedUint));
    assert_eq!(ConvertError::ExpectedFixedBytes.message(), "expected FixedBytes value");
    assert_eq!(ConvertError::ExpectedUint.message(), "expected Uint value");
}

#[test]
fn a_leaf_commits_to_owner_amount_and_salt() {
    let mut preimage = vec![0x11; 20];
    preimage.extend_from_slice(&[0; 30]);
    preimage.extend_from_slice(&[0x01, 0x02]);
    preimage.extend_from_slice(&[0x22; 32]);
    assert_eq!(leaf(&OWNER, &U256::from_u64(0x0102), &SALT), keccak(preimage).0);
}

#[test]
fn short_calls_carry_their_arguments() {
    let deposit = encode_deposit(&OWNER, &SALT);
    assert_eq!(deposit.signature, "deposit(address,bytes32)");
    assert_eq!(
        show(&deposit.args),
        show(&[Value::Address(OWNER), Value::FixedBytes(SALT.to_vec())])
    );
    let settle = encode_settle(&SALT);
    assert_eq!(settle.signature, "settle(bytes32)");
    assert_eq!(show(&settle.args), show(&[Value::FixedBytes(SALT.to_vec())]));
    let execute = encode_execute(&OWNER, &[1, 2, 3]);
    assert_eq!(execute.signature, "execute(address,bytes)");
    assert_eq!(
        show(&execute.args),
        show(&[Value::Address(OWNER), Value::Bytes(vec![1, 2, 3])])
    );
    let refresh = encode_refresh_root();
    assert_eq!(refresh.signature, "refreshRoot()");
    assert!(refresh.args.is_empty());
}

#[test]
fn inclusion_calls_carry_the_proof() {
    let number = U256::from_u64;
    let proof = [[1u8; 32], [2u8; 32]];
    let verify = encode_verify(
        &OWNER, &number(5), &SALT, &number(6), &proof, &number(7), &number(8), &number(9),
    );
    assert_eq!(
        verify.signature,
        "verify(address,uint256,bytes32,uint256,bytes32[],uint256,uint256,uint256)"
    );
    let expected = vec![
        Value::Address(OWNER),
        Value::Uint(number(5)),
        Value::FixedBytes(SALT.to_vec()),
        Value::Uint(number(6)),
        Value::Array(vec![Value::FixedBytes(vec![1; 32]), Value::FixedBytes(vec![2; 32])]),
        Value::Uint(number(7)),
        Value::Uint(number(8)),
        Value::Uint(number(9)),
    ];
    assert_eq!(show(&verify.args), show(&expected));
    let to = [0x33; 20];
    let withdraw = encode_withdraw(
        &to, &OWNER, &number(5), &SALT, &number(6), &proof, &number(7), &number(8), &number(9),
    );
    assert_eq!(
        withdraw.signature,
        "withdraw(address,address,uint256,bytes32,uint256,bytes32[],uint256,uint256,uint256)"
    );
    assert_eq!(show(&withdraw.args[..1]), show(&[Value::Address(to)]));
    assert_eq!(show(&withdraw.args[1..]), show(&expected));
}

#[test]
fn reads_name_their_view_and_shape() {
    let cases = [
        (Read::Root, "root()", "_(bytes32)"),
        (Read::NextLeafIndex, "nextLeafIndex()", "_(uint256)"),
        (Read::Commitment(U256::from_u64(3)), "commitments(uint256)", "_(bytes32)"),
        (Read::Note(OWNER), "notes(address)", "_(uint256,bytes32)"),
        (Read::SourceId, "SOURCE_ID()", "_(bytes32)"),
        (Read::LastRootSlot, "lastRootSlot()", "_(uint256)"),
    ];
    for (read, signature, shape) in cases {
        assert_eq!(read.call().signature, signature);
        assert_eq!(read.return_shape(), shape);
    }
    assert!(Read::Root.call().args.is_empty());
    assert_eq!(
        show(&Read::Commitment(U256::from_u64(3)).call().args),
        show(&[Value::Uint(U256::from_u64(3))])
    );
    assert_eq!(show(&Read::Note(OWNER).call().args), show(&[Value::Address(OWNER)]));
}

#[test]
fn replies_are_padded_like_call_data() {
    assert_eq!(padded_reply("0xabcd"), Ok(vec![0, 0, 0, 0, 0xab, 0xcd]));
    assert_eq!(padded_reply("0x0xabcd"), Ok(vec![0, 0, 0, 0, 0xab, 0xcd]));
    assert_eq!(padded_reply("0x"), Ok(vec![0, 0, 0, 0]));
    assert_eq!(padded_reply("0xabc"), Err(HexError::OddLength));
    assert_eq!(
        padded_reply("0xag"),
        Err(HexError::InvalidHexCharacter { c: 'g', index: 1 })
    );
}

#[test]
fn decoded_replies_are_read() {
    let word = || Value::FixedBytes(vec![9; 32]);
    let uint = |n| Value::Uint(U256::from_u64(n));
    assert_eq!(read_root(vec![word()]), Ok([9; 32]));
    assert_eq!(read_commitment(vec![word()]), Ok([9; 32]));
    assert_eq!(read_source_id(vec![word()]), Ok([9; 32]));
    assert_eq!(read_next_leaf_index(vec![uint(5)]), Ok(U256::from_u64(5)));
    assert_eq!(read_last_root_slot(vec![uint(6)]), Ok(6));
    assert_eq!(read_note(vec![uint(7), word()]), Ok((U256::from_u64(7), [9; 32])));
}

#[test]
fn replies_of_another_type_are_refused() {
    let word = || Value::FixedBytes(vec![9; 32]);
    let uint = || Value::Uint(U256::from_u64(7));
    assert_eq!(read_root(vec![uint()]), Err(ConvertError::ExpectedFixedBytes));
    assert_eq!(read_commitment(vec![uint()]), Err(ConvertError::ExpectedFixedBytes));
    assert_eq!(read_source_id(vec![uint()]), Err(ConvertError::ExpectedFixedBytes));
    assert_eq!(read_next_leaf_index(vec![word()]), Err(ConvertError::ExpectedUint));
    assert_eq!(read_last_root_slot(vec![word()]), Err(ConvertError::ExpectedUint));
    assert_eq!(read_note(vec![word(), word()]), Err(ConvertError::ExpectedUint));
    assert_eq!(read_note(vec![uint(), uint()]), Err(ConvertError::ExpectedFixedBytes));
    assert_eq!(read_note(vec![word(), uint()]), Err(ConvertError::ExpectedFixedBytes));
}

#[test]
fn commands_report_in_plain_lines() {
    let eleven = "11".repeat(20);
    let salt = "22".repeat(32);
    assert_eq!(owner_line(&OWNER), format!("owner: 0x{eleven}"));
    assert_eq!(balance_line(&U256::from_u64(42)), "balance: 42 wei");
    assert_eq!(salt_line(&SALT), format!("salt: 0x{salt}"));
    assert_eq!(
        new_note_line(&U256::from_u64(41), &SALT),
        format!("new note: amount=41, salt=0x{salt}")
    );
    assert_eq!(
        withdrew_line(&max(), &OWNER),
        format!("withdrew {} wei to 0x{eleven}", ethrex_common::U256::MAX)
    );
    assert_eq!(sent_line("deposit", &SALT), format!("deposit sent: 0x{salt}"));
    assert_eq!(status_line(true), "status: success");
    assert_eq!(status_line(false), "status: failed");
}
