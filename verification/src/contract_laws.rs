//! What the calls of the contract carry and what its replies mean, stated of
//! the values themselves.
use vstd::prelude::*;
use vstd::string::*;
use vstd::utf8::encode_utf8;
use crate::bytes::{Address, Word};
use crate::calldata::{Call, Value};
use crate::contract::{
    encode_deposit,
    encode_execute,
    encode_refresh_root,
    encode_settle,
    encode_verify,
    encode_withdraw,
    leaf,
    padded_reply,
    Read,
    read_commitment,
    read_last_root_slot,
    read_next_leaf_index,
    read_note,
    read_root,
    read_source_id,
};
use crate::convert::{as_fixed_bytes32, as_uint, ConvertError, parse_hex_bytes};
use crate::hash::keccak256;
use crate::hex_text::{
    hex_decoded,
    hex_encoded,
    HexError,
    lemma_hex_round_trip,
    prefixed_hex,
    trim_0x,
    without_0x,
    without_any_0x,
};
use crate::keys::{
    address_from_secret_key,
    KeyError,
    parse_secret_key,
    recoverable_signature,
    SecretKey,
    sign_recoverable,
    uncompressed_public_key,
};
use crate::plan_laws::{
    holds_address,
    holds_bytes,
    holds_number,
    holds_word,
    holds_words,
    lemma_args_of,
    lemma_array_of,
};
use crate::text_laws::{
    is_hex_digit_of,
    is_prefixed,
    lemma_all_prefixes_are_trimmed,
    lemma_hex_spells_every_byte,
};
use crate::u256::{be_bytes, be_value, lemma_bytes_round_trip, U256};

verus! {

/// A commitment is the hash of 84 bytes: the owner, the whole amount as a
/// big-endian word, and the salt.
pub proof fn lemma_leaf_commits_to_the_note(
    owner: &Address,
    amount: &U256,
    salt: &Word,
    digest: Word,
    preimage: Seq<u8>,
)
    requires
        call_ensures(leaf, (owner, amount, salt), digest),
        preimage.len() == 84,
        preimage.subrange(0, 20) == owner@,
        be_value(preimage.subrange(20, 52)) == amount@,
        preimage.subrange(52, 84) == salt@,
    ensures
        digest@ == keccak256(preimage),
{
    let middle = preimage.subrange(20, 52);
    lemma_bytes_round_trip(middle);
    assert(be_bytes(amount@, 32) == middle);
    assert(preimage =~= preimage.subrange(0, 20) + middle + preimage.subrange(52, 84));
}

/// The short calls carry the values given, and no others.
pub proof fn lemma_short_calls_carry_their_values(
    account: &Address,
    word: &Word,
    data: &[u8],
    deposit: Call,
    settle: Call,
    execute: Call,
    refresh: Call,
)
    requires
        call_ensures(encode_deposit, (account, word), deposit),
        call_ensures(encode_settle, (word,), settle),
        call_ensures(encode_execute, (account, data), execute),
        call_ensures(encode_refresh_root, (), refresh),
    ensures
        deposit.signature@ == "deposit(address,bytes32)"@,
        deposit.args@.len() == 2,
        holds_address(deposit.args@[0], account@),
        holds_word(deposit.args@[1], word@),
        settle.signature@ == "settle(bytes32)"@,
        settle.args@.len() == 1,
        holds_word(settle.args@[0], word@),
        execute.signature@ == "execute(address,bytes)"@,
        execute.args@.len() == 2,
        holds_address(execute.args@[0], account@),
        holds_bytes(execute.args@[1], data@),
        refresh.signature@ == "refreshRoot()"@,
        refresh.args@.len() == 0,
{
    lemma_args_of(deposit);
    lemma_args_of(settle);
    lemma_args_of(execute);
    lemma_args_of(refresh);
}

/// The call that verifies a note carries every value given at its place, and
/// every entry of the proof in order.
pub proof fn lemma_verify_carries_its_values(
    owner: &Address,
    amount: &U256,
    salt: &Word,
    leaf_index: &U256,
    proof: &[Word],
    root_frame_index: &U256,
    root_ref_index: &U256,
    sig_index: &U256,
    call: Call,
)
    requires
        call_ensures(
            encode_verify,
            (
                owner,
                amount,
                salt,
                leaf_index,
                proof,
                root_frame_index,
                root_ref_index,
                sig_index,
            ),
            call,
        ),
    ensures
        call.signature@
            == "verify(address,uint256,bytes32,uint256,bytes32[],uint256,uint256,uint256)"@,
        call.args@.len() == 8,
        holds_address(call.args@[0], owner@),
        holds_number(call.args@[1], amount@),
        holds_word(call.args@[2], salt@),
        holds_number(call.args@[3], leaf_index@),
        holds_words(call.args@[4], proof@),
        holds_number(call.args@[5], root_frame_index@),
        holds_number(call.args@[6], root_ref_index@),
        holds_number(call.args@[7], sig_index@),
{
    lemma_args_of(call);
    lemma_array_of(call.args@[4], proof@);
}

/// The call that pays a note out carries the receiver and then what the call
/// that verifies a note carries.
pub proof fn lemma_withdraw_carries_its_values(
    to: &Address,
    owner: &Address,
    amount: &U256,
    salt: &Word,
    leaf_index: &U256,
    proof: &[Word],
    root_frame_index: &U256,
    root_ref_index: &U256,
    sig_index: &U256,
    call: Call,
)
    requires
        call_ensures(
            encode_withdraw,
            (
                to,
                owner,
                amount,
                salt,
                leaf_index,
                proof,
                root_frame_index,
                root_ref_index,
                sig_index,
            ),
            call,
        ),
    ensures
        call.signature@
            == "withdraw(address,address,uint256,bytes32,uint256,bytes32[],uint256,uint256,uint256)"@,
        call.args@.len() == 9,
        holds_address(call.args@[0], to@),
        holds_address(call.args@[1], owner@),
        holds_number(call.args@[2], amount@),
        holds_word(call.args@[3], salt@),
        holds_number(call.args@[4], leaf_index@),
        holds_words(call.args@[5], proof@),
        holds_number(call.args@[6], root_frame_index@),
        holds_number(call.args@[7], root_ref_index@),
        holds_number(call.args@[8], sig_index@),
{
    lemma_args_of(call);
    lemma_array_of(call.args@[5], proof@);
}

/// A read of a note names its owner, and a read of a commitment its position;
/// the other reads carry nothing.
pub proof fn lemma_reads_name_their_subject(read: &Read, call: Call, shape: &'static str)
    requires
        call_ensures(Read::call, (read,), call),
        call_ensures(Read::return_shape, (read,), shape),
    ensures
        read is Root ==> call.signature@ == "root()"@ && shape@ == "_(bytes32)"@,
        read is NextLeafIndex ==> call.signature@ == "nextLeafIndex()"@ && shape@
            == "_(uint256)"@,
        read is SourceId ==> call.signature@ == "SOURCE_ID()"@ && shape@ == "_(bytes32)"@,
        read is LastRootSlot ==> call.signature@ == "lastRootSlot()"@ && shape@ == "_(uint256)"@,
        read matches Read::Commitment(index) ==> call.signature@ == "commitments(uint256)"@
            && shape@ == "_(bytes32)"@ && call.args@.len() == 1 && holds_number(
            call.args@[0],
            index@,
        ),
        read matches Read::Note(owner) ==> call.signature@ == "notes(address)"@ && shape@
            == "_(uint256,bytes32)"@ && call.args@.len() == 1 && holds_address(
            call.args@[0],
            owner@,
        ),
        !(read is Commitment) && !(read is Note) ==> call.args@.len() == 0,
{
    lemma_args_of(call);
}

/// A value is taken as a number exactly where it is one, and as a word exactly
/// where it is a fixed byte string.
pub proof fn lemma_values_are_told_apart(
    value: Value,
    number: Result<U256, ConvertError>,
    word: Result<Word, ConvertError>,
)
    requires
        call_ensures(as_uint, (value,), number),
        call_ensures(as_fixed_bytes32, (value,), word),
    ensures
        number is Ok <==> value is Uint,
        number is Ok ==> holds_number(value, number->Ok_0@),
        number is Err ==> number->Err_0 == ConvertError::ExpectedUint,
        word is Ok <==> value is FixedBytes,
        word is Ok ==> holds_word(value, word->Ok_0@),
        word is Err ==> word->Err_0 == ConvertError::ExpectedFixedBytes,
{
}

/// The replies to single reads are taken from the first value.
pub proof fn lemma_replies_are_read_from_the_first_value(
    values: Vec<Value>,
    root: Result<Word, ConvertError>,
    commitment: Result<Word, ConvertError>,
    source_id: Result<Word, ConvertError>,
    count: Result<U256, ConvertError>,
    slot: Result<u64, ConvertError>,
)
    requires
        call_ensures(read_root, (values,), root),
        call_ensures(read_commitment, (values,), commitment),
        call_ensures(read_source_id, (values,), source_id),
        call_ensures(read_next_leaf_index, (values,), count),
        call_ensures(read_last_root_slot, (values,), slot),
    ensures
        root is Ok <==> values@[0] is FixedBytes,
        root is Ok ==> holds_word(values@[0], root->Ok_0@),
        commitment is Ok <==> values@[0] is FixedBytes,
        commitment is Ok ==> holds_word(values@[0], commitment->Ok_0@),
        source_id is Ok <==> values@[0] is FixedBytes,
        source_id is Ok ==> holds_word(values@[0], source_id->Ok_0@),
        count is Ok <==> values@[0] is Uint,
        count is Ok ==> holds_number(values@[0], count->Ok_0@),
        slot is Ok <==> values@[0] is Uint,
        slot is Ok ==> holds_number(values@[0], slot->Ok_0 as nat),
{
}

/// A note is read from both values: the amount first, the salt second.
pub proof fn lemma_note_is_read_from_both_values(
    values: Vec<Value>,
    note: Result<(U256, Word), ConvertError>,
)
    requires
        call_ensures(read_note, (values,), note),
    ensures
        note is Ok <==> values@[0] is Uint && values@[1] is FixedBytes,
        note is Ok ==> holds_number(values@[0], note->Ok_0.0@) && holds_word(
            values@[1],
            note->Ok_0.1@,
        ),
        note is Err && !(values@[1] is FixedBytes) ==> note->Err_0
            == ConvertError::ExpectedFixedBytes,
        note is Err && values@[1] is FixedBytes ==> note->Err_0 == ConvertError::ExpectedUint,
{
}

/// A reply in prefixed hexadecimal is padded with four zero bytes and otherwise
/// kept, whatever it holds.
pub proof fn lemma_reply_is_kept_behind_the_padding(
    reply: Seq<u8>,
    raw: &str,
    result: Result<Vec<u8>, HexError>,
)
    requires
        raw@ == prefixed_hex(reply),
        call_ensures(padded_reply, (raw,), result),
    ensures
        result is Ok,
        result->Ok_0@.len() == 4 + reply.len(),
        forall|i: int| 0 <= i < 4 ==> result->Ok_0@[i] == 0,
        result->Ok_0@.skip(4) == reply,
{
    lemma_hex_round_trip(reply);
    lemma_hex_spells_every_byte(reply);
    reveal_strlit("0x");
    let bare = raw@.skip(2);
    assert(bare =~= hex_encoded(reply));
    assert(without_0x(raw@) == bare);
    if bare.len() >= 2 {
        assert(is_hex_digit_of(bare[1], reply[0] as int % 16)) by {
            assert(raw@[3] == bare[1]);
            assert(reply[0] == reply[0]);
        }
    }
    assert(!is_prefixed(bare));
    assert(without_any_0x(bare) == bare);
    assert(without_any_0x(raw@) == bare);
    assert(result->Ok_0@.skip(4) =~= reply);
}

/// A reply is read as the bytes behind all its prefixes are read, and refused
/// where they are.
pub proof fn lemma_reply_is_read_behind_its_prefixes(
    raw: &str,
    bare: &str,
    bytes: Result<Vec<u8>, String>,
    result: Result<Vec<u8>, HexError>,
)
    requires
        call_ensures(trim_0x, (raw,), bare),
        call_ensures(parse_hex_bytes, (bare,), bytes),
        call_ensures(padded_reply, (raw,), result),
    ensures
        result is Ok == bytes is Ok,
        result is Ok ==> result->Ok_0@ == seq![0u8, 0u8, 0u8, 0u8] + bytes->Ok_0@,
{
    lemma_all_prefixes_are_trimmed(raw, bare);
    assert(without_0x(bare@) == bare@);
    if result is Ok {
        assert(result->Ok_0@ =~= seq![0u8, 0u8, 0u8, 0u8] + bytes->Ok_0@);
    }
}

/// An address is the last twenty bytes of the hash of the public key's
/// coordinates, which stand behind the key's tag.
pub proof fn lemma_address_is_the_end_of_the_hash(
    secret_key: &SecretKey,
    address: Address,
    tag: u8,
    coordinates: Seq<u8>,
    lead: Seq<u8>,
    end: Seq<u8>,
)
    requires
        call_ensures(address_from_secret_key, (secret_key,), address),
        uncompressed_public_key(secret_key@) == seq![tag] + coordinates,
        coordinates.len() == 64,
        keccak256(coordinates) == lead + end,
        lead.len() == 12,
        end.len() == 20,
    ensures
        address@ == end,
{
    assert((seq![tag] + coordinates).subrange(1, 65) =~= coordinates);
    assert((lead + end).subrange(12, 32) =~= end);
}

/// A text is a secret key exactly where the digits behind at most one prefix
/// spell 32 bytes between zero and the order of the group.
pub proof fn lemma_keys_are_recognized(hex: &str, result: Result<SecretKey, KeyError>)
    requires
        call_ensures(parse_secret_key, (hex,), result),
    ensures
        ({
            let digits = if is_prefixed(hex@) {
                hex@.skip(2)
            } else {
                hex@
            };
            let decoded = hex_decoded(encode_utf8(digits));
            &&& result is Ok <==> decoded is Ok && decoded->Ok_0.len() == 32 && 0 < be_value(
                decoded->Ok_0,
            )
                < 0xFFFF_FFFF_FFFF_FFFF_FFFF_FFFF_FFFF_FFFE_BAAE_DCE6_AF48_A03B_BFD2_5E8C_D036_4141nat
            &&& result is Ok ==> result->Ok_0@ == decoded->Ok_0
            &&& result is Err ==> result->Err_0 == (match decoded {
                Err(error) => KeyError::Hex(error),
                Ok(_) => KeyError::InvalidSecretKey,
            })
        }),
{
}

/// A signature is that of the hash given, by the key given, in both parts.
pub proof fn lemma_signature_is_of_the_hash(
    hash: &Word,
    signer: &SecretKey,
    signature: (u8, [u8; 64]),
)
    requires
        call_ensures(sign_recoverable, (hash, signer), signature),
    ensures
        signature.0 == recoverable_signature(hash@, signer@).0,
        signature.1@ == recoverable_signature(hash@, signer@).1,
{
}

} // verus!
