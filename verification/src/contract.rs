//! The GasTank contract as seen by a caller: note commitments, the calls that
//! change the tank, and the views that are read from it.
use vstd::prelude::*;
use vstd::string::*;
use vstd::utf8::encode_utf8;
use crate::bytes::{append_bytes, copy_bytes, Address, Word, zero_bytes};
use crate::calldata::{Call, CallView, Value, ValueView, value_view, values_view};
use crate::convert::{
    as_fixed_bytes32,
    as_uint,
    ConvertError,
    fixed_bytes32_of,
    is_word_sized,
    uint_of,
};
use crate::hash::{keccak, keccak256};
use crate::hex_text::{decode, hex_decoded, HexError, trim_0x, without_any_0x};
use crate::u256::{be_bytes, U256};

verus! {

/// The commitment to a note: the hash of its owner, its amount as a 32-byte
/// big-endian number, and its salt.
pub open spec fn leaf_digest(owner: Seq<u8>, amount: nat, salt: Seq<u8>) -> Seq<u8> {
    keccak256(owner + be_bytes(amount, 32) + salt)
}

/// Merkle proof entries as `bytes32` values.
pub open spec fn proof_view(proof: Seq<Word>) -> Seq<ValueView> {
    proof.map_values(|word: Word| ValueView::FixedBytes(word@))
}

/// The commitment to the note of `owner` with `amount` and `salt`.
pub fn leaf(owner: &Address, amount: &U256, salt: &Word) -> (digest: Word)
    ensures
        digest@ == leaf_digest(owner@, amount@, salt@),
{
    let mut buf: Vec<u8> = Vec::with_capacity(84);
    append_bytes(&mut buf, owner);
    append_bytes(&mut buf, &amount.to_big_endian());
    append_bytes(&mut buf, salt);
    assert(buf@ =~= owner@ + be_bytes(amount@, 32) + salt@);
    keccak(&buf)
}

fn word_value(word: &Word) -> (value: Value)
    ensures
        value@ == ValueView::FixedBytes(word@),
{
    Value::FixedBytes(copy_bytes(word))
}

fn proof_values(proof: &[Word]) -> (values: Vec<Value>)
    ensures
        values_view(values@) == proof_view(proof@),
{
    let mut values: Vec<Value> = Vec::with_capacity(proof.len());
    while values.len() < proof.len()
        invariant
            values@.len() <= proof@.len(),
            forall|i: int|
                #![trigger values@[i]]
                0 <= i < values@.len() ==> value_view(values@[i]) == ValueView::FixedBytes(
                    proof@[i]@,
                ),
        decreases proof@.len() - values@.len(),
    {
        let value: Value = word_value(&proof[values.len()]);
        values.push(value);
    }
    assert(values_view(values@) =~= proof_view(proof@));
    values
}

fn array_value(items: Vec<Value>) -> (value: Value)
    ensures
        value@ == ValueView::Array(values_view(items@)),
{
    let value: Value = Value::Array(items);
    assert(value@->Array_0 =~= values_view(items@));
    value
}

/// The call that deposits the transaction's value into a note of `owner`.
pub open spec fn deposit_call(owner: Seq<u8>, salt: Seq<u8>) -> CallView {
    CallView {
        signature: "deposit(address,bytes32)"@,
        args: seq![ValueView::Address(owner), ValueView::FixedBytes(salt)],
    }
}

/// The call that deposits the transaction's value into a note of `owner`.
pub fn encode_deposit(owner: &Address, salt: &Word) -> (call: Call)
    ensures
        call@ == deposit_call(owner@, salt@),
{
    let call: Call = Call {
        signature: "deposit(address,bytes32)",
        args: vec![Value::Address(*owner), word_value(salt)],
    };
    assert(call@.args =~= deposit_call(owner@, salt@).args);
    call
}

/// The call that settles a spent note into a new one with `new_salt`.
pub open spec fn settle_call(new_salt: Seq<u8>) -> CallView {
    CallView { signature: "settle(bytes32)"@, args: seq![ValueView::FixedBytes(new_salt)] }
}

/// The call that settles a spent note into a new one with `new_salt`.
pub fn encode_settle(new_salt: &Word) -> (call: Call)
    ensures
        call@ == settle_call(new_salt@),
{
    let call: Call = Call { signature: "settle(bytes32)", args: vec![word_value(new_salt)] };
    assert(call@.args =~= settle_call(new_salt@).args);
    call
}

/// The call that has the tank call `target` with `data`.
pub open spec fn execute_call(target: Seq<u8>, data: Seq<u8>) -> CallView {
    CallView {
        signature: "execute(address,bytes)"@,
        args: seq![ValueView::Address(target), ValueView::Bytes(data)],
    }
}

/// The call that has the tank call `target` with `data`.
pub fn encode_execute(target: &Address, data: &[u8]) -> (call: Call)
    ensures
        call@ == execute_call(target@, data@),
{
    let call: Call = Call {
        signature: "execute(address,bytes)",
        args: vec![Value::Address(*target), Value::Bytes(copy_bytes(data))],
    };
    assert(call@.args =~= execute_call(target@, data@).args);
    call
}

/// The call that publishes the current Merkle root as a recent root.
pub open spec fn refresh_root_call() -> CallView {
    CallView { signature: "refreshRoot()"@, args: Seq::empty() }
}

/// The call that publishes the current Merkle root as a recent root.
pub fn encode_refresh_root() -> (call: Call)
    ensures
        call@ == refresh_root_call(),
{
    let call: Call = Call { signature: "refreshRoot()", args: Vec::new() };
    assert(call@.args =~= Seq::<ValueView>::empty());
    call
}

/// The arguments by which a note is proved to be in the tree: the note, its
/// position and proof, and where the transaction names the root and signature.
pub open spec fn inclusion_args(
    owner: Seq<u8>,
    amount: nat,
    salt: Seq<u8>,
    leaf_index: nat,
    proof: Seq<Word>,
    root_frame_index: nat,
    root_ref_index: nat,
    sig_index: nat,
) -> Seq<ValueView> {
    seq![
        ValueView::Address(owner),
        ValueView::Uint(amount),
        ValueView::FixedBytes(salt),
        ValueView::Uint(leaf_index),
        ValueView::Array(proof_view(proof)),
        ValueView::Uint(root_frame_index),
        ValueView::Uint(root_ref_index),
        ValueView::Uint(sig_index),
    ]
}

/// The call that approves a transaction by a note in the tree.
pub open spec fn verify_call(inclusion: Seq<ValueView>) -> CallView {
    CallView {
        signature: "verify(address,uint256,bytes32,uint256,bytes32[],uint256,uint256,uint256)"@,
        args: inclusion,
    }
}

/// The call that pays a note in the tree out to `to`.
pub open spec fn withdraw_call(to: Seq<u8>, inclusion: Seq<ValueView>) -> CallView {
    CallView {
        signature:
            "withdraw(address,address,uint256,bytes32,uint256,bytes32[],uint256,uint256,uint256)"@,
        args: seq![ValueView::Address(to)] + inclusion,
    }
}

/// The call that approves a transaction by a note in the tree.
pub fn encode_verify(
    owner: &Address,
    amount: &U256,
    salt: &Word,
    leaf_index: &U256,
    proof: &[Word],
    root_frame_index: &U256,
    root_ref_index: &U256,
    sig_index: &U256,
) -> (call: Call)
    ensures
        call@ == verify_call(
            inclusion_args(
                owner@,
                amount@,
                salt@,
                leaf_index@,
                proof@,
                root_frame_index@,
                root_ref_index@,
                sig_index@,
            ),
        ),
{
    let call: Call = Call {
        signature: "verify(address,uint256,bytes32,uint256,bytes32[],uint256,uint256,uint256)",
        args: vec![
            Value::Address(*owner),
            Value::Uint(*amount),
            word_value(salt),
            Value::Uint(*leaf_index),
            array_value(proof_values(proof)),
            Value::Uint(*root_frame_index),
            Value::Uint(*root_ref_index),
            Value::Uint(*sig_index),
        ],
    };
    assert(call@.args =~= inclusion_args(
        owner@,
        amount@,
        salt@,
        leaf_index@,
        proof@,
        root_frame_index@,
        root_ref_index@,
        sig_index@,
    ));
    call
}

/// The call that pays a note in the tree out to `to`.
pub fn encode_withdraw(
    to: &Address,
    owner: &Address,
    amount: &U256,
    salt: &Word,
    leaf_index: &U256,
    proof: &[Word],
    root_frame_index: &U256,
    root_ref_index: &U256,
    sig_index: &U256,
) -> (call: Call)
    ensures
        call@ == withdraw_call(
            to@,
            inclusion_args(
                owner@,
                amount@,
                salt@,
                leaf_index@,
                proof@,
                root_frame_index@,
                root_ref_index@,
                sig_index@,
            ),
        ),
{
    let call: Call = Call {
        signature:
            "withdraw(address,address,uint256,bytes32,uint256,bytes32[],uint256,uint256,uint256)",
        args: vec![
            Value::Address(*to),
            Value::Address(*owner),
            Value::Uint(*amount),
            word_value(salt),
            Value::Uint(*leaf_index),
            array_value(proof_values(proof)),
            Value::Uint(*root_frame_index),
            Value::Uint(*root_ref_index),
            Value::Uint(*sig_index),
        ],
    };
    assert(call@.args =~= seq![ValueView::Address(to@)] + inclusion_args(
        owner@,
        amount@,
        salt@,
        leaf_index@,
        proof@,
        root_frame_index@,
        root_ref_index@,
        sig_index@,
    ));
    call
}

/// A view of the contract.
#[derive(Clone, Copy, Debug, PartialEq, Eq)]
pub enum Read {
    /// The current Merkle root.
    Root,
    /// How many commitments the tree holds.
    NextLeafIndex,
    /// The commitment at a position of the tree.
    Commitment(U256),
    /// The amount and salt of an owner's note.
    Note(Address),
    /// The identifier under which the tank publishes its roots.
    SourceId,
    /// The slot of the root published last.
    LastRootSlot,
}

impl Read {
    /// The call that makes the read.
    pub open spec fn call_view(self) -> CallView {
        match self {
            Read::Root => CallView { signature: "root()"@, args: Seq::empty() },
            Read::NextLeafIndex => CallView { signature: "nextLeafIndex()"@, args: Seq::empty() },
            Read::Commitment(index) => CallView {
                signature: "commitments(uint256)"@,
                args: seq![ValueView::Uint(index@)],
            },
            Read::Note(owner) => CallView {
                signature: "notes(address)"@,
                args: seq![ValueView::Address(owner@)],
            },
            Read::SourceId => CallView { signature: "SOURCE_ID()"@, args: Seq::empty() },
            Read::LastRootSlot => CallView { signature: "lastRootSlot()"@, args: Seq::empty() },
        }
    }

    /// The call that makes the read.
    pub fn call(&self) -> (call: Call)
        ensures
            call@ == self.call_view(),
    {
        let call: Call = match self {
            Read::Root => Call { signature: "root()", args: Vec::new() },
            Read::NextLeafIndex => Call { signature: "nextLeafIndex()", args: Vec::new() },
            Read::Commitment(index) => Call {
                signature: "commitments(uint256)",
                args: vec![Value::Uint(*index)],
            },
            Read::Note(owner) => Call {
                signature: "notes(address)",
                args: vec![Value::Address(*owner)],
            },
            Read::SourceId => Call { signature: "SOURCE_ID()", args: Vec::new() },
            Read::LastRootSlot => Call { signature: "lastRootSlot()", args: Vec::new() },
        };
        assert(call@.args =~= self.call_view().args);
        call
    }

    /// The types of the returned values, written as the arguments of a
    /// function named `_`.
    pub fn return_shape(&self) -> (shape: &'static str)
        ensures
            match self {
                Read::Root | Read::Commitment(_) | Read::SourceId => shape@ == "_(bytes32)"@,
                Read::NextLeafIndex | Read::LastRootSlot => shape@ == "_(uint256)"@,
                Read::Note(_) => shape@ == "_(uint256,bytes32)"@,
            },
    {
        match self {
            Read::Root | Read::Commitment(_) | Read::SourceId => "_(bytes32)",
            Read::NextLeafIndex | Read::LastRootSlot => "_(uint256)",
            Read::Note(_) => "_(uint256,bytes32)",
        }
    }
}

/// Turns the hexadecimal reply of a contract call into bytes that decode like
/// the call data of the reply's shape: four bytes stand for the selector.
pub fn padded_reply(raw: &str) -> (result: Result<Vec<u8>, HexError>)
    ensures
        match (result, hex_decoded(encode_utf8(without_any_0x(raw@)))) {
            (Ok(padded), Ok(reply)) => padded@ == zero_bytes(4) + reply,
            (Err(error), Err(expected)) => error == expected,
            _ => false,
        },
{
    match decode(trim_0x(raw).as_bytes()) {
        Ok(reply) => {
            let mut padded: Vec<u8> = vec![0u8, 0u8, 0u8, 0u8];
            assert(padded@ =~= zero_bytes(4));
            append_bytes(&mut padded, &reply);
            Ok(padded)
        },
        Err(error) => Err(error),
    }
}

/// Takes the only word out of decoded return values.
fn read_word(values: Vec<Value>) -> (result: Result<Word, ConvertError>)
    requires
        values@.len() > 0,
        is_word_sized(values@[0]@),
    ensures
        match (result, fixed_bytes32_of(values@[0]@)) {
            (Ok(word), Ok(expected)) => word@ == expected,
            (Err(error), Err(expected)) => error == expected,
            _ => false,
        },
{
    let mut values: Vec<Value> = values;
    as_fixed_bytes32(values.remove(0))
}

/// The Merkle root in the values returned for [`Read::Root`].
pub fn read_root(values: Vec<Value>) -> (result: Result<Word, ConvertError>)
    requires
        values@.len() > 0,
        is_word_sized(values@[0]@),
    ensures
        match (result, fixed_bytes32_of(values@[0]@)) {
            (Ok(root), Ok(expected)) => root@ == expected,
            (Err(error), Err(expected)) => error == expected,
            _ => false,
        },
{
    read_word(values)
}

/// The number of commitments in the values returned for [`Read::NextLeafIndex`].
pub fn read_next_leaf_index(values: Vec<Value>) -> (result: Result<U256, ConvertError>)
    requires
        values@.len() > 0,
    ensures
        match (result, uint_of(values@[0]@)) {
            (Ok(index), Ok(expected)) => index@ == expected,
            (Err(error), Err(expected)) => error == expected,
            _ => false,
        },
{
    let mut values: Vec<Value> = values;
    as_uint(values.remove(0))
}

/// The commitment in the values returned for [`Read::Commitment`].
pub fn read_commitment(values: Vec<Value>) -> (result: Result<Word, ConvertError>)
    requires
        values@.len() > 0,
        is_word_sized(values@[0]@),
    ensures
        match (result, fixed_bytes32_of(values@[0]@)) {
            (Ok(commitment), Ok(expected)) => commitment@ == expected,
            (Err(error), Err(expected)) => error == expected,
            _ => false,
        },
{
    read_word(values)
}

/// The amount and salt in the values returned for [`Read::Note`]. A salt of
/// the wrong type is reported before an amount of the wrong type.
pub fn read_note(values: Vec<Value>) -> (result: Result<(U256, Word), ConvertError>)
    requires
        values@.len() > 1,
        is_word_sized(values@[1]@),
    ensures
        match (uint_of(values@[0]@), fixed_bytes32_of(values@[1]@)) {
            (Ok(amount), Ok(salt)) => result matches Ok(note) && note.0@ == amount && note.1@
                == salt,
            (_, Err(expected)) => result == Err::<(U256, Word), ConvertError>(expected),
            (Err(expected), Ok(_)) => result == Err::<(U256, Word), ConvertError>(expected),
        },
{
    let mut values: Vec<Value> = values;
    let salt: Word = match as_fixed_bytes32(values.remove(1)) {
        Ok(salt) => salt,
        Err(error) => {
            return Err(error);
        },
    };
    match as_uint(values.remove(0)) {
        Ok(amount) => Ok((amount, salt)),
        Err(error) => Err(error),
    }
}

/// The source identifier in the values returned for [`Read::SourceId`].
pub fn read_source_id(values: Vec<Value>) -> (result: Result<Word, ConvertError>)
    requires
        values@.len() > 0,
        is_word_sized(values@[0]@),
    ensures
        match (result, fixed_bytes32_of(values@[0]@)) {
            (Ok(source_id), Ok(expected)) => source_id@ == expected,
            (Err(error), Err(expected)) => error == expected,
            _ => false,
        },
{
    read_word(values)
}

/// The slot number in the values returned for [`Read::LastRootSlot`].
pub fn read_last_root_slot(values: Vec<Value>) -> (result: Result<u64, ConvertError>)
    requires
        values@.len() > 0,
        uint_of(values@[0]@) matches Ok(slot) ==> slot <= u64::MAX,
    ensures
        match (result, uint_of(values@[0]@)) {
            (Ok(slot), Ok(expected)) => slot == expected,
            (Err(error), Err(expected)) => error == expected,
            _ => false,
        },
{
    let mut values: Vec<Value> = values;
    match as_uint(values.remove(0)) {
        Ok(slot) => Ok(slot.as_u64()),
        Err(error) => Err(error),
    }
}

} // verus!
