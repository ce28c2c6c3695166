//! What the plans are for, stated of the frames and calls that they hold.
use vstd::prelude::*;
use crate::bytes::{Address, Word};
use crate::calldata::{Call, Value, value_view, ValueView};
use crate::contract::{leaf_digest, proof_view};
use crate::frame::{Frame, FrameTxSpec, keys_view, RecentRootReference};
use crate::merkle::{climb, DEPTH};
use crate::plan::{
    complete,
    data_view,
    filled,
    optional_frame_view,
    Plan,
    plan_deposit,
    plan_execute,
    plan_refresh_root,
    plan_withdraw,
    Planned,
    recent_root,
    RootStep,
    steps_view,
};
use crate::spend::SpendContext;
use crate::u256::{be_value, U256};

verus! {

/// A frame without data: what kind it is, whom it calls, and what it carries.
pub open spec fn is_frame(
    frame: Frame,
    mode: u8,
    flags: u8,
    target: Seq<u8>,
    value: nat,
    gas_limit: u64,
    state_gas_limit: u64,
) -> bool {
    &&& frame.mode == mode
    &&& frame.flags == flags
    &&& frame.target is Some
    &&& frame.target->0@ == target
    &&& frame.value@ == value
    &&& frame.gas_limit == gas_limit
    &&& frame.state_gas_limit == state_gas_limit
    &&& frame.data@.len() == 0
}

/// A value that is an address.
pub open spec fn holds_address(value: Value, address: Seq<u8>) -> bool {
    value matches Value::Address(held) && held@ == address
}

/// A value that is an unsigned number.
pub open spec fn holds_number(value: Value, number: nat) -> bool {
    value matches Value::Uint(held) && held@ == number
}

/// A value that is a fixed byte string.
pub open spec fn holds_word(value: Value, word: Seq<u8>) -> bool {
    value matches Value::FixedBytes(held) && held@ == word
}

/// A value that is a byte string, byte for byte.
pub open spec fn holds_bytes(value: Value, bytes: Seq<u8>) -> bool {
    &&& value is Bytes
    &&& value->Bytes_0@.len() == bytes.len()
    &&& forall|i: int|
        #![trigger bytes[i]]
        0 <= i < bytes.len() ==> value->Bytes_0@[i] == bytes[i]
}

/// A value that is an array of words, in their order.
pub open spec fn holds_words(value: Value, words: Seq<Word>) -> bool {
    &&& value is Array
    &&& value->Array_0@.len() == words.len()
    &&& forall|i: int|
        #![trigger words[i]]
        0 <= i < words.len() ==> holds_word(value->Array_0@[i], words[i]@)
}

/// Arguments from position `at` on that prove the note behind `spend` against
/// the first root in the first frame, under the first signature.
pub open spec fn holds_inclusion(
    args: Seq<Value>,
    at: int,
    owner: Seq<u8>,
    spend: SpendContext,
) -> bool {
    &&& args.len() == at + 8
    &&& holds_address(args[at], owner)
    &&& holds_number(args[at + 1], spend.amount@)
    &&& holds_word(args[at + 2], spend.salt@)
    &&& holds_number(args[at + 3], spend.leaf_index@)
    &&& holds_words(args[at + 4], spend.proof@)
    &&& holds_number(args[at + 5], 0)
    &&& holds_number(args[at + 6], 0)
    &&& holds_number(args[at + 7], 0)
}

/// A verifier frame for the root that `spend` was prepared with.
pub open spec fn asks_for_root_of(root: Option<RootStep>, spend: SpendContext) -> bool {
    &&& root is Some
    &&& root->0.reference.source_id@ == spend.source_id@
    &&& root->0.reference.slot == spend.slot
    &&& root->0.reference.root@ == spend.root@
    &&& root->0.gas_limit == 8_000
}

pub(crate) proof fn lemma_args_of(call: Call)
    ensures
        call@.args.len() == call.args@.len(),
        forall|i: int|
            #![trigger call.args@[i]]
            0 <= i < call.args@.len() ==> call@.args[i] == value_view(call.args@[i]),
{
}

/// An array whose content is that of `words` holds them.
pub(crate) proof fn lemma_array_of(value: Value, words: Seq<Word>)
    requires
        value_view(value) == ValueView::Array(proof_view(words)),
    ensures
        holds_words(value, words),
{
    reveal_with_fuel(value_view, 3);
    let items = value->Array_0@;
    let content = value_view(value)->Array_0;
    assert(content == proof_view(words));
    assert(content.len() == items.len());
    assert forall|i: int|
        #![trigger words[i]]
        0 <= i < words.len() implies holds_word(items[i], words[i]@) by {
        assert(content[i] == value_view(items[i]));
        assert(proof_view(words)[i]
            == ValueView::FixedBytes(words[i]@));
    }
}

/// Climbing depends on the bytes of a proof's entries alone.
pub(crate) proof fn lemma_climb_by_entries(
    leaf: Seq<u8>,
    index: nat,
    proof: Seq<Word>,
    other: Seq<Word>,
    level: nat,
)
    requires
        forall|i: int| #![trigger proof[i]] 0 <= i < level ==> proof[i]@ == other[i]@,
    ensures
        climb(leaf, index, proof, level) == climb(leaf, index, other, level),
    decreases level,
{
    if level > 0 {
        lemma_climb_by_entries(leaf, index, proof, other, (level - 1) as nat);
        assert(proof[level - 1]@ == other[level - 1]@);
    }
}

/// A plan's content lists its steps and nonce keys one by one.
pub proof fn lemma_parts_of_plan(plan: Plan)
    ensures
        plan@.steps.len() == plan.steps@.len(),
        plan@.nonce_keys.len() == plan.nonce_keys@.len(),
        forall|i: int|
            #![trigger plan.steps@[i]]
            0 <= i < plan.steps@.len() ==> plan@.steps[i] == plan.steps@[i]@,
        forall|i: int|
            #![trigger plan.nonce_keys@[i]]
            0 <= i < plan.nonce_keys@.len() ==> plan@.nonce_keys[i] == plan.nonce_keys@[i]@,
{
    assert(plan@.steps.len() == steps_view(plan.steps@).len());
    assert(plan@.nonce_keys.len() == keys_view(plan.nonce_keys@).len());
}

/// A deposit is approved by the depositor, under the account's own nonce, and
/// carries exactly the amount given to the tank, for a note of the owner given.
pub proof fn lemma_deposit_carries_the_amount(
    depositor: Address,
    owner: Address,
    gas_tank: Address,
    amount: U256,
    salt: &Word,
    nonce: u64,
    plan: Plan,
)
    requires
        call_ensures(plan_deposit, (depositor, owner, gas_tank, amount, salt, nonce), plan),
    ensures
        plan.sender@ == depositor@,
        plan.nonce_keys@.len() == 1,
        plan.nonce_keys@[0]@ == 0,
        plan.nonce_seq == nonce,
        plan.root is None,
        plan.steps@.len() == 2,
        is_frame(plan.steps@[0].frame, 1, 3, depositor@, 0, 30_000, 0),
        plan.steps@[0].call is None,
        is_frame(plan.steps@[1].frame, 2, 0, gas_tank@, amount@, 1_000_000, 3_000_000),
        plan.steps@[1].call is Some,
        ({
            let call = plan.steps@[1].call->0;
            &&& call.signature@ == "deposit(address,bytes32)"@
            &&& call.args@.len() == 2
            &&& holds_address(call.args@[0], owner@)
            &&& holds_word(call.args@[1], salt@)
        }),
{
    lemma_parts_of_plan(plan);
    assert(plan@.steps[0] == plan.steps@[0]@);
    assert(plan@.steps[1] == plan.steps@[1]@);
    assert(plan@.nonce_keys[0] == plan.nonce_keys@[0]@);
    lemma_args_of(plan.steps@[1].call->0);
}

/// A call paid for by the tank approves by the note of `owner`, settles it under
/// the new salt, and then makes the call given: the target given, with every
/// byte of the data given.
pub proof fn lemma_execute_makes_the_call(
    owner: Address,
    gas_tank: Address,
    spend: &SpendContext,
    nonce_seq: u64,
    new_salt: &Word,
    target: Address,
    data: &[u8],
    plan: Plan,
)
    requires
        call_ensures(
            plan_execute,
            (owner, gas_tank, spend, nonce_seq, new_salt, target, data),
            plan,
        ),
    ensures
        plan.sender@ == gas_tank@,
        plan.nonce_keys@.len() == 1,
        plan.nonce_keys@[0]@ == be_value(spend.leaf@),
        plan.nonce_seq == nonce_seq,
        asks_for_root_of(plan.root, *spend),
        plan.steps@.len() == 3,
        is_frame(plan.steps@[0].frame, 1, 3, gas_tank@, 0, 85_000, 97_920),
        plan.steps@[0].call is Some,
        plan.steps@[0].call->0.signature@
            == "verify(address,uint256,bytes32,uint256,bytes32[],uint256,uint256,uint256)"@,
        holds_inclusion(plan.steps@[0].call->0.args@, 0, owner@, *spend),
        is_frame(plan.steps@[1].frame, 2, 0, gas_tank@, 0, 500_000, 1_000_000),
        plan.steps@[1].call is Some,
        plan.steps@[1].call->0.signature@ == "settle(bytes32)"@,
        plan.steps@[1].call->0.args@.len() == 1,
        holds_word(plan.steps@[1].call->0.args@[0], new_salt@),
        is_frame(plan.steps@[2].frame, 2, 0, gas_tank@, 0, 1_500_000, 500_000),
        plan.steps@[2].call is Some,
        plan.steps@[2].call->0.signature@ == "execute(address,bytes)"@,
        plan.steps@[2].call->0.args@.len() == 2,
        holds_address(plan.steps@[2].call->0.args@[0], target@),
        holds_bytes(plan.steps@[2].call->0.args@[1], data@),
{
    lemma_parts_of_plan(plan);
    assert(plan@.steps[0] == plan.steps@[0]@);
    assert(plan@.steps[1] == plan.steps@[1]@);
    assert(plan@.steps[2] == plan.steps@[2]@);
    assert(plan@.nonce_keys[0] == plan.nonce_keys@[0]@);
    lemma_args_of(plan.steps@[0].call->0);
    lemma_args_of(plan.steps@[1].call->0);
    lemma_args_of(plan.steps@[2].call->0);
    lemma_array_of(plan.steps@[0].call->0.args@[4], spend.proof@);
}

/// A withdrawal is approved by the owner and pays the whole note of the owner to
/// the account given, against the note's own proof, entry by entry.
pub proof fn lemma_withdraw_pays_the_note(
    owner: Address,
    gas_tank: Address,
    spend: &SpendContext,
    nonce_seq: u64,
    to: Address,
    plan: Plan,
)
    requires
        call_ensures(plan_withdraw, (owner, gas_tank, spend, nonce_seq, to), plan),
    ensures
        plan.sender@ == owner@,
        plan.nonce_keys@.len() == 1,
        plan.nonce_keys@[0]@ == be_value(spend.leaf@),
        plan.nonce_seq == nonce_seq,
        asks_for_root_of(plan.root, *spend),
        plan.steps@.len() == 2,
        is_frame(plan.steps@[0].frame, 1, 3, owner@, 0, 30_000, 97_920),
        plan.steps@[0].call is None,
        is_frame(plan.steps@[1].frame, 0, 0, gas_tank@, 0, 3_000_000, 500_000),
        plan.steps@[1].call is Some,
        plan.steps@[1].call->0.signature@
            == "withdraw(address,address,uint256,bytes32,uint256,bytes32[],uint256,uint256,uint256)"@,
        holds_address(plan.steps@[1].call->0.args@[0], to@),
        holds_inclusion(plan.steps@[1].call->0.args@, 1, owner@, *spend),
{
    lemma_parts_of_plan(plan);
    assert(plan@.steps[0] == plan.steps@[0]@);
    assert(plan@.steps[1] == plan.steps@[1]@);
    assert(plan@.nonce_keys[0] == plan.nonce_keys@[0]@);
    lemma_args_of(plan.steps@[1].call->0);
    lemma_array_of(plan.steps@[1].call->0.args@[5], spend.proof@);
}

/// The publication of a root is approved by the sender, under the account's own
/// nonce, and calls the tank, whoever the sender is.
pub proof fn lemma_refresh_root_calls_the_tank(
    sender: Address,
    gas_tank: Address,
    nonce: u64,
    plan: Plan,
)
    requires
        call_ensures(plan_refresh_root, (sender, gas_tank, nonce), plan),
    ensures
        plan.sender@ == sender@,
        plan.nonce_keys@.len() == 1,
        plan.nonce_keys@[0]@ == 0,
        plan.nonce_seq == nonce,
        plan.root is None,
        plan.steps@.len() == 2,
        is_frame(plan.steps@[0].frame, 1, 3, sender@, 0, 30_000, 0),
        plan.steps@[0].call is None,
        is_frame(plan.steps@[1].frame, 2, 0, gas_tank@, 0, 500_000, 500_000),
        plan.steps@[1].call is Some,
        plan.steps@[1].call->0.signature@ == "refreshRoot()"@,
        plan.steps@[1].call->0.args@.len() == 0,
{
    lemma_parts_of_plan(plan);
    assert(plan@.steps[0] == plan.steps@[0]@);
    assert(plan@.steps[1] == plan.steps@[1]@);
    assert(plan@.nonce_keys[0] == plan.nonce_keys@[0]@);
    lemma_args_of(plan.steps@[1].call->0);
}

/// What a withdrawal hands to the tank proves the note: where the spend's proof
/// leads from its leaf to its root, the entries in the call lead, in their
/// order, from the commitment to the owner, amount and salt in the call, at the
/// position in the call, to the root that the plan refers to.
pub proof fn lemma_withdraw_call_reaches_the_root(
    owner: Address,
    gas_tank: Address,
    spend: &SpendContext,
    nonce_seq: u64,
    to: Address,
    plan: Plan,
    held_owner: Seq<u8>,
    amount: nat,
    salt: Seq<u8>,
    index: nat,
    entries: Seq<Word>,
)
    requires
        call_ensures(plan_withdraw, (owner, gas_tank, spend, nonce_seq, to), plan),
        climb(
            leaf_digest(owner@, spend.amount@, spend.salt@),
            spend.leaf_index@,
            spend.proof@,
            DEPTH as nat,
        ) == spend.root@,
        plan.steps@.len() == 2,
        plan.steps@[1].call is Some,
        ({
            let args = plan.steps@[1].call->0.args@;
            &&& args.len() == 9
            &&& holds_address(args[1], held_owner)
            &&& holds_number(args[2], amount)
            &&& holds_word(args[3], salt)
            &&& holds_number(args[4], index)
            &&& holds_words(args[5], entries)
        }),
    ensures
        plan.root is Some,
        entries.len() == DEPTH,
        climb(leaf_digest(held_owner, amount, salt), index, entries, DEPTH as nat)
            == plan.root->0.reference.root@,
{
    lemma_withdraw_pays_the_note(owner, gas_tank, spend, nonce_seq, to, plan);
    let args = plan.steps@[1].call->0.args@;
    assert(holds_words(args[5], spend.proof@));
    assert forall|i: int| #![trigger entries[i]] 0 <= i < DEPTH implies entries[i]@
        == spend.proof@[i]@ by {
        assert(holds_word(args[5]->Array_0@[i], entries[i]@));
        assert(holds_word(args[5]->Array_0@[i], spend.proof@[i]@));
    }
    lemma_climb_by_entries(
        leaf_digest(held_owner, amount, salt),
        index,
        entries,
        spend.proof@,
        DEPTH as nat,
    );
}

/// What the approval of an execution hands to the tank proves the note, in the
/// same way.
pub proof fn lemma_execute_call_reaches_the_root(
    owner: Address,
    gas_tank: Address,
    spend: &SpendContext,
    nonce_seq: u64,
    new_salt: &Word,
    target: Address,
    data: &[u8],
    plan: Plan,
    held_owner: Seq<u8>,
    amount: nat,
    salt: Seq<u8>,
    index: nat,
    entries: Seq<Word>,
)
    requires
        call_ensures(
            plan_execute,
            (owner, gas_tank, spend, nonce_seq, new_salt, target, data),
            plan,
        ),
        climb(
            leaf_digest(owner@, spend.amount@, spend.salt@),
            spend.leaf_index@,
            spend.proof@,
            DEPTH as nat,
        ) == spend.root@,
        plan.steps@.len() == 3,
        plan.steps@[0].call is Some,
        ({
            let args = plan.steps@[0].call->0.args@;
            &&& args.len() == 8
            &&& holds_address(args[0], held_owner)
            &&& holds_number(args[1], amount)
            &&& holds_word(args[2], salt)
            &&& holds_number(args[3], index)
            &&& holds_words(args[4], entries)
        }),
    ensures
        plan.root is Some,
        entries.len() == DEPTH,
        climb(leaf_digest(held_owner, amount, salt), index, entries, DEPTH as nat)
            == plan.root->0.reference.root@,
{
    lemma_execute_makes_the_call(
        owner,
        gas_tank,
        spend,
        nonce_seq,
        new_salt,
        target,
        data,
        plan,
    );
    let args = plan.steps@[0].call->0.args@;
    assert(holds_words(args[4], spend.proof@));
    assert forall|i: int| #![trigger entries[i]] 0 <= i < DEPTH implies entries[i]@
        == spend.proof@[i]@ by {
        assert(holds_word(args[4]->Array_0@[i], entries[i]@));
        assert(holds_word(args[4]->Array_0@[i], spend.proof@[i]@));
    }
    lemma_climb_by_entries(
        leaf_digest(held_owner, amount, salt),
        index,
        entries,
        spend.proof@,
        DEPTH as nat,
    );
}

/// The reference to a spend's root is made of the spend's own source, slot and
/// root.
pub proof fn lemma_root_reference(spend: &SpendContext, reference: RecentRootReference)
    requires
        call_ensures(recent_root, (spend,), reference),
    ensures
        reference.source_id@ == spend.source_id@,
        reference.slot == spend.slot,
        reference.root@ == spend.root@,
{
}

/// Whether `frame` is `other` with `data`.
pub open spec fn is_with_data(frame: Frame, other: Frame, data: Seq<u8>) -> bool {
    &&& frame.mode == other.mode
    &&& frame.flags == other.flags
    &&& frame.target is Some == other.target is Some
    &&& frame.target is Some ==> frame.target->0@ == other.target->0@
    &&& frame.gas_limit == other.gas_limit
    &&& frame.state_gas_limit == other.state_gas_limit
    &&& frame.value@ == other.value@
    &&& frame.data@ == data
}

/// Whether `frame` is the planned frame with `data` where the plan has a call,
/// and the planned frame as it is where it has none.
pub open spec fn is_filled<C>(frame: Frame, step: Planned<C>, data: Seq<u8>) -> bool {
    is_with_data(
        frame,
        step.frame,
        if step.call is Some {
            data
        } else {
            step.frame.data@
        },
    )
}

/// Completing a plan keeps its sender and nonce, puts the verifier frame first
/// as it was given, and after it each step in order, with its own encoding and
/// no other change. It fails only where a part is missing or left over.
pub proof fn lemma_completion_keeps_the_plan(
    plan: Plan,
    root_frame: Option<Frame>,
    data: Vec<Vec<u8>>,
    spec: Option<FrameTxSpec>,
)
    requires
        call_ensures(complete, (plan, root_frame, data), spec),
    ensures
        spec is Some <==> (root_frame is Some <==> plan.root is Some) && data@.len()
            == plan.steps@.len(),
        spec matches Some(spec) ==> ({
            let lead: int = if root_frame is Some {
                1
            } else {
                0
            };
            &&& spec.sender@ == plan.sender@
            &&& spec.nonce_seq == plan.nonce_seq
            &&& spec.nonce_keys@.len() == plan.nonce_keys@.len()
            &&& forall|i: int|
                #![trigger spec.nonce_keys@[i]]
                0 <= i < spec.nonce_keys@.len() ==> spec.nonce_keys@[i]@ == plan.nonce_keys@[i]@
            &&& spec.recent_root_references@.len() == 0
            &&& spec.frames@.len() == lead + plan.steps@.len()
            &&& root_frame is Some ==> is_with_data(
                spec.frames@[0],
                root_frame->0,
                root_frame->0.data@,
            )
            &&& forall|i: int|
                #![trigger plan.steps@[i]]
                0 <= i < plan.steps@.len() ==> is_filled(
                    spec.frames@[lead + i],
                    plan.steps@[i],
                    data@[i]@,
                )
        }),
{
    if spec is Some {
        let spec = spec->0;
        let lead: int = if root_frame is Some {
            1
        } else {
            0
        };
        assert(spec@.frames.len() == spec.frames@.len());
        assert(spec@.nonce_keys.len() == spec.nonce_keys@.len());
        assert(plan@.nonce_keys.len() == plan.nonce_keys@.len());
        assert forall|i: int|
            #![trigger spec.nonce_keys@[i]]
            0 <= i < spec.nonce_keys@.len() implies spec.nonce_keys@[i]@
            == plan.nonce_keys@[i]@ by {
            assert(spec@.nonce_keys[i] == spec.nonce_keys@[i]@);
            assert(plan@.nonce_keys[i] == plan.nonce_keys@[i]@);
        }
        if root_frame is Some {
            assert(spec@.frames[0] == spec.frames@[0]@);
            assert(optional_frame_view(root_frame) == Some(root_frame->0@));
        }
        assert forall|i: int| #![trigger plan.steps@[i]] 0 <= i < plan.steps@.len() implies is_filled(
            spec.frames@[lead + i],
            plan.steps@[i],
            data@[i]@,
        ) by {
            assert(spec@.frames[lead + i] == spec.frames@[lead + i]@);
            assert(plan@.steps[i] == plan.steps@[i]@);
            assert(data_view(data@)[i] == data@[i]@);
            assert(spec@.frames[lead + i] == filled(plan@.steps[i], data_view(data@)[i]));
        }
    }
}

/// The value that frames carry together.
pub open spec fn total_value(frames: Seq<Frame>) -> nat
    decreases frames.len(),
{
    if frames.len() == 0 {
        0
    } else {
        total_value(frames.drop_last()) + frames.last().value@
    }
}

/// A completed deposit carries the amount in total, all of it to the tank.
pub proof fn lemma_completed_deposit_carries_the_amount(
    depositor: Address,
    owner: Address,
    gas_tank: Address,
    amount: U256,
    salt: &Word,
    nonce: u64,
    plan: Plan,
    data: Vec<Vec<u8>>,
    spec: FrameTxSpec,
)
    requires
        call_ensures(plan_deposit, (depositor, owner, gas_tank, amount, salt, nonce), plan),
        call_ensures(complete, (plan, None, data), Some(spec)),
    ensures
        total_value(spec.frames@) == amount@,
        spec.frames@.len() == 2,
        spec.frames@[1].value@ == amount@,
        spec.frames@[1].target is Some,
        spec.frames@[1].target->0@ == gas_tank@,
        spec.frames@[1].data@ == data@[1]@,
        spec.frames@[0].data@.len() == 0,
{
    lemma_deposit_carries_the_amount(depositor, owner, gas_tank, amount, salt, nonce, plan);
    lemma_completion_keeps_the_plan(plan, None, data, Some(spec));
    assert(is_filled(spec.frames@[0], plan.steps@[0], data@[0]@));
    assert(is_filled(spec.frames@[1], plan.steps@[1], data@[1]@));
    reveal_with_fuel(total_value, 3);
    assert(spec.frames@.drop_last().last() == spec.frames@[0]);
}

} // verus!
