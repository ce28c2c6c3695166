//! What the plans for the envelope are for, stated of the frames and calls that
//! they hold.
use vstd::prelude::*;
use crate::bytes::{Address, Word};
use crate::contract::leaf_digest;
use crate::envelope_plan::{
    complete,
    EnvelopePlan,
    Inclusion,
    plan_deposit,
    plan_execute,
    plan_refresh_root,
    plan_withdraw,
};
use crate::frame::{FrameTxSpec, keys_view, RecentRootReference};
use crate::merkle::{climb, DEPTH};
use crate::plan::{data_view, filled, steps_view};
use crate::plan_laws::{is_filled, is_frame, lemma_climb_by_entries, total_value};
use crate::spend::SpendContext;
use crate::spend_laws::{lemma_words_by_view, same_words};
use crate::u256::{be_value, U256};

verus! {

/// Whether `inclusion` proves the note behind `spend`, entry by entry, against
/// the first root of the envelope, under the first signature.
pub open spec fn proves(inclusion: Inclusion, owner: Seq<u8>, spend: SpendContext) -> bool {
    &&& inclusion.owner@ == owner
    &&& inclusion.amount@ == spend.amount@
    &&& inclusion.salt@ == spend.salt@
    &&& inclusion.leaf_index@ == spend.leaf_index@
    &&& same_words(inclusion.proof@, spend.proof@)
    &&& inclusion.root_ref_index@ == 0
    &&& inclusion.sig_index@ == 0
}

/// Whether the references are the one to the root of `spend`.
pub open spec fn refers_to_root_of(
    references: Seq<RecentRootReference>,
    spend: SpendContext,
) -> bool {
    &&& references.len() == 1
    &&& references[0].source_id@ == spend.source_id@
    &&& references[0].slot == spend.slot
    &&& references[0].root@ == spend.root@
}

/// A plan's content lists its steps and nonce keys one by one.
pub proof fn lemma_parts_of_envelope_plan(plan: EnvelopePlan)
    ensures
        plan@.steps.len() == plan.steps@.len(),
        plan@.nonce_keys.len() == plan.nonce_keys@.len(),
        forall|i: int|
            #![trigger plan.steps@[i]]
            0 <= i < plan.steps@.len() ==> plan@.steps[i] == plan.steps@[i]@,
        forall|i: int|
            #![trigger plan.nonce_keys@[i]]
            0 <= i < plan.nonce_keys@.len() ==> plan@.nonce_keys[i] == plan.nonce_keys@[i]@,
{
    assert(plan@.steps.len() == steps_view(plan.steps@).len());
    assert(plan@.nonce_keys.len() == keys_view(plan.nonce_keys@).len());
}

/// A deposit is approved by the depositor, under the account's own nonce, and
/// carries exactly the amount given to the tank, for a note of the owner given.
pub proof fn lemma_envelope_deposit_carries_the_amount(
    depositor: Address,
    owner: Address,
    gas_tank: Address,
    amount: U256,
    salt: &Word,
    nonce: u64,
    plan: EnvelopePlan,
)
    requires
        call_ensures(plan_deposit, (depositor, owner, gas_tank, amount, salt, nonce), plan),
    ensures
        plan.sender@ == depositor@,
        plan.nonce_keys@.len() == 1,
        plan.nonce_keys@[0]@ == 0,
        plan.nonce_seq == nonce,
        plan.recent_root_references@.len() == 0,
        plan.steps@.len() == 2,
        is_frame(plan.steps@[0].frame, 1, 3, depositor@, 0, 300_000, 0),
        plan.steps@[0].call is None,
        is_frame(plan.steps@[1].frame, 2, 0, gas_tank@, amount@, 8_000_000, 0),
        plan.steps@[1].call is Some,
        plan.steps@[1].call->0 is Deposit,
        plan.steps@[1].call->0->Deposit_owner@ == owner@,
        plan.steps@[1].call->0->Deposit_salt@ == salt@,
{
    lemma_parts_of_envelope_plan(plan);
    assert(plan@.steps[0] == plan.steps@[0]@);
    assert(plan@.steps[1] == plan.steps@[1]@);
    assert(plan@.nonce_keys[0] == plan.nonce_keys@[0]@);
}

/// A call paid for by the tank approves by the note of `owner`, settles it under
/// the new salt, and then makes the call given: the target given, with every
/// byte of the data given.
pub proof fn lemma_envelope_execute_makes_the_call(
    owner: Address,
    gas_tank: Address,
    spend: &SpendContext,
    nonce_seq: u64,
    new_salt: &Word,
    target: Address,
    data: &[u8],
    plan: EnvelopePlan,
)
    requires
        call_ensures(
            plan_execute,
            (owner, gas_tank, spend, nonce_seq, new_salt, target, data),
            plan,
        ),
    ensures
        plan.sender@ == gas_tank@,
        plan.nonce_keys@.len() == 1,
        plan.nonce_keys@[0]@ == be_value(spend.leaf@),
        plan.nonce_seq == nonce_seq,
        refers_to_root_of(plan.recent_root_references@, *spend),
        plan.steps@.len() == 3,
        is_frame(plan.steps@[0].frame, 1, 3, gas_tank@, 0, 300_000, 0),
        plan.steps@[0].call is Some,
        plan.steps@[0].call->0 is Verify,
        proves(plan.steps@[0].call->0->Verify_0, owner@, *spend),
        is_frame(plan.steps@[1].frame, 2, 0, gas_tank@, 0, 8_000_000, 0),
        plan.steps@[1].call is Some,
        plan.steps@[1].call->0 is Settle,
        plan.steps@[1].call->0->Settle_new_salt@ == new_salt@,
        is_frame(plan.steps@[2].frame, 2, 0, gas_tank@, 0, 1_500_000, 0),
        plan.steps@[2].call is Some,
        plan.steps@[2].call->0 is Execute,
        plan.steps@[2].call->0->Execute_target@ == target@,
        plan.steps@[2].call->0->Execute_data@ == data@,
{
    lemma_parts_of_envelope_plan(plan);
    assert(plan@.steps[0] == plan.steps@[0]@);
    assert(plan@.steps[1] == plan.steps@[1]@);
    assert(plan@.steps[2] == plan.steps@[2]@);
    assert(plan@.nonce_keys[0] == plan.nonce_keys@[0]@);
    lemma_words_by_view(plan.steps@[0].call->0->Verify_0.proof@, spend.proof@);
}

/// A withdrawal is approved by the owner and pays the whole note of the owner to
/// the account given, against the note's own proof, entry by entry.
pub proof fn lemma_envelope_withdraw_pays_the_note(
    owner: Address,
    gas_tank: Address,
    spend: &SpendContext,
    nonce_seq: u64,
    to: Address,
    plan: EnvelopePlan,
)
    requires
        call_ensures(plan_withdraw, (owner, gas_tank, spend, nonce_seq, to), plan),
    ensures
        plan.sender@ == owner@,
        plan.nonce_keys@.len() == 1,
        plan.nonce_keys@[0]@ == be_value(spend.leaf@),
        plan.nonce_seq == nonce_seq,
        refers_to_root_of(plan.recent_root_references@, *spend),
        plan.steps@.len() == 2,
        is_frame(plan.steps@[0].frame, 1, 3, owner@, 0, 300_000, 0),
        plan.steps@[0].call is None,
        is_frame(plan.steps@[1].frame, 0, 0, gas_tank@, 0, 3_000_000, 0),
        plan.steps@[1].call is Some,
        plan.steps@[1].call->0 is Withdraw,
        plan.steps@[1].call->0->Withdraw_to@ == to@,
        proves(plan.steps@[1].call->0->Withdraw_inclusion, owner@, *spend),
{
    lemma_parts_of_envelope_plan(plan);
    assert(plan@.steps[0] == plan.steps@[0]@);
    assert(plan@.steps[1] == plan.steps@[1]@);
    assert(plan@.nonce_keys[0] == plan.nonce_keys@[0]@);
    lemma_words_by_view(plan.steps@[1].call->0->Withdraw_inclusion.proof@, spend.proof@);
}

/// The publication of a root is approved by the sender, under the account's own
/// nonce, and calls the tank, whoever the sender is.
pub proof fn lemma_envelope_refresh_root_calls_the_tank(
    sender: Address,
    gas_tank: Address,
    nonce: u64,
    plan: EnvelopePlan,
)
    requires
        call_ensures(plan_refresh_root, (sender, gas_tank, nonce), plan),
    ensures
        plan.sender@ == sender@,
        plan.nonce_keys@.len() == 1,
        plan.nonce_keys@[0]@ == 0,
        plan.nonce_seq == nonce,
        plan.recent_root_references@.len() == 0,
        plan.steps@.len() == 2,
        is_frame(plan.steps@[0].frame, 1, 3, sender@, 0, 300_000, 0),
        plan.steps@[0].call is None,
        is_frame(plan.steps@[1].frame, 2, 0, gas_tank@, 0, 500_000, 0),
        plan.steps@[1].call is Some,
        plan.steps@[1].call->0 is RefreshRoot,
{
    lemma_parts_of_envelope_plan(plan);
    assert(plan@.steps[0] == plan.steps@[0]@);
    assert(plan@.steps[1] == plan.steps@[1]@);
    assert(plan@.nonce_keys[0] == plan.nonce_keys@[0]@);
}

/// What proves the note behind `spend` leads to the root that is referred to:
/// where the spend's own proof does, from the commitment to the owner, amount
/// and salt in the call, at the position in the call.
pub proof fn lemma_envelope_call_reaches_the_root(
    inclusion: Inclusion,
    references: Seq<RecentRootReference>,
    owner: Seq<u8>,
    spend: SpendContext,
)
    requires
        proves(inclusion, owner, spend),
        refers_to_root_of(references, spend),
        climb(
            leaf_digest(owner, spend.amount@, spend.salt@),
            spend.leaf_index@,
            spend.proof@,
            DEPTH as nat,
        ) == spend.root@,
    ensures
        climb(
            leaf_digest(inclusion.owner@, inclusion.amount@, inclusion.salt@),
            inclusion.leaf_index@,
            inclusion.proof@,
            DEPTH as nat,
        ) == references[inclusion.root_ref_index@ as int].root@,
{
    lemma_climb_by_entries(
        leaf_digest(owner, spend.amount@, spend.salt@),
        spend.leaf_index@,
        inclusion.proof@,
        spend.proof@,
        DEPTH as nat,
    );
}

/// Completing a plan keeps its sender, nonce and root references, and each step
/// in order, with its own encoding and no other change. It fails only where an
/// encoding is missing or left over.
pub proof fn lemma_envelope_completion_keeps_the_plan(
    plan: EnvelopePlan,
    data: Vec<Vec<u8>>,
    spec: Option<FrameTxSpec>,
)
    requires
        call_ensures(complete, (plan, data), spec),
    ensures
        spec is Some <==> data@.len() == plan.steps@.len(),
        spec matches Some(spec) ==> {
            &&& spec.sender@ == plan.sender@
            &&& spec.nonce_seq == plan.nonce_seq
            &&& spec.nonce_keys@.len() == plan.nonce_keys@.len()
            &&& forall|i: int|
                #![trigger spec.nonce_keys@[i]]
                0 <= i < spec.nonce_keys@.len() ==> spec.nonce_keys@[i]@ == plan.nonce_keys@[i]@
            &&& spec.recent_root_references@ == plan.recent_root_references@
            &&& spec.frames@.len() == plan.steps@.len()
            &&& forall|i: int|
                #![trigger plan.steps@[i]]
                0 <= i < plan.steps@.len() ==> is_filled(
                    spec.frames@[i],
                    plan.steps@[i],
                    data@[i]@,
                )
        },
{
    lemma_parts_of_envelope_plan(plan);
    if spec is Some {
        let spec = spec->0;
        assert(spec@.frames.len() == spec.frames@.len());
        assert(spec@.nonce_keys.len() == spec.nonce_keys@.len());
        assert forall|i: int|
            #![trigger spec.nonce_keys@[i]]
            0 <= i < spec.nonce_keys@.len() implies spec.nonce_keys@[i]@
            == plan.nonce_keys@[i]@ by {
            assert(spec@.nonce_keys[i] == spec.nonce_keys@[i]@);
            assert(plan@.nonce_keys[i] == plan.nonce_keys@[i]@);
        }
        assert forall|i: int| #![trigger plan.steps@[i]] 0 <= i < plan.steps@.len() implies is_filled(
            spec.frames@[i],
            plan.steps@[i],
            data@[i]@,
        ) by {
            assert(spec@.frames[i] == spec.frames@[i]@);
            assert(plan@.steps[i] == plan.steps@[i]@);
            assert(data_view(data@)[i] == data@[i]@);
            assert(spec@.frames[i] == filled(plan@.steps[i], data_view(data@)[i]));
        }
    }
}

/// A completed deposit carries the amount in total, all of it to the tank.
pub proof fn lemma_completed_envelope_deposit_carries_the_amount(
    depositor: Address,
    owner: Address,
    gas_tank: Address,
    amount: U256,
    salt: &Word,
    nonce: u64,
    plan: EnvelopePlan,
    data: Vec<Vec<u8>>,
    spec: FrameTxSpec,
)
    requires
        call_ensures(plan_deposit, (depositor, owner, gas_tank, amount, salt, nonce), plan),
        call_ensures(complete, (plan, data), Some(spec)),
    ensures
        total_value(spec.frames@) == amount@,
        spec.frames@.len() == 2,
        spec.frames@[1].value@ == amount@,
        spec.frames@[1].target is Some,
        spec.frames@[1].target->0@ == gas_tank@,
        spec.frames@[1].data@ == data@[1]@,
        spec.frames@[0].data@.len() == 0,
{
    lemma_envelope_deposit_carries_the_amount(
        depositor,
        owner,
        gas_tank,
        amount,
        salt,
        nonce,
        plan,
    );
    lemma_envelope_completion_keeps_the_plan(plan, data, Some(spec));
    assert(is_filled(spec.frames@[0], plan.steps@[0], data@[0]@));
    assert(is_filled(spec.frames@[1], plan.steps@[1], data@[1]@));
    reveal_with_fuel(total_value, 3);
    assert(spec.frames@.drop_last().last() == spec.frames@[0]);
}

} // verus!
