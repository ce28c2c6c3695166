//! The transactions behind the commands, for nodes that take recent roots in a
//! verifier frame and meter state gas.
use vstd::prelude::*;
use crate::bytes::{Address, Word, zero_bytes};
use crate::calldata::{Call, CallView, ValueView};
use crate::contract::{
    deposit_call,
    encode_deposit,
    encode_execute,
    encode_refresh_root,
    encode_settle,
    encode_verify,
    encode_withdraw,
    execute_call,
    inclusion_args,
    refresh_root_call,
    settle_call,
    verify_call,
    withdraw_call,
};
use crate::frame::{
    APPROVE_EXECUTION_AND_PAYMENT,
    Frame,
    FrameMode,
    frames_view,
    FrameTxSpec,
    FrameView,
    keys_view,
    RecentRootReference,
    self_verify_frame,
    self_verify_view,
    sender_frame,
    sender_view,
    SpecView,
    with_data,
    with_state_gas,
};
use crate::hash::keccak256;
use crate::merkle::DEPTH;
use crate::spend::{nonce_slot_of, SpendContext};
use crate::u256::{be_bytes, be_value, lemma_be_value_injective, lemma_bytes_round_trip, U256};

verus! {

/// Execution gas of a frame by which an account approves its own transaction.
pub const SELF_VERIFY_GAS: u64 = 30_000;

/// Execution gas of the frame by which the tank approves a spend.
pub const GAS_TANK_VERIFY_GAS: u64 = 85_000;

/// Execution gas of the frame that carries recent roots.
pub const RECENT_ROOT_FRAME_GAS: u64 = 8_000;

/// State gas of a deposit. The first one into a fresh tank fills a storage
/// slot for every level of the tree.
pub const DEPOSIT_STATE_GAS: u64 = 3_000_000;

/// State gas of settling a spent note into a new one.
pub const SETTLE_STATE_GAS: u64 = 1_000_000;

/// State gas of using a keyed nonce for the first time, owed by the frame that
/// approves payment. It is the price of filling one storage slot.
pub const KEYED_NONCE_STATE_GAS: u64 = 97_920;

/// The position of the frame that carries recent roots.
pub const ROOT_FRAME_INDEX: u64 = 0;

/// The gas that a node spends at most on checking a transaction's signatures
/// and approvals.
pub const MAX_VERIFY_GAS: u64 = 100_000;

/// What checking one secp256k1 signature costs of that gas.
pub const SIGNATURE_VERIFICATION_GAS: u64 = 2_800;

/// A frame to come: all of it but its data, and the call that the data encode.
/// A frame without a call carries no data.
#[derive(Debug)]
pub struct Planned<C> {
    pub frame: Frame,
    pub call: Option<C>,
}

/// The mathematical content of a [`Planned`].
pub struct PlannedView<V> {
    pub frame: FrameView,
    pub call: Option<V>,
}

impl<C: View> View for Planned<C> {
    type V = PlannedView<C::V>;

    open spec fn view(&self) -> PlannedView<C::V> {
        PlannedView {
            frame: self.frame@,
            call: match self.call {
                Some(call) => Some(call@),
                None => None,
            },
        }
    }
}

/// The contents of a list of planned frames.
pub open spec fn steps_view<C: View>(steps: Seq<Planned<C>>) -> Seq<PlannedView<C::V>> {
    steps.map_values(|step: Planned<C>| step@)
}

/// A verifier frame to come: the root that it carries and its execution gas.
#[derive(Clone, Copy, Debug, PartialEq, Eq)]
pub struct RootStep {
    pub reference: RecentRootReference,
    pub gas_limit: u64,
}

/// A transaction of which the calls are not encoded yet. The verifier frame, if
/// there is one, comes before the steps.
#[derive(Debug)]
pub struct Plan {
    pub sender: Address,
    pub nonce_keys: Vec<U256>,
    pub nonce_seq: u64,
    pub root: Option<RootStep>,
    pub steps: Vec<Planned<Call>>,
}

/// The mathematical content of a [`Plan`].
pub struct PlanView {
    pub sender: Seq<u8>,
    pub nonce_keys: Seq<nat>,
    pub nonce_seq: u64,
    pub root: Option<RootStep>,
    pub steps: Seq<PlannedView<CallView>>,
}

impl View for Plan {
    type V = PlanView;

    open spec fn view(&self) -> PlanView {
        PlanView {
            sender: self.sender@,
            nonce_keys: keys_view(self.nonce_keys@),
            nonce_seq: self.nonce_seq,
            root: self.root,
            steps: steps_view(self.steps@),
        }
    }
}

/// A call of the tank that is made for no account.
pub open spec fn default_view(
    target: Seq<u8>,
    data: Seq<u8>,
    gas_limit: u64,
    state_gas_limit: u64,
) -> FrameView {
    FrameView {
        mode: FrameMode::Default.code_spec(),
        flags: 0,
        target: Some(target),
        gas_limit,
        state_gas_limit,
        value: 0,
        data,
    }
}

/// The frame by which `account` approves, with gas for both dimensions.
pub open spec fn approval_view(account: Seq<u8>, gas_limit: u64, state_gas_limit: u64) -> FrameView {
    FrameView { state_gas_limit, ..self_verify_view(account, gas_limit) }
}

/// A call on behalf of the sender that is not encoded yet.
pub open spec fn call_view(
    target: Seq<u8>,
    value: nat,
    gas_limit: u64,
    state_gas_limit: u64,
) -> FrameView {
    FrameView { state_gas_limit, ..sender_view(target, value, Seq::empty(), gas_limit) }
}

/// What proves the note behind `spend` against the root in the verifier frame,
/// under the transaction's first signature.
pub open spec fn spend_args(owner: Seq<u8>, spend: SpendContext) -> Seq<ValueView> {
    inclusion_args(
        owner,
        spend.amount@,
        spend.salt@,
        spend.leaf_index@,
        spend.proof@,
        ROOT_FRAME_INDEX as nat,
        0,
        0,
    )
}

/// The verifier frame for the root that `spend` is proved against.
pub open spec fn root_step(spend: SpendContext) -> RootStep {
    RootStep {
        reference: RecentRootReference {
            source_id: spend.source_id,
            slot: spend.slot,
            root: spend.root,
        },
        gas_limit: RECENT_ROOT_FRAME_GAS,
    }
}

/// The deposit of `amount` into a note of `owner`, from the depositor's own
/// account: the depositor's approval, then the deposit.
pub open spec fn deposit_plan(
    depositor: Seq<u8>,
    owner: Seq<u8>,
    gas_tank: Seq<u8>,
    amount: nat,
    salt: Seq<u8>,
    nonce: u64,
) -> PlanView {
    PlanView {
        sender: depositor,
        nonce_keys: seq![0],
        nonce_seq: nonce,
        root: None,
        steps: seq![
            PlannedView { frame: approval_view(depositor, SELF_VERIFY_GAS, 0), call: None },
            PlannedView {
                frame: call_view(gas_tank, amount, 1_000_000, DEPOSIT_STATE_GAS),
                call: Some(deposit_call(owner, salt)),
            },
        ],
    }
}

/// A call of `target` that the note of `owner` pays for. The tank is the sender,
/// and the note's leaf is the nonce key. The tank approves by verifying the
/// note, settles what is left of it under `new_salt`, and makes the call.
pub open spec fn execute_plan(
    owner: Seq<u8>,
    gas_tank: Seq<u8>,
    spend: SpendContext,
    nonce_seq: u64,
    new_salt: Seq<u8>,
    target: Seq<u8>,
    data: Seq<u8>,
) -> PlanView {
    PlanView {
        sender: gas_tank,
        nonce_keys: seq![be_value(spend.leaf@)],
        nonce_seq,
        root: Some(root_step(spend)),
        steps: seq![
            PlannedView {
                frame: approval_view(gas_tank, GAS_TANK_VERIFY_GAS, KEYED_NONCE_STATE_GAS),
                call: Some(verify_call(spend_args(owner, spend))),
            },
            PlannedView {
                frame: call_view(gas_tank, 0, 500_000, SETTLE_STATE_GAS),
                call: Some(settle_call(new_salt)),
            },
            PlannedView {
                frame: call_view(gas_tank, 0, 1_500_000, 500_000),
                call: Some(execute_call(target, data)),
            },
        ],
    }
}

/// The payment of the note of `owner` to `to`. The owner is the sender, and the
/// note's leaf is the nonce key. The owner approves, then the note is withdrawn.
pub open spec fn withdraw_plan(
    owner: Seq<u8>,
    gas_tank: Seq<u8>,
    spend: SpendContext,
    nonce_seq: u64,
    to: Seq<u8>,
) -> PlanView {
    PlanView {
        sender: owner,
        nonce_keys: seq![be_value(spend.leaf@)],
        nonce_seq,
        root: Some(root_step(spend)),
        steps: seq![
            PlannedView {
                frame: approval_view(owner, SELF_VERIFY_GAS, KEYED_NONCE_STATE_GAS),
                call: None,
            },
            PlannedView {
                frame: default_view(gas_tank, Seq::empty(), 3_000_000, 500_000),
                call: Some(withdraw_call(to, spend_args(owner, spend))),
            },
        ],
    }
}

/// The publication of the tank's current root: the sender's approval, then the
/// call.
pub open spec fn refresh_root_plan(sender: Seq<u8>, gas_tank: Seq<u8>, nonce: u64) -> PlanView {
    PlanView {
        sender,
        nonce_keys: seq![0],
        nonce_seq: nonce,
        root: None,
        steps: seq![
            PlannedView { frame: approval_view(sender, SELF_VERIFY_GAS, 0), call: None },
            PlannedView {
                frame: call_view(gas_tank, 0, 500_000, 500_000),
                call: Some(refresh_root_call()),
            },
        ],
    }
}

/// The reference to the root that `spend` is proved against.
pub fn recent_root(spend: &SpendContext) -> (reference: RecentRootReference)
    ensures
        reference == root_step(*spend).reference,
{
    RecentRootReference { source_id: spend.source_id, slot: spend.slot, root: spend.root }
}

/// Plans the deposit of `amount` into a note of `owner` with `salt`.
pub fn plan_deposit(
    depositor: Address,
    owner: Address,
    gas_tank: Address,
    amount: U256,
    salt: &Word,
    nonce: u64,
) -> (plan: Plan)
    ensures
        plan@ == deposit_plan(depositor@, owner@, gas_tank@, amount@, salt@, nonce),
{
    let ghost expected = deposit_plan(depositor@, owner@, gas_tank@, amount@, salt@, nonce);
    let deposit: Frame = sender_frame(gas_tank, amount, Vec::new(), 1_000_000);
    let plan: Plan = Plan {
        sender: depositor,
        nonce_keys: vec![U256::zero()],
        nonce_seq: nonce,
        root: None,
        steps: vec![
            Planned { frame: self_verify_frame(depositor, SELF_VERIFY_GAS), call: None },
            Planned {
                frame: with_state_gas(deposit, DEPOSIT_STATE_GAS),
                call: Some(encode_deposit(&owner, salt)),
            },
        ],
    };
    assert(plan@.nonce_keys =~= expected.nonce_keys);
    assert(plan@.steps =~= expected.steps);
    plan
}

/// Plans a call of `target` with `data` that the note behind `spend` pays for.
pub fn plan_execute(
    owner: Address,
    gas_tank: Address,
    spend: &SpendContext,
    nonce_seq: u64,
    new_salt: &Word,
    target: Address,
    data: &[u8],
) -> (plan: Plan)
    ensures
        plan@ == execute_plan(owner@, gas_tank@, *spend, nonce_seq, new_salt@, target@, data@),
{
    let ghost expected = execute_plan(
        owner@,
        gas_tank@,
        *spend,
        nonce_seq,
        new_salt@,
        target@,
        data@,
    );
    let verify: Frame = self_verify_frame(gas_tank, GAS_TANK_VERIFY_GAS);
    let settle: Frame = sender_frame(gas_tank, U256::zero(), Vec::new(), 500_000);
    let execute: Frame = sender_frame(gas_tank, U256::zero(), Vec::new(), 1_500_000);
    let plan: Plan = Plan {
        sender: gas_tank,
        nonce_keys: vec![U256::from_big_endian(&spend.leaf)],
        nonce_seq,
        root: Some(
            RootStep { reference: recent_root(spend), gas_limit: RECENT_ROOT_FRAME_GAS },
        ),
        steps: vec![
            Planned {
                frame: with_state_gas(verify, KEYED_NONCE_STATE_GAS),
                call: Some(
                    encode_verify(
                        &owner,
                        &spend.amount,
                        &spend.salt,
                        &spend.leaf_index,
                        &spend.proof,
                        &U256::from_u64(ROOT_FRAME_INDEX),
                        &U256::zero(),
                        &U256::zero(),
                    ),
                ),
            },
            Planned {
                frame: with_state_gas(settle, SETTLE_STATE_GAS),
                call: Some(encode_settle(new_salt)),
            },
            Planned {
                frame: with_state_gas(execute, 500_000),
                call: Some(encode_execute(&target, data)),
            },
        ],
    };
    assert(plan@.nonce_keys =~= expected.nonce_keys);
    assert(plan@.steps =~= expected.steps);
    plan
}

/// Plans the payment of the note behind `spend` to `to`.
pub fn plan_withdraw(
    owner: Address,
    gas_tank: Address,
    spend: &SpendContext,
    nonce_seq: u64,
    to: Address,
) -> (plan: Plan)
    ensures
        plan@ == withdraw_plan(owner@, gas_tank@, *spend, nonce_seq, to@),
{
    let ghost expected = withdraw_plan(owner@, gas_tank@, *spend, nonce_seq, to@);
    let approval: Frame = self_verify_frame(owner, SELF_VERIFY_GAS);
    let withdraw: Frame = Frame {
        mode: FrameMode::Default.code(),
        flags: 0,
        target: Some(gas_tank),
        gas_limit: 3_000_000,
        state_gas_limit: 500_000,
        value: U256::zero(),
        data: Vec::new(),
    };
    let plan: Plan = Plan {
        sender: owner,
        nonce_keys: vec![U256::from_big_endian(&spend.leaf)],
        nonce_seq,
        root: Some(
            RootStep { reference: recent_root(spend), gas_limit: RECENT_ROOT_FRAME_GAS },
        ),
        steps: vec![
            Planned { frame: with_state_gas(approval, KEYED_NONCE_STATE_GAS), call: None },
            Planned {
                frame: withdraw,
                call: Some(
                    encode_withdraw(
                        &to,
                        &owner,
                        &spend.amount,
                        &spend.salt,
                        &spend.leaf_index,
                        &spend.proof,
                        &U256::from_u64(ROOT_FRAME_INDEX),
                        &U256::zero(),
                        &U256::zero(),
                    ),
                ),
            },
        ],
    };
    assert(plan@.nonce_keys =~= expected.nonce_keys);
    assert(plan@.steps =~= expected.steps);
    plan
}

/// Plans the publication of the tank's current root.
pub fn plan_refresh_root(sender: Address, gas_tank: Address, nonce: u64) -> (plan: Plan)
    ensures
        plan@ == refresh_root_plan(sender@, gas_tank@, nonce),
{
    let ghost expected = refresh_root_plan(sender@, gas_tank@, nonce);
    let refresh: Frame = sender_frame(gas_tank, U256::zero(), Vec::new(), 500_000);
    let plan: Plan = Plan {
        sender,
        nonce_keys: vec![U256::zero()],
        nonce_seq: nonce,
        root: None,
        steps: vec![
            Planned { frame: self_verify_frame(sender, SELF_VERIFY_GAS), call: None },
            Planned {
                frame: with_state_gas(refresh, 500_000),
                call: Some(encode_refresh_root()),
            },
        ],
    };
    assert(plan@.nonce_keys =~= expected.nonce_keys);
    assert(plan@.steps =~= expected.steps);
    plan
}

/// The frame of a step whose call is encoded in `data`.
pub open spec fn filled<V>(step: PlannedView<V>, data: Seq<u8>) -> FrameView {
    match step.call {
        Some(_) => FrameView { data, ..step.frame },
        None => step.frame,
    }
}

/// The frames of steps, with the call of each encoded in `data` at the same
/// position.
pub open spec fn filled_steps<V>(steps: Seq<PlannedView<V>>, data: Seq<Seq<u8>>) -> Seq<FrameView> {
    Seq::new(steps.len(), |i: int| filled(steps[i], data[i]))
}

/// The transaction of a plan: the verifier frame, if the plan has one, and then
/// the steps, with the call of each encoded in `data` at the same position.
pub open spec fn completed(
    plan: PlanView,
    root_frame: Option<FrameView>,
    data: Seq<Seq<u8>>,
) -> SpecView {
    let lead = match root_frame {
        Some(frame) => seq![frame],
        None => Seq::empty(),
    };
    SpecView {
        sender: plan.sender,
        nonce_keys: plan.nonce_keys,
        nonce_seq: plan.nonce_seq,
        frames: lead + filled_steps(plan.steps, data),
        recent_root_references: Seq::empty(),
    }
}

/// The contents of a list of encodings.
pub open spec fn data_view(data: Seq<Vec<u8>>) -> Seq<Seq<u8>> {
    data.map_values(|bytes: Vec<u8>| bytes@)
}

/// The content of an optional frame.
pub open spec fn optional_frame_view(frame: Option<Frame>) -> Option<FrameView> {
    match frame {
        Some(frame) => Some(frame@),
        None => None,
    }
}

/// Appends to `frames` the frames of `steps`, with the call of each encoded in
/// `data` at the same position.
pub(crate) fn fill_steps<C: View>(
    frames: &mut Vec<Frame>,
    steps: Vec<Planned<C>>,
    data: Vec<Vec<u8>>,
)
    requires
        steps@.len() == data@.len(),
    ensures
        frames_view(final(frames)@) == frames_view(old(frames)@) + filled_steps(
            steps_view(steps@),
            data_view(data@),
        ),
{
    let ghost lead = frames_view(frames@);
    let ghost planned = steps@;
    let ghost entries = data@;
    let ghost goal = filled_steps(steps_view(planned), data_view(entries));
    let mut steps: Vec<Planned<C>> = steps;
    let mut data: Vec<Vec<u8>> = data;
    assert(frames_view(frames@) =~= lead + goal.take(0));
    while steps.len() > 0
        invariant
            steps@.len() == data@.len() <= planned.len() == entries.len(),
            steps@ =~= planned.skip(planned.len() - steps@.len()),
            data@ =~= entries.skip(entries.len() - data@.len()),
            goal == filled_steps(steps_view(planned), data_view(entries)),
            frames_view(frames@) == lead + goal.take(planned.len() - steps@.len()),
        decreases steps@.len(),
    {
        let ghost before = frames@;
        let ghost at = planned.len() - steps@.len();
        let Planned { frame, call } = steps.remove(0);
        let bytes: Vec<u8> = data.remove(0);
        frames.push(
            match call {
                Some(_) => with_data(frame, bytes),
                None => frame,
            },
        );
        assert(steps_view(planned)[at] == planned[at]@);
        assert(data_view(entries)[at] == entries[at]@);
        assert(frames_view(frames@) =~= frames_view(before).push(goal[at]));
        assert(goal.take(at + 1) =~= goal.take(at).push(goal[at]));
        assert(frames_view(frames@) =~= lead + goal.take(at + 1));
    }
    assert(goal.take(planned.len() as int) =~= goal);
}

/// Completes a plan with the verifier frame that it asks for and the encoded
/// call of each of its steps; the entry for a step without a call is not used.
/// There is no transaction where the frame or the entries do not match the plan.
pub fn complete(plan: Plan, root_frame: Option<Frame>, data: Vec<Vec<u8>>) -> (spec: Option<
    FrameTxSpec,
>)
    ensures
        match spec {
            Some(spec) => (root_frame is Some <==> plan@.root is Some) && data@.len()
                == plan@.steps.len() && spec@ == completed(
                plan@,
                optional_frame_view(root_frame),
                data_view(data@),
            ),
            None => !(root_frame is Some <==> plan@.root is Some) || data@.len()
                != plan@.steps.len(),
        },
{
    let ghost goal = completed(plan@, optional_frame_view(root_frame), data_view(data@));
    let Plan { sender, nonce_keys, nonce_seq, root, steps } = plan;
    if root.is_some() != root_frame.is_some() || steps.len() != data.len() {
        return None;
    }
    let mut frames: Vec<Frame> = Vec::new();
    if let Some(frame) = root_frame {
        frames.push(frame);
    }
    fill_steps(&mut frames, steps, data);
    assert(frames_view(frames@) =~= goal.frames);
    Some(
        FrameTxSpec { sender, nonce_keys, nonce_seq, frames, recent_root_references: Vec::new() },
    )
}

/// The execution gas of the frames that approve a transaction.
pub open spec fn verify_gas(frames: Seq<FrameView>) -> nat
    decreases frames.len(),
{
    if frames.len() == 0 {
        0
    } else {
        verify_gas(frames.drop_last()) + if frames.last().mode == FrameMode::Verify.code_spec() {
            frames.last().gas_limit as nat
        } else {
            0
        }
    }
}

/// Whether one signature and the approving frames stay within the gas that a
/// node spends on them.
pub open spec fn within_verify_budget(spec: SpecView) -> bool {
    verify_gas(spec.frames) + SIGNATURE_VERIFICATION_GAS <= MAX_VERIFY_GAS
}

/// Whether a frame may stand in a transaction of `sender`: its mode and flags
/// are known, only a call on behalf of the sender carries value, and execution
/// is approved by the sender alone.
pub open spec fn is_admissible(frame: FrameView, sender: Seq<u8>) -> bool {
    &&& frame.mode <= 2
    &&& frame.flags < 8
    &&& frame.mode != FrameMode::Sender.code_spec() ==> frame.value == 0
    &&& frame.flags != 0 ==> frame.target is None || frame.target == Some(sender)
}

/// Whether every frame of a transaction is admissible.
pub open spec fn all_admissible(spec: SpecView) -> bool {
    forall|i: int|
        #![trigger spec.frames[i]]
        0 <= i < spec.frames.len() ==> is_admissible(spec.frames[i], spec.sender)
}

/// The state gas owed for keyed nonces: one storage slot for each key but
/// zero, which is the account's own nonce.
pub open spec fn nonce_state_gas(nonce_keys: Seq<nat>) -> nat
    decreases nonce_keys.len(),
{
    if nonce_keys.len() == 0 {
        0
    } else {
        nonce_state_gas(nonce_keys.drop_last()) + if nonce_keys.last() == 0 {
            0
        } else {
            KEYED_NONCE_STATE_GAS as nat
        }
    }
}

/// Whether the frame at `index`, and no other, approves the transaction, and
/// can pay the state gas that its nonce keys owe.
pub open spec fn is_approved_by(spec: SpecView, index: int) -> bool {
    &&& 0 <= index < spec.frames.len()
    &&& spec.frames[index].mode == FrameMode::Verify.code_spec()
    &&& spec.frames[index].state_gas_limit >= nonce_state_gas(spec.nonce_keys)
    &&& forall|i: int|
        #![trigger spec.frames[i]]
        0 <= i < spec.frames.len() ==> (i == index <==> spec.frames[i].flags
            == APPROVE_EXECUTION_AND_PAYMENT)
}

/// Whether `frame` is a verifier frame for recent roots with its usual gas.
pub open spec fn is_root_frame(frame: FrameView) -> bool {
    &&& frame.mode == FrameMode::Verify.code_spec()
    &&& frame.flags == 0
    &&& frame.value == 0
    &&& frame.gas_limit == RECENT_ROOT_FRAME_GAS
}

/// A completed deposit is admissible, approved by its first frame, and within
/// the approval budget. Its state gas pays for a storage slot at every level of
/// the tree, all of which the first deposit fills.
pub proof fn lemma_deposit_is_acceptable(
    depositor: Seq<u8>,
    owner: Seq<u8>,
    gas_tank: Seq<u8>,
    amount: nat,
    salt: Seq<u8>,
    nonce: u64,
    data: Seq<Seq<u8>>,
)
    ensures
        ({
            let plan = deposit_plan(depositor, owner, gas_tank, amount, salt, nonce);
            let spec = completed(plan, None, data);
            &&& within_verify_budget(spec)
            &&& all_admissible(spec)
            &&& is_approved_by(spec, 0)
            &&& spec.frames[1].state_gas_limit == DEPOSIT_STATE_GAS
            &&& DEPOSIT_STATE_GAS >= DEPTH * KEYED_NONCE_STATE_GAS
        }),
{
    reveal_with_fuel(verify_gas, 3);
    reveal_with_fuel(nonce_state_gas, 2);
}

/// A completed call paid for by the tank is admissible, approved by its second
/// frame and within the approval budget, and finds its root frame where its
/// approval says.
pub proof fn lemma_execute_is_acceptable(
    owner: Seq<u8>,
    gas_tank: Seq<u8>,
    spend: SpendContext,
    nonce_seq: u64,
    new_salt: Seq<u8>,
    target: Seq<u8>,
    call_data: Seq<u8>,
    root_frame: FrameView,
    data: Seq<Seq<u8>>,
)
    requires
        is_root_frame(root_frame),
    ensures
        ({
            let plan = execute_plan(
                owner,
                gas_tank,
                spend,
                nonce_seq,
                new_salt,
                target,
                call_data,
            );
            let spec = completed(plan, Some(root_frame), data);
            &&& within_verify_budget(spec)
            &&& all_admissible(spec)
            &&& is_approved_by(spec, 1)
            &&& spec.frames[ROOT_FRAME_INDEX as int] == root_frame
        }),
{
    reveal_with_fuel(verify_gas, 5);
    reveal_with_fuel(nonce_state_gas, 2);
}

/// A completed withdrawal is admissible, approved by its second frame and within
/// the approval budget, and finds its root frame where its call says.
pub proof fn lemma_withdraw_is_acceptable(
    owner: Seq<u8>,
    gas_tank: Seq<u8>,
    spend: SpendContext,
    nonce_seq: u64,
    to: Seq<u8>,
    root_frame: FrameView,
    data: Seq<Seq<u8>>,
)
    requires
        is_root_frame(root_frame),
    ensures
        ({
            let plan = withdraw_plan(owner, gas_tank, spend, nonce_seq, to);
            let spec = completed(plan, Some(root_frame), data);
            &&& within_verify_budget(spec)
            &&& all_admissible(spec)
            &&& is_approved_by(spec, 1)
            &&& spec.frames[ROOT_FRAME_INDEX as int] == root_frame
        }),
{
    reveal_with_fuel(verify_gas, 4);
    reveal_with_fuel(nonce_state_gas, 2);
}

/// The completed publication of a root is admissible, approved by its first
/// frame, and within the approval budget.
pub proof fn lemma_refresh_root_is_acceptable(
    sender: Seq<u8>,
    gas_tank: Seq<u8>,
    nonce: u64,
    data: Seq<Seq<u8>>,
)
    ensures
        ({
            let spec = completed(refresh_root_plan(sender, gas_tank, nonce), None, data);
            &&& within_verify_budget(spec)
            &&& all_admissible(spec)
            &&& is_approved_by(spec, 0)
        }),
{
    reveal_with_fuel(verify_gas, 3);
    reveal_with_fuel(nonce_state_gas, 2);
}

/// Where the nonce manager stores the nonce that a transaction uses.
pub open spec fn used_nonce_slot(plan: PlanView) -> nat {
    be_value(keccak256(zero_bytes(12) + plan.sender + be_bytes(plan.nonce_keys[0], 32)))
}

/// The nonce that is read before a spend is the one that the spend uses: the
/// tank's where the tank pays for a call, the owner's where the owner withdraws.
pub proof fn lemma_checked_nonce_is_used(
    owner: Seq<u8>,
    gas_tank: Seq<u8>,
    spend: SpendContext,
    nonce_seq: u64,
    new_salt: Seq<u8>,
    target: Seq<u8>,
    data: Seq<u8>,
    to: Seq<u8>,
)
    ensures
        used_nonce_slot(
            execute_plan(owner, gas_tank, spend, nonce_seq, new_salt, target, data),
        ) == nonce_slot_of(gas_tank, spend.leaf@),
        used_nonce_slot(withdraw_plan(owner, gas_tank, spend, nonce_seq, to)) == nonce_slot_of(
            owner,
            spend.leaf@,
        ),
{
    lemma_bytes_round_trip(spend.leaf@);
}

/// Different notes are spent under different nonce keys.
pub proof fn lemma_leaf_determines_nonce_key(leaf: Word, other: Word)
    requires
        be_value(leaf@) == be_value(other@),
    ensures
        leaf@ == other@,
{
    lemma_be_value_injective(leaf@, other@);
}

} // verus!
