//! The transactions behind the commands, for nodes that take recent roots in
//! the transaction's envelope and do not meter state gas.
use vstd::prelude::*;
use crate::bytes::{Address, copy_bytes, Word, words_view};
use crate::frame::{
    assembled,
    ChainFees,
    Frame,
    FrameMode,
    frames_view,
    FrameTxSpec,
    keys_view,
    RecentRootReference,
    self_verify_frame,
    self_verify_view,
    sender_frame,
    sender_view,
    SpecView,
};
use crate::merkle::DEPTH;
use crate::plan::{
    all_admissible,
    data_view,
    default_view,
    fill_steps,
    filled_steps,
    Planned,
    PlannedView,
    recent_root,
    root_step,
    steps_view,
};
use crate::spend::SpendContext;
use crate::u256::{be_value, U256};

verus! {

/// Gas of a frame that approves a transaction.
pub const APPROVAL_GAS: u64 = 300_000;

/// Gas of a call that records a commitment.
pub const COMMITMENT_GAS: u64 = 8_000_000;

/// What proves a note in the tree: the note, its position and proof, and where
/// the envelope names the root and the signature.
#[derive(Clone, Copy, Debug, PartialEq, Eq)]
pub struct Inclusion {
    pub owner: Address,
    pub amount: U256,
    pub salt: Word,
    pub leaf_index: U256,
    pub proof: [Word; DEPTH],
    pub root_ref_index: U256,
    pub sig_index: U256,
}

/// The mathematical content of an [`Inclusion`].
pub struct InclusionView {
    pub owner: Seq<u8>,
    pub amount: nat,
    pub salt: Seq<u8>,
    pub leaf_index: nat,
    pub proof: Seq<Seq<u8>>,
    pub root_ref_index: nat,
    pub sig_index: nat,
}

impl View for Inclusion {
    type V = InclusionView;

    open spec fn view(&self) -> InclusionView {
        InclusionView {
            owner: self.owner@,
            amount: self.amount@,
            salt: self.salt@,
            leaf_index: self.leaf_index@,
            proof: words_view(self.proof@),
            root_ref_index: self.root_ref_index@,
            sig_index: self.sig_index@,
        }
    }
}

/// A call of the tank: the function and its arguments.
#[derive(Debug, PartialEq, Eq)]
pub enum TankCall {
    /// Deposits the transaction's value into a note.
    Deposit { owner: Address, salt: Word },
    /// Approves the transaction by a note in the tree.
    Verify(Inclusion),
    /// Settles a spent note into a new one.
    Settle { new_salt: Word },
    /// Has the tank make a call.
    Execute { target: Address, data: Vec<u8> },
    /// Pays a note in the tree out.
    Withdraw { to: Address, inclusion: Inclusion },
    /// Publishes the current root.
    RefreshRoot,
}

/// The mathematical content of a [`TankCall`].
pub enum TankCallView {
    Deposit { owner: Seq<u8>, salt: Seq<u8> },
    Verify(InclusionView),
    Settle { new_salt: Seq<u8> },
    Execute { target: Seq<u8>, data: Seq<u8> },
    Withdraw { to: Seq<u8>, inclusion: InclusionView },
    RefreshRoot,
}

impl View for TankCall {
    type V = TankCallView;

    open spec fn view(&self) -> TankCallView {
        match self {
            TankCall::Deposit { owner, salt } => TankCallView::Deposit {
                owner: owner@,
                salt: salt@,
            },
            TankCall::Verify(inclusion) => TankCallView::Verify(inclusion@),
            TankCall::Settle { new_salt } => TankCallView::Settle { new_salt: new_salt@ },
            TankCall::Execute { target, data } => TankCallView::Execute {
                target: target@,
                data: data@,
            },
            TankCall::Withdraw { to, inclusion } => TankCallView::Withdraw {
                to: to@,
                inclusion: inclusion@,
            },
            TankCall::RefreshRoot => TankCallView::RefreshRoot,
        }
    }
}

/// A transaction of which the calls are not encoded yet.
#[derive(Debug)]
pub struct EnvelopePlan {
    pub sender: Address,
    pub nonce_keys: Vec<U256>,
    pub nonce_seq: u64,
    pub steps: Vec<Planned<TankCall>>,
    pub recent_root_references: Vec<RecentRootReference>,
}

/// The mathematical content of an [`EnvelopePlan`].
pub struct EnvelopePlanView {
    pub sender: Seq<u8>,
    pub nonce_keys: Seq<nat>,
    pub nonce_seq: u64,
    pub steps: Seq<PlannedView<TankCallView>>,
    pub recent_root_references: Seq<RecentRootReference>,
}

impl View for EnvelopePlan {
    type V = EnvelopePlanView;

    open spec fn view(&self) -> EnvelopePlanView {
        EnvelopePlanView {
            sender: self.sender@,
            nonce_keys: keys_view(self.nonce_keys@),
            nonce_seq: self.nonce_seq,
            steps: steps_view(self.steps@),
            recent_root_references: self.recent_root_references@,
        }
    }
}

/// What proves the note behind `spend` against the first root of the envelope,
/// under the transaction's first signature.
pub open spec fn spend_inclusion(owner: Seq<u8>, spend: SpendContext) -> InclusionView {
    InclusionView {
        owner,
        amount: spend.amount@,
        salt: spend.salt@,
        leaf_index: spend.leaf_index@,
        proof: words_view(spend.proof@),
        root_ref_index: 0,
        sig_index: 0,
    }
}

/// The deposit of `amount` into a note of `owner`, from the depositor's own
/// account: the depositor's approval, then the deposit.
pub open spec fn deposit_plan(
    depositor: Seq<u8>,
    owner: Seq<u8>,
    gas_tank: Seq<u8>,
    amount: nat,
    salt: Seq<u8>,
    nonce: u64,
) -> EnvelopePlanView {
    EnvelopePlanView {
        sender: depositor,
        nonce_keys: seq![0],
        nonce_seq: nonce,
        steps: seq![
            PlannedView { frame: self_verify_view(depositor, APPROVAL_GAS), call: None },
            PlannedView {
                frame: sender_view(gas_tank, amount, Seq::empty(), COMMITMENT_GAS),
                call: Some(TankCallView::Deposit { owner, salt }),
            },
        ],
        recent_root_references: Seq::empty(),
    }
}

/// A call of `target` that the note of `owner` pays for. The tank is the sender,
/// and the note's leaf is the nonce key. The tank approves by verifying the
/// note, settles what is left of it under `new_salt`, and makes the call.
pub open spec fn execute_plan(
    owner: Seq<u8>,
    gas_tank: Seq<u8>,
    spend: SpendContext,
    nonce_seq: u64,
    new_salt: Seq<u8>,
    target: Seq<u8>,
    data: Seq<u8>,
) -> EnvelopePlanView {
    EnvelopePlanView {
        sender: gas_tank,
        nonce_keys: seq![be_value(spend.leaf@)],
        nonce_seq,
        steps: seq![
            PlannedView {
                frame: self_verify_view(gas_tank, APPROVAL_GAS),
                call: Some(TankCallView::Verify(spend_inclusion(owner, spend))),
            },
            PlannedView {
                frame: sender_view(gas_tank, 0, Seq::empty(), COMMITMENT_GAS),
                call: Some(TankCallView::Settle { new_salt }),
            },
            PlannedView {
                frame: sender_view(gas_tank, 0, Seq::empty(), 1_500_000),
                call: Some(TankCallView::Execute { target, data }),
            },
        ],
        recent_root_references: seq![root_step(spend).reference],
    }
}

/// The payment of the note of `owner` to `to`. The owner is the sender, and the
/// note's leaf is the nonce key. The owner approves, then the note is withdrawn.
pub open spec fn withdraw_plan(
    owner: Seq<u8>,
    gas_tank: Seq<u8>,
    spend: SpendContext,
    nonce_seq: u64,
    to: Seq<u8>,
) -> EnvelopePlanView {
    EnvelopePlanView {
        sender: owner,
        nonce_keys: seq![be_value(spend.leaf@)],
        nonce_seq,
        steps: seq![
            PlannedView { frame: self_verify_view(owner, APPROVAL_GAS), call: None },
            PlannedView {
                frame: default_view(gas_tank, Seq::empty(), 3_000_000, 0),
                call: Some(
                    TankCallView::Withdraw { to, inclusion: spend_inclusion(owner, spend) },
                ),
            },
        ],
        recent_root_references: seq![root_step(spend).reference],
    }
}

/// The publication of the tank's current root: the sender's approval, then the
/// call.
pub open spec fn refresh_root_plan(
    sender: Seq<u8>,
    gas_tank: Seq<u8>,
    nonce: u64,
) -> EnvelopePlanView {
    EnvelopePlanView {
        sender,
        nonce_keys: seq![0],
        nonce_seq: nonce,
        steps: seq![
            PlannedView { frame: self_verify_view(sender, APPROVAL_GAS), call: None },
            PlannedView {
                frame: sender_view(gas_tank, 0, Seq::empty(), 500_000),
                call: Some(TankCallView::RefreshRoot),
            },
        ],
        recent_root_references: Seq::empty(),
    }
}

fn inclusion_of(owner: Address, spend: &SpendContext) -> (inclusion: Inclusion)
    ensures
        inclusion@ == spend_inclusion(owner@, *spend),
{
    Inclusion {
        owner,
        amount: spend.amount,
        salt: spend.salt,
        leaf_index: spend.leaf_index,
        proof: spend.proof,
        root_ref_index: U256::zero(),
        sig_index: U256::zero(),
    }
}

/// Plans the deposit of `amount` into a note of `owner` with `salt`.
pub fn plan_deposit(
    depositor: Address,
    owner: Address,
    gas_tank: Address,
    amount: U256,
    salt: &Word,
    nonce: u64,
) -> (plan: EnvelopePlan)
    ensures
        plan@ == deposit_plan(depositor@, owner@, gas_tank@, amount@, salt@, nonce),
{
    let ghost expected = deposit_plan(depositor@, owner@, gas_tank@, amount@, salt@, nonce);
    let plan: EnvelopePlan = EnvelopePlan {
        sender: depositor,
        nonce_keys: vec![U256::zero()],
        nonce_seq: nonce,
        steps: vec![
            Planned { frame: self_verify_frame(depositor, APPROVAL_GAS), call: None },
            Planned {
                frame: sender_frame(gas_tank, amount, Vec::new(), COMMITMENT_GAS),
                call: Some(TankCall::Deposit { owner, salt: *salt }),
            },
        ],
        recent_root_references: Vec::new(),
    };
    assert(plan@.nonce_keys =~= expected.nonce_keys);
    assert(plan@.steps =~= expected.steps);
    plan
}

/// Plans a call of `target` with `data` that the note behind `spend` pays for.
pub fn plan_execute(
    owner: Address,
    gas_tank: Address,
    spend: &SpendContext,
    nonce_seq: u64,
    new_salt: &Word,
    target: Address,
    data: &[u8],
) -> (plan: EnvelopePlan)
    ensures
        plan@ == execute_plan(owner@, gas_tank@, *spend, nonce_seq, new_salt@, target@, data@),
{
    let ghost expected = execute_plan(
        owner@,
        gas_tank@,
        *spend,
        nonce_seq,
        new_salt@,
        target@,
        data@,
    );
    let plan: EnvelopePlan = EnvelopePlan {
        sender: gas_tank,
        nonce_keys: vec![U256::from_big_endian(&spend.leaf)],
        nonce_seq,
        steps: vec![
            Planned {
                frame: self_verify_frame(gas_tank, APPROVAL_GAS),
                call: Some(TankCall::Verify(inclusion_of(owner, spend))),
            },
            Planned {
                frame: sender_frame(gas_tank, U256::zero(), Vec::new(), COMMITMENT_GAS),
                call: Some(TankCall::Settle { new_salt: *new_salt }),
            },
            Planned {
                frame: sender_frame(gas_tank, U256::zero(), Vec::new(), 1_500_000),
                call: Some(TankCall::Execute { target, data: copy_bytes(data) }),
            },
        ],
        recent_root_references: vec![recent_root(spend)],
    };
    assert(plan@.nonce_keys =~= expected.nonce_keys);
    assert(plan@.steps =~= expected.steps);
    assert(plan@.recent_root_references =~= expected.recent_root_references);
    plan
}

/// Plans the payment of the note behind `spend` to `to`.
pub fn plan_withdraw(
    owner: Address,
    gas_tank: Address,
    spend: &SpendContext,
    nonce_seq: u64,
    to: Address,
) -> (plan: EnvelopePlan)
    ensures
        plan@ == withdraw_plan(owner@, gas_tank@, *spend, nonce_seq, to@),
{
    let ghost expected = withdraw_plan(owner@, gas_tank@, *spend, nonce_seq, to@);
    let withdraw: Frame = Frame {
        mode: FrameMode::Default.code(),
        flags: 0,
        target: Some(gas_tank),
        gas_limit: 3_000_000,
        state_gas_limit: 0,
        value: U256::zero(),
        data: Vec::new(),
    };
    let plan: EnvelopePlan = EnvelopePlan {
        sender: owner,
        nonce_keys: vec![U256::from_big_endian(&spend.leaf)],
        nonce_seq,
        steps: vec![
            Planned { frame: self_verify_frame(owner, APPROVAL_GAS), call: None },
            Planned {
                frame: withdraw,
                call: Some(TankCall::Withdraw { to, inclusion: inclusion_of(owner, spend) }),
            },
        ],
        recent_root_references: vec![recent_root(spend)],
    };
    assert(plan@.nonce_keys =~= expected.nonce_keys);
    assert(plan@.steps =~= expected.steps);
    assert(plan@.recent_root_references =~= expected.recent_root_references);
    plan
}

/// Plans the publication of the tank's current root.
pub fn plan_refresh_root(sender: Address, gas_tank: Address, nonce: u64) -> (plan: EnvelopePlan)
    ensures
        plan@ == refresh_root_plan(sender@, gas_tank@, nonce),
{
    let ghost expected = refresh_root_plan(sender@, gas_tank@, nonce);
    let plan: EnvelopePlan = EnvelopePlan {
        sender,
        nonce_keys: vec![U256::zero()],
        nonce_seq: nonce,
        steps: vec![
            Planned { frame: self_verify_frame(sender, APPROVAL_GAS), call: None },
            Planned {
                frame: sender_frame(gas_tank, U256::zero(), Vec::new(), 500_000),
                call: Some(TankCall::RefreshRoot),
            },
        ],
        recent_root_references: Vec::new(),
    };
    assert(plan@.nonce_keys =~= expected.nonce_keys);
    assert(plan@.steps =~= expected.steps);
    plan
}

/// The transaction of a plan, with the call of each step encoded in `data` at
/// the same position.
pub open spec fn completed(plan: EnvelopePlanView, data: Seq<Seq<u8>>) -> SpecView {
    SpecView {
        sender: plan.sender,
        nonce_keys: plan.nonce_keys,
        nonce_seq: plan.nonce_seq,
        frames: filled_steps(plan.steps, data),
        recent_root_references: plan.recent_root_references,
    }
}

/// Completes a plan with the encoded call of each of its steps; the entry for a
/// step without a call is not used. There is no transaction where the entries do
/// not match the steps.
pub fn complete(plan: EnvelopePlan, data: Vec<Vec<u8>>) -> (spec: Option<FrameTxSpec>)
    ensures
        match spec {
            Some(spec) => data@.len() == plan@.steps.len() && spec@ == completed(
                plan@,
                data_view(data@),
            ),
            None => data@.len() != plan@.steps.len(),
        },
{
    let ghost goal = completed(plan@, data_view(data@));
    let EnvelopePlan { sender, nonce_keys, nonce_seq, steps, recent_root_references } = plan;
    if steps.len() != data.len() {
        return None;
    }
    let mut frames: Vec<Frame> = Vec::new();
    fill_steps(&mut frames, steps, data);
    assert(frames_view(frames@) =~= goal.frames);
    Some(FrameTxSpec { sender, nonce_keys, nonce_seq, frames, recent_root_references })
}

/// A completed deposit is admissible and can be signed and encoded.
pub proof fn lemma_deposit_fits_envelope(
    depositor: Seq<u8>,
    owner: Seq<u8>,
    gas_tank: Seq<u8>,
    amount: nat,
    salt: Seq<u8>,
    nonce: u64,
    data: Seq<Seq<u8>>,
    signer: Seq<u8>,
    fees: ChainFees,
)
    ensures
        ({
            let plan = deposit_plan(depositor, owner, gas_tank, amount, salt, nonce);
            let spec = completed(plan, data);
            all_admissible(spec) && assembled(spec, signer, fees).fits_envelope()
        }),
{
}

/// The completed publication of a root is admissible and can be signed and
/// encoded.
pub proof fn lemma_refresh_root_fits_envelope(
    sender: Seq<u8>,
    gas_tank: Seq<u8>,
    nonce: u64,
    data: Seq<Seq<u8>>,
    signer: Seq<u8>,
    fees: ChainFees,
)
    ensures
        ({
            let spec = completed(refresh_root_plan(sender, gas_tank, nonce), data);
            all_admissible(spec) && assembled(spec, signer, fees).fits_envelope()
        }),
{
}

/// A completed call paid for by the tank and a completed withdrawal are
/// admissible, and find the spend's root where their calls say.
pub proof fn lemma_spends_are_admissible(
    owner: Seq<u8>,
    gas_tank: Seq<u8>,
    spend: SpendContext,
    nonce_seq: u64,
    new_salt: Seq<u8>,
    target: Seq<u8>,
    call_data: Seq<u8>,
    to: Seq<u8>,
    data: Seq<Seq<u8>>,
)
    ensures
        ({
            let plan = execute_plan(
                owner,
                gas_tank,
                spend,
                nonce_seq,
                new_salt,
                target,
                call_data,
            );
            let spec = completed(plan, data);
            let index = spend_inclusion(owner, spend).root_ref_index;
            all_admissible(spec) && spec.recent_root_references[index as int] == root_step(
                spend,
            ).reference
        }),
        ({
            let spec = completed(withdraw_plan(owner, gas_tank, spend, nonce_seq, to), data);
            let index = spend_inclusion(owner, spend).root_ref_index;
            all_admissible(spec) && spec.recent_root_references[index as int] == root_step(
                spend,
            ).reference
        }),
{
}

} // verus!
