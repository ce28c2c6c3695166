use ethrex_common::types::{
    Frame as NodeFrame, FrameMode as NodeMode, FrameSignature as NodeSignature,
    FrameTransaction as NodeTransaction, Transaction,
};
use ethrex_common::utils::keccak;
use gastank::bytes::Address;
use gastank::calldata::{Call, Value};
use gastank::contract::{
    encode_deposit, encode_execute, encode_refresh_root, encode_settle, encode_verify,
    encode_withdraw,
};
use gastank::envelope_plan::{self, EnvelopePlan, Inclusion, TankCall};
use gastank::frame::{
    assemble, envelope_encoding, envelope_sig_hash, fits_envelope, owner_signature,
    self_verify_frame, sender_frame, sign, signed_in_envelope, with_data, with_state_gas,
    ChainFees, Frame, FrameMode, FrameTransaction, FrameTxSpec, RecentRootReference,
    APPROVE_EXECUTION_AND_PAYMENT, FRAME_SIG_SCHEME_SECP256K1,
};
use gastank::hex_text::{encode_prefixed, HexError};
use gastank::keys::{
    address_from_secret_key, parse_secret_key, sign_recoverable, KeyError, SecretKey,
};
use gastank::plan::{self, Plan, RootStep};
use gastank::spend::{nonce_slot, SpendContext};
use gastank::u256::U256;

const TANK: Address = [0x44; 20];

const FEES: ChainFees = ChainFees {
    chain_id: 1337,
    max_priority_fee_per_gas: 3,
    gas_price: 100,
};

fn key() -> SecretKey {
    parse_secret_key(&format!("0x{:064x}", 1)).ok().unwrap()
}

fn address(text: &str) -> Address {
    hex::decode(text).unwrap().try_into().unwrap()
}

fn node_transaction(tx: &FrameTransaction) -> NodeTransaction {
    NodeTransaction {
        chain_id: tx.chain_id,
        nonce: tx.nonce_seq,
        sender: tx.sender.into(),
        frames: tx
            .frames
            .iter()
            .map(|frame| NodeFrame {
                mode: frame.mode,
                flags: frame.flags,
                target: frame.target.map(Into::into),
                gas_limit: frame.gas_limit,
                value: ethrex_common::U256(frame.value.limbs),
                data: frame.data.clone().into(),
            })
            .collect(),
        signatures: tx
            .signatures
            .iter()
            .map(|entry| NodeSignature {
                scheme: entry.scheme,
                signer: entry.signer.map(Into::into),
                msg: entry.msg.clone().into(),
                signature: entry.signature.clone().into(),
            })
            .collect(),
        max_priority_fee_per_gas: tx.max_priority_fee_per_gas,
        max_fee_per_gas: tx.max_fee_per_gas,
        ..Default::default()
    }
}

fn recovered(digest: [u8; 32], v: u8, compact: &[u8]) -> Address {
    let id = secp256k1::ecdsa::RecoveryId::try_from(i32::from(v)).unwrap();
    let signature = secp256k1::ecdsa::RecoverableSignature::from_compact(compact, id).unwrap();
    let message = secp256k1::Message::from_digest(digest);
    let public = secp256k1::SECP256K1.recover_ecdsa(&message, &signature).unwrap();
    keccak(&public.serialize_uncompressed()[1..]).0[12..].try_into().unwrap()
}

fn deposit() -> FrameTxSpec {
    let owner = address_from_secret_key(&key());
    let plan = envelope_plan::plan_deposit(owner, owner, TANK, U256::from_u64(5), &[8; 32], 7);
    envelope_plan::complete(plan, vec![vec![], vec![1, 2, 3, 4]]).unwrap()
}

fn spend() -> SpendContext {
    SpendContext {
        amount: U256::from_u64(1000),
        salt: [1; 32],
        leaf: [2; 32],
        leaf_index: U256::from_u64(3),
        proof: [[4; 32]; 20],
        root: [5; 32],
        slot: 6,
        source_id: [7; 32],
    }
}

fn root_frame() -> Frame {
    Frame {
        mode: FrameMode::Verify.code(),
        flags: 0,
        target: Some([0x82; 20]),
        gas_limit: plan::RECENT_ROOT_FRAME_GAS,
        state_gas_limit: 0,
        value: U256::zero(),
        data: vec![9; 72],
    }
}

/// The four plans, each with the encodings `[1]`, `[2]`, `[3]` for its steps.
fn completed_plans() -> Vec<FrameTxSpec> {
    let spend = spend();
    [
        plan::plan_deposit([1; 20], [6; 20], TANK, U256::from_u64(9), &[8; 32], 4),
        plan::plan_execute([1; 20], TANK, &spend, 0, &[8; 32], [9; 20], &[1, 2]),
        plan::plan_withdraw([1; 20], TANK, &spend, 0, [3; 20]),
        plan::plan_refresh_root([1; 20], TANK, 6),
    ]
    .into_iter()
    .map(|plan| {
        let data = (1..=plan.steps.len() as u8).map(|i| vec![i]).collect();
        let frame = plan.root.map(|_| root_frame());
        plan::complete(plan, frame, data).unwrap()
    })
    .collect()
}

fn show(call: &Option<Call>) -> String {
    format!("{:?}", call)
}

fn steps(plan: &Plan) -> Vec<(u8, u8, u64, u64)> {
    plan.steps
        .iter()
        .map(|step| {
            let frame = &step.frame;
            assert!(frame.data.is_empty());
            (frame.mode, frame.flags, frame.gas_limit, frame.state_gas_limit)
        })
        .collect()
}

fn envelope_steps(plan: &EnvelopePlan) -> Vec<(u8, u8, u64)> {
    plan.steps
        .iter()
        .map(|step| {
            assert!(step.frame.data.is_empty());
            assert_eq!(step.frame.state_gas_limit, 0);
            (step.frame.mode, step.frame.flags, step.frame.gas_limit)
        })
        .collect()
}

fn inclusion(owner: Address, spend: &SpendContext) -> Inclusion {
    Inclusion {
        owner,
        amount: spend.amount,
        salt: spend.salt,
        leaf_index: spend.leaf_index,
        proof: spend.proof,
        root_ref_index: U256::zero(),
        sig_index: U256::zero(),
    }
}

fn limits(spec: &FrameTxSpec) -> Vec<(u8, u8, u64, u64)> {
    spec.frames
        .iter()
        .map(|frame| (frame.mode, frame.flags, frame.gas_limit, frame.state_gas_limit))
        .collect()
}

#[test]
fn keys_are_hex_with_or_without_prefix() {
    let text = format!("{:064x}", 1);
    let one = address("7e5f4552091a69125d5dfcb7b8c2659029395bdf");
    assert_eq!(address_from_secret_key(&parse_secret_key(&text).ok().unwrap()), one);
    let prefixed = format!("0x{text}");
    assert_eq!(address_from_secret_key(&parse_secret_key(&prefixed).ok().unwrap()), one);
}

#[test]
fn texts_that_are_no_key_are_refused() {
    let refusal = |text: &str| parse_secret_key(text).err();
    assert_eq!(refusal("0x123"), Some(KeyError::Hex(HexError::OddLength)));
    assert_eq!(
        refusal("zz"),
        Some(KeyError::Hex(HexError::InvalidHexCharacter { c: 'z', index: 0 }))
    );
    assert_eq!(refusal(""), Some(KeyError::InvalidSecretKey));
    assert_eq!(refusal(&"00".repeat(32)), Some(KeyError::InvalidSecretKey));
    assert_eq!(refusal(&"01".repeat(31)), Some(KeyError::InvalidSecretKey));
    assert_eq!(refusal(&"01".repeat(33)), Some(KeyError::InvalidSecretKey));
    let order = "fffffffffffffffffffffffffffffffebaaedce6af48a03bbfd25e8cd0364141";
    let below = "fffffffffffffffffffffffffffffffebaaedce6af48a03bbfd25e8cd0364140";
    assert_eq!(refusal(order), Some(KeyError::InvalidSecretKey));
    assert_eq!(refusal(order).unwrap().message(), "invalid private key");
    assert_eq!(refusal("zz").unwrap().message(), "invalid private key");
    assert_eq!(refusal(below), None);
}

#[test]
fn a_key_is_read_back_from_its_hex() {
    let secret = [0x5a; 32];
    let text = encode_prefixed(&secret);
    let prefixed = parse_secret_key(&text).ok().unwrap();
    let bare = parse_secret_key(&text[2..]).ok().unwrap();
    assert_eq!(address_from_secret_key(&prefixed), address_from_secret_key(&bare));
}

#[test]
fn signatures_recover_to_their_signer() {
    let digest = [0x33; 32];
    let (v, compact) = sign_recoverable(&digest, &key());
    assert!(v <= 3);
    assert_eq!(recovered(digest, v, &compact), address_from_secret_key(&key()));
    assert_eq!(sign_recoverable(&digest, &key()), (v, compact));
}

#[test]
fn modes_and_constants_are_those_of_the_node() {
    assert_eq!(FrameMode::Default.code(), NodeMode::Default as u8);
    assert_eq!(FrameMode::Verify.code(), NodeMode::Verify as u8);
    assert_eq!(FrameMode::Sender.code(), NodeMode::Sender as u8);
    assert_eq!(
        APPROVE_EXECUTION_AND_PAYMENT,
        ethrex_common::types::APPROVE_EXECUTION_AND_PAYMENT
    );
    assert_eq!(
        FRAME_SIG_SCHEME_SECP256K1,
        ethrex_common::types::FRAME_SIG_SCHEME_SECP256K1
    );
    assert_eq!(plan::MAX_VERIFY_GAS, ethrex_common::types::FRAME_TX_MAX_VERIFY_GAS);
    assert_eq!(
        plan::SIGNATURE_VERIFICATION_GAS,
        node_transaction(&assemble(deposit(), TANK, FEES)).signature_verification_cost()
    );
}

#[test]
fn frames_are_built_from_their_parts() {
    let verify = self_verify_frame(TANK, 30_000);
    assert_eq!((verify.mode, verify.flags, verify.target), (1, 3, Some(TANK)));
    assert_eq!((verify.gas_limit, verify.state_gas_limit), (30_000, 0));
    assert!(verify.value.is_zero() && verify.data.is_empty());
    let call = with_state_gas(sender_frame(TANK, U256::from_u64(5), vec![1], 40_000), 50);
    assert_eq!((call.mode, call.flags, call.target), (2, 0, Some(TANK)));
    assert_eq!((call.gas_limit, call.state_gas_limit), (40_000, 50));
    assert_eq!((call.value, call.data.clone()), (U256::from_u64(5), vec![1]));
    let other = with_data(call, vec![2, 3]);
    assert_eq!((other.gas_limit, other.data), (40_000, vec![2, 3]));
    let entry = owner_signature(TANK);
    assert_eq!((entry.scheme, entry.signer), (1, Some(TANK)));
    assert!(entry.msg.is_empty() && entry.signature.is_empty());
}

#[test]
fn assembling_adds_fees_and_an_unsigned_entry() {
    let tx = assemble(deposit(), TANK, FEES);
    assert_eq!(tx.chain_id, 1337);
    assert_eq!(tx.max_priority_fee_per_gas, 3);
    assert_eq!(tx.max_fee_per_gas, 103);
    assert_eq!(tx.nonce_seq, 7);
    assert_eq!(tx.nonce_keys, vec![U256::zero()]);
    assert_eq!(tx.signatures.len(), 1);
    assert_eq!(tx.signatures[0].signer, Some(TANK));
    assert!(tx.signatures[0].signature.is_empty());
}

#[test]
fn a_signed_transaction_authenticates_its_signer() {
    let signer = address_from_secret_key(&key());
    let mut tx = assemble(deposit(), signer, FEES);
    let hash = envelope_sig_hash(&tx).unwrap();
    assert_eq!(hash, node_transaction(&tx).compute_sig_hash().0);
    sign(&mut tx, 0, &hash, &key());
    let raw = tx.signatures[0].signature.clone();
    assert_eq!(raw.len(), 65);
    assert_eq!(recovered(hash, raw[0], &raw[1..]), signer);
    assert_eq!(envelope_sig_hash(&tx), Some(hash));
    sign(&mut tx, 0, &hash, &key());
    assert_eq!(tx.signatures[0].signature, raw);
}

#[test]
fn a_signed_transaction_is_encoded_for_the_node() {
    let signer = address_from_secret_key(&key());
    let raw = signed_in_envelope(&key(), deposit(), FEES).unwrap();
    let mut tx = assemble(deposit(), signer, FEES);
    let hash = envelope_sig_hash(&tx).unwrap();
    sign(&mut tx, 0, &hash, &key());
    let expected = Transaction::FrameTransaction(node_transaction(&tx)).encode_canonical_to_vec();
    assert_eq!(envelope_encoding(&tx), Some(expected.clone()));
    assert_eq!(raw, expected);
    assert_eq!(raw[0], 0x06);
}

#[test]
fn the_envelope_holds_only_plain_transactions() {
    let plain = assemble(deposit(), TANK, FEES);
    assert!(fits_envelope(&plain));
    assert!(envelope_sig_hash(&plain).is_some());

    let mut keyed = assemble(deposit(), TANK, FEES);
    keyed.nonce_keys = vec![U256::from_u64(1)];
    let mut unkeyed = assemble(deposit(), TANK, FEES);
    unkeyed.nonce_keys.clear();
    let mut metered = assemble(deposit(), TANK, FEES);
    metered.frames[1].state_gas_limit = 1;
    let mut referring = assemble(deposit(), TANK, FEES);
    referring.recent_root_references.push(plan::recent_root(&spend()));
    for tx in [keyed, unkeyed, metered, referring] {
        assert!(!fits_envelope(&tx));
        assert_eq!(envelope_sig_hash(&tx), None);
        assert_eq!(envelope_encoding(&tx), None);
    }
    for spec in completed_plans() {
        assert_eq!(signed_in_envelope(&key(), spec, FEES), None);
    }
}

#[test]
fn every_transaction_can_be_signed() {
    let signer = address_from_secret_key(&key());
    for spec in completed_plans() {
        let frames = spec.frames.len();
        let mut tx = assemble(spec, signer, FEES);
        sign(&mut tx, 0, &[0x66; 32], &key());
        let raw = &tx.signatures[0].signature;
        assert_eq!(raw.len(), 65);
        assert_eq!(recovered([0x66; 32], raw[0], &raw[1..]), signer);
        assert_eq!(tx.signatures[0].signer, Some(signer));
        assert_eq!(tx.frames.len(), frames);
    }
}

#[test]
fn only_the_named_entry_is_signed() {
    let mut tx = assemble(deposit(), TANK, FEES);
    tx.signatures.push(owner_signature([0x55; 20]));
    sign(&mut tx, 1, &[0x66; 32], &key());
    assert!(tx.signatures[0].signature.is_empty());
    let raw = &tx.signatures[1].signature;
    assert_eq!(
        recovered([0x66; 32], raw[0], &raw[1..]),
        address_from_secret_key(&key())
    );
}

#[test]
fn deposits_come_from_the_depositor() {
    let plan = plan::plan_deposit([1; 20], [6; 20], TANK, U256::from_u64(9), &[8; 32], 4);
    assert_eq!((plan.sender, plan.nonce_seq, plan.root), ([1; 20], 4, None));
    assert_eq!(plan.nonce_keys, vec![U256::zero()]);
    assert_eq!(steps(&plan), vec![(1, 3, 30_000, 0), (2, 0, 1_000_000, 3_000_000)]);
    assert_eq!(plan.steps[0].frame.target, Some([1; 20]));
    assert_eq!(plan.steps[1].frame.target, Some(TANK));
    assert_eq!(plan.steps[1].frame.value, U256::from_u64(9));
    assert!(plan.steps[0].call.is_none());
    assert_eq!(show(&plan.steps[1].call), show(&Some(encode_deposit(&[6; 20], &[8; 32]))));
}

#[test]
fn executions_are_paid_by_the_tank() {
    let spend = spend();
    let zero = U256::zero();
    let plan = plan::plan_execute([1; 20], TANK, &spend, 0, &[8; 32], [9; 20], &[1, 2]);
    assert_eq!(plan.sender, TANK);
    assert_eq!(plan.nonce_keys, vec![U256 { limbs: [0x0202_0202_0202_0202; 4] }]);
    assert_eq!(
        plan.root,
        Some(RootStep { reference: plan::recent_root(&spend), gas_limit: 8_000 })
    );
    assert_eq!(
        steps(&plan),
        vec![(1, 3, 85_000, 97_920), (2, 0, 500_000, 1_000_000), (2, 0, 1_500_000, 500_000)]
    );
    assert!(plan.steps.iter().all(|step| step.frame.target == Some(TANK)));
    assert!(plan.steps.iter().all(|step| step.frame.value.is_zero()));
    let verify = encode_verify(
        &[1; 20], &spend.amount, &spend.salt, &spend.leaf_index, &spend.proof, &zero, &zero, &zero,
    );
    assert_eq!(show(&plan.steps[0].call), show(&Some(verify)));
    assert_eq!(show(&plan.steps[1].call), show(&Some(encode_settle(&[8; 32]))));
    assert_eq!(show(&plan.steps[2].call), show(&Some(encode_execute(&[9; 20], &[1, 2]))));
}

#[test]
fn withdrawals_come_from_the_owner() {
    let spend = spend();
    let zero = U256::zero();
    let plan = plan::plan_withdraw([1; 20], TANK, &spend, 0, [3; 20]);
    assert_eq!(plan.sender, [1; 20]);
    assert_eq!(plan.nonce_keys, vec![U256 { limbs: [0x0202_0202_0202_0202; 4] }]);
    assert_eq!(
        plan.root,
        Some(RootStep { reference: plan::recent_root(&spend), gas_limit: 8_000 })
    );
    assert_eq!(steps(&plan), vec![(1, 3, 30_000, 97_920), (0, 0, 3_000_000, 500_000)]);
    assert_eq!(plan.steps[0].frame.target, Some([1; 20]));
    assert_eq!(plan.steps[1].frame.target, Some(TANK));
    assert!(plan.steps[0].call.is_none());
    let withdraw = encode_withdraw(
        &[3; 20], &[1; 20], &spend.amount, &spend.salt, &spend.leaf_index, &spend.proof, &zero,
        &zero, &zero,
    );
    assert_eq!(show(&plan.steps[1].call), show(&Some(withdraw)));
}

#[test]
fn refreshing_the_root_calls_the_tank() {
    let plan = plan::plan_refresh_root([1; 20], TANK, 6);
    assert_eq!((plan.sender, plan.nonce_seq, plan.root), ([1; 20], 6, None));
    assert_eq!(steps(&plan), vec![(1, 3, 30_000, 0), (2, 0, 500_000, 500_000)]);
    assert!(plan.steps[0].call.is_none());
    assert_eq!(show(&plan.steps[1].call), show(&Some(encode_refresh_root())));
    assert!(plan.steps[1].frame.value.is_zero());
}

#[test]
fn completed_plans_carry_the_encodings_in_order() {
    let data: Vec<Vec<Vec<u8>>> = completed_plans()
        .iter()
        .map(|spec| spec.frames.iter().map(|frame| frame.data.clone()).collect())
        .collect();
    let root = vec![9; 72];
    assert_eq!(data[0], vec![vec![], vec![2]]);
    assert_eq!(data[1], vec![root.clone(), vec![1], vec![2], vec![3]]);
    assert_eq!(data[2], vec![root, vec![], vec![2]]);
    assert_eq!(data[3], vec![vec![], vec![2]]);
    let spec = &completed_plans()[1];
    assert_eq!(
        limits(spec),
        vec![
            (1, 0, 8_000, 0),
            (1, 3, 85_000, 97_920),
            (2, 0, 500_000, 1_000_000),
            (2, 0, 1_500_000, 500_000),
        ]
    );
    assert_eq!((spec.sender, spec.nonce_seq), (TANK, 0));
    assert!(spec.recent_root_references.is_empty());
}

#[test]
fn a_plan_is_completed_by_matching_parts_only() {
    let plan = || plan::plan_withdraw([1; 20], TANK, &spend(), 0, [3; 20]);
    assert!(plan::complete(plan(), None, vec![vec![], vec![]]).is_none());
    assert!(plan::complete(plan(), Some(root_frame()), vec![vec![]]).is_none());
    let refresh = plan::plan_refresh_root([1; 20], TANK, 6);
    assert!(plan::complete(refresh, Some(root_frame()), vec![vec![], vec![]]).is_none());
}

#[test]
fn approvals_stay_within_the_verification_budget() {
    for spec in completed_plans() {
        let approving: u64 = spec
            .frames
            .iter()
            .filter(|frame| frame.mode == FrameMode::Verify.code())
            .map(|frame| frame.gas_limit)
            .sum();
        assert!(approving + plan::SIGNATURE_VERIFICATION_GAS <= plan::MAX_VERIFY_GAS);
    }
}

#[test]
fn spends_of_different_notes_use_different_keys() {
    let mut other = spend();
    other.leaf[31] = 3;
    let keys = |spend| plan::plan_withdraw([1; 20], TANK, &spend, 0, [3; 20]).nonce_keys;
    assert_ne!(keys(spend()), keys(other));
}

#[test]
fn every_plan_is_approved_once_and_pays_for_its_nonce() {
    for spec in completed_plans() {
        let approving: Vec<&Frame> = spec
            .frames
            .iter()
            .filter(|frame| frame.flags == APPROVE_EXECUTION_AND_PAYMENT)
            .collect();
        assert_eq!(approving.len(), 1);
        assert_eq!(approving[0].target, Some(spec.sender));
        let owed = if spec.nonce_keys[0].is_zero() { 0 } else { 64 * 1530 };
        assert_eq!(approving[0].state_gas_limit, owed);
    }
    assert!(plan::DEPOSIT_STATE_GAS >= 20 * plan::KEYED_NONCE_STATE_GAS);
}

#[test]
fn the_nonce_that_is_checked_is_used() {
    let leaf: [u8; 32] = std::array::from_fn(|i| i as u8);
    let spend = SpendContext { leaf, ..spend() };
    let plans = [
        plan::plan_execute([1; 20], TANK, &spend, 0, &[8; 32], [9; 20], &[]),
        plan::plan_withdraw([1; 20], TANK, &spend, 0, [3; 20]),
    ];
    for plan in plans {
        let mut preimage = vec![0; 12];
        preimage.extend_from_slice(&plan.sender);
        preimage.extend_from_slice(&ethrex_common::U256(plan.nonce_keys[0].limbs).to_big_endian());
        let slot = ethrex_common::U256::from_big_endian(&keccak(preimage).0);
        assert_eq!(nonce_slot(&plan.sender, &leaf).limbs, slot.0);
    }
}

#[test]
fn calls_of_a_spend_name_the_root_frame() {
    let spend = spend();
    let index = Value::Uint(U256::from_u64(plan::ROOT_FRAME_INDEX));
    let execute = plan::plan_execute([1; 20], TANK, &spend, 0, &[8; 32], [9; 20], &[]);
    let withdraw = plan::plan_withdraw([1; 20], TANK, &spend, 0, [3; 20]);
    let verify = execute.steps[0].call.as_ref().unwrap();
    let pay = withdraw.steps[1].call.as_ref().unwrap();
    assert_eq!(format!("{:?}", verify.args[5]), format!("{:?}", index));
    assert_eq!(format!("{:?}", &pay.args[1..]), format!("{:?}", &verify.args[..]));
    assert_eq!(
        plan::recent_root(&spend),
        RecentRootReference { source_id: [7; 32], slot: 6, root: [5; 32] }
    );
}

#[test]
fn envelope_spends_refer_to_the_root_outside_the_frames() {
    let spend = spend();
    let reference = plan::recent_root(&spend);
    let execute =
        envelope_plan::plan_execute([1; 20], TANK, &spend, 0, &[8; 32], [9; 20], &[1, 2]);
    assert_eq!(
        envelope_steps(&execute),
        vec![(1, 3, 300_000), (2, 0, 8_000_000), (2, 0, 1_500_000)]
    );
    assert_eq!(execute.sender, TANK);
    assert_eq!(execute.nonce_keys, vec![U256 { limbs: [0x0202_0202_0202_0202; 4] }]);
    assert_eq!(execute.recent_root_references, vec![reference]);
    assert!(execute.steps.iter().all(|step| step.frame.target == Some(TANK)));
    let calls: Vec<Option<TankCall>> = execute.steps.into_iter().map(|step| step.call).collect();
    assert_eq!(
        calls,
        vec![
            Some(TankCall::Verify(inclusion([1; 20], &spend))),
            Some(TankCall::Settle { new_salt: [8; 32] }),
            Some(TankCall::Execute { target: [9; 20], data: vec![1, 2] }),
        ]
    );

    let withdraw = envelope_plan::plan_withdraw([1; 20], TANK, &spend, 0, [3; 20]);
    assert_eq!(envelope_steps(&withdraw), vec![(1, 3, 300_000), (0, 0, 3_000_000)]);
    assert_eq!(withdraw.sender, [1; 20]);
    assert_eq!(withdraw.recent_root_references, vec![reference]);
    assert_eq!(withdraw.steps[0].call, None);
    assert_eq!(
        withdraw.steps[1].call,
        Some(TankCall::Withdraw { to: [3; 20], inclusion: inclusion([1; 20], &spend) })
    );
    let spec = envelope_plan::complete(withdraw, vec![vec![], vec![4]]).unwrap();
    assert_eq!(spec.frames[1].data, vec![4]);
    assert_eq!(spec.recent_root_references, vec![reference]);
    assert_eq!(signed_in_envelope(&key(), spec, FEES), None);
}

#[test]
fn envelope_plans_without_a_spend_can_be_signed() {
    let deposit =
        envelope_plan::plan_deposit([1; 20], [6; 20], TANK, U256::from_u64(9), &[8; 32], 4);
    assert_eq!((deposit.sender, deposit.nonce_seq), ([1; 20], 4));
    assert_eq!(envelope_steps(&deposit), vec![(1, 3, 300_000), (2, 0, 8_000_000)]);
    assert_eq!(deposit.steps[1].frame.value, U256::from_u64(9));
    assert_eq!(deposit.steps[0].call, None);
    assert_eq!(
        deposit.steps[1].call,
        Some(TankCall::Deposit { owner: [6; 20], salt: [8; 32] })
    );
    let refresh = envelope_plan::plan_refresh_root([1; 20], TANK, 2);
    assert_eq!(envelope_steps(&refresh), vec![(1, 3, 300_000), (2, 0, 500_000)]);
    assert_eq!(refresh.steps[1].call, Some(TankCall::RefreshRoot));
    assert!(refresh.recent_root_references.is_empty());
    assert_eq!(refresh.nonce_keys, vec![U256::zero()]);
    for plan in [deposit, refresh] {
        let spec = envelope_plan::complete(plan, vec![vec![7], vec![1]]).unwrap();
        assert!(spec.frames[0].data.is_empty());
        assert_eq!(spec.frames[1].data, vec![1]);
        assert!(signed_in_envelope(&key(), spec, FEES).is_some());
    }
    let refresh = envelope_plan::plan_refresh_root([1; 20], TANK, 2);
    assert!(envelope_plan::complete(refresh, vec![vec![]]).is_none());
}
