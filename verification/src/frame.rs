//! Frame transactions: their parts, assembly and signature.
use vstd::prelude::*;
use ethrex_common::{Bytes, U256 as NodeNumber};
use ethrex_common::types::{
    Frame as NodeFrame,
    FrameSignature as NodeSignature,
    FrameTransaction as NodeTransaction,
    Transaction,
};
use crate::bytes::{append_bytes, Address, Word};
use crate::keys::{address_from_secret_key, address_of, recoverable_signature, SecretKey, sign_recoverable};
use crate::u256::U256;

verus! {

/// How a frame executes.
#[derive(Clone, Copy, Debug, PartialEq, Eq)]
pub enum FrameMode {
    /// Called by the entry point.
    Default,
    /// Called by the entry point to approve the transaction.
    Verify,
    /// Called on behalf of the sender.
    Sender,
}

/// Scope flags of a frame that may approve both execution and payment.
pub const APPROVE_EXECUTION_AND_PAYMENT: u8 = 0x3;

/// The signature scheme of recoverable secp256k1 signatures.
pub const FRAME_SIG_SCHEME_SECP256K1: u8 = 1;

impl FrameMode {
    /// The mode's number in a frame.
    pub open spec fn code_spec(self) -> u8 {
        match self {
            FrameMode::Default => 0,
            FrameMode::Verify => 1,
            FrameMode::Sender => 2,
        }
    }

    /// The mode's number in a frame.
    pub fn code(self) -> (code: u8)
        ensures
            code == self.code_spec(),
    {
        match self {
            FrameMode::Default => 0,
            FrameMode::Verify => 1,
            FrameMode::Sender => 2,
        }
    }

    /// Calls `ethrex_common::types::FrameMode::from_u8`. Trusted: the modes are
    /// numbered zero to two, and no other number is a mode.
    #[verifier::external_body]
    pub(crate) fn from_u8(code: u8) -> (mode: Option<FrameMode>)
        ensures
            match mode {
                Some(mode) => mode.code_spec() == code,
                None => code > 2,
            },
    {
        match ethrex_common::types::FrameMode::from_u8(code) {
            Some(ethrex_common::types::FrameMode::Default) => Some(FrameMode::Default),
            Some(ethrex_common::types::FrameMode::Verify) => Some(FrameMode::Verify),
            Some(ethrex_common::types::FrameMode::Sender) => Some(FrameMode::Sender),
            None => None,
        }
    }
}

/// One step of a frame transaction.
#[derive(Debug)]
pub struct Frame {
    pub mode: u8,
    pub flags: u8,
    /// The called account; the sender, if there is none.
    pub target: Option<Address>,
    pub gas_limit: u64,
    /// Limit on the gas charged for growing the state.
    pub state_gas_limit: u64,
    pub value: U256,
    pub data: Vec<u8>,
}

/// The mathematical content of a [`Frame`].
pub struct FrameView {
    pub mode: u8,
    pub flags: u8,
    pub target: Option<Seq<u8>>,
    pub gas_limit: u64,
    pub state_gas_limit: u64,
    pub value: nat,
    pub data: Seq<u8>,
}

/// The bytes of an optional address.
pub open spec fn address_view(address: Option<Address>) -> Option<Seq<u8>> {
    match address {
        Some(address) => Some(address@),
        None => None,
    }
}

impl View for Frame {
    type V = FrameView;

    open spec fn view(&self) -> FrameView {
        FrameView {
            mode: self.mode,
            flags: self.flags,
            target: address_view(self.target),
            gas_limit: self.gas_limit,
            state_gas_limit: self.state_gas_limit,
            value: self.value@,
            data: self.data@,
        }
    }
}

/// An entry of a transaction's signature list.
#[derive(Debug)]
pub struct FrameSignature {
    pub scheme: u8,
    pub signer: Option<Address>,
    /// The signed digest; empty, if the transaction's own hash is signed.
    pub msg: Vec<u8>,
    pub signature: Vec<u8>,
}

/// The mathematical content of a [`FrameSignature`].
pub struct SignatureView {
    pub scheme: u8,
    pub signer: Option<Seq<u8>>,
    pub msg: Seq<u8>,
    pub signature: Seq<u8>,
}

impl View for FrameSignature {
    type V = SignatureView;

    open spec fn view(&self) -> SignatureView {
        SignatureView {
            scheme: self.scheme,
            signer: address_view(self.signer),
            msg: self.msg@,
            signature: self.signature@,
        }
    }
}

/// A published Merkle root that a transaction may be checked against.
#[derive(Clone, Copy, Debug, PartialEq, Eq)]
pub struct RecentRootReference {
    pub source_id: Word,
    pub slot: u64,
    pub root: Word,
}

/// Everything needed to build a [`FrameTransaction`] beyond fees and chain id.
#[derive(Debug)]
pub struct FrameTxSpec {
    pub sender: Address,
    pub nonce_keys: Vec<U256>,
    pub nonce_seq: u64,
    pub frames: Vec<Frame>,
    pub recent_root_references: Vec<RecentRootReference>,
}

/// The mathematical content of a [`FrameTxSpec`].
pub struct SpecView {
    pub sender: Seq<u8>,
    pub nonce_keys: Seq<nat>,
    pub nonce_seq: u64,
    pub frames: Seq<FrameView>,
    pub recent_root_references: Seq<RecentRootReference>,
}

/// The contents of a list of frames.
pub open spec fn frames_view(frames: Seq<Frame>) -> Seq<FrameView> {
    frames.map_values(|frame: Frame| frame@)
}

/// The numbers in a list of nonce keys.
pub open spec fn keys_view(keys: Seq<U256>) -> Seq<nat> {
    keys.map_values(|key: U256| key@)
}

/// The contents of a list of signatures.
pub open spec fn signatures_view(signatures: Seq<FrameSignature>) -> Seq<SignatureView> {
    signatures.map_values(|signature: FrameSignature| signature@)
}

impl View for FrameTxSpec {
    type V = SpecView;

    open spec fn view(&self) -> SpecView {
        SpecView {
            sender: self.sender@,
            nonce_keys: keys_view(self.nonce_keys@),
            nonce_seq: self.nonce_seq,
            frames: frames_view(self.frames@),
            recent_root_references: self.recent_root_references@,
        }
    }
}

/// A frame transaction.
#[derive(Debug)]
pub struct FrameTransaction {
    pub chain_id: u64,
    pub nonce_keys: Vec<U256>,
    pub nonce_seq: u64,
    pub sender: Address,
    pub frames: Vec<Frame>,
    pub signatures: Vec<FrameSignature>,
    pub max_priority_fee_per_gas: u64,
    pub max_fee_per_gas: u64,
    pub recent_root_references: Vec<RecentRootReference>,
}

/// The mathematical content of a [`FrameTransaction`].
pub struct TransactionView {
    pub chain_id: u64,
    pub nonce_keys: Seq<nat>,
    pub nonce_seq: u64,
    pub sender: Seq<u8>,
    pub frames: Seq<FrameView>,
    pub signatures: Seq<SignatureView>,
    pub max_priority_fee_per_gas: u64,
    pub max_fee_per_gas: u64,
    pub recent_root_references: Seq<RecentRootReference>,
}

impl View for FrameTransaction {
    type V = TransactionView;

    open spec fn view(&self) -> TransactionView {
        TransactionView {
            chain_id: self.chain_id,
            nonce_keys: keys_view(self.nonce_keys@),
            nonce_seq: self.nonce_seq,
            sender: self.sender@,
            frames: frames_view(self.frames@),
            signatures: signatures_view(self.signatures@),
            max_priority_fee_per_gas: self.max_priority_fee_per_gas,
            max_fee_per_gas: self.max_fee_per_gas,
            recent_root_references: self.recent_root_references@,
        }
    }
}

impl SignatureView {
    /// The entry as the transaction's own hash covers it: without its
    /// signature, if that signs the hash.
    pub open spec fn elided(self) -> SignatureView {
        if self.msg.len() == 0 {
            SignatureView { signature: Seq::empty(), ..self }
        } else {
            self
        }
    }
}

impl TransactionView {
    /// Whether the transaction uses nothing beyond the account nonce (key
    /// zero), execution gas and plain frames, which is what the envelope of
    /// `ethrex_common` can hold.
    pub open spec fn fits_envelope(self) -> bool {
        &&& self.nonce_keys =~= seq![0nat]
        &&& self.recent_root_references.len() == 0
        &&& forall|i: int|
            #![trigger self.frames[i]]
            0 <= i < self.frames.len() ==> self.frames[i].state_gas_limit == 0
    }

    /// The transaction as its own hash covers it.
    pub open spec fn elided(self) -> TransactionView {
        TransactionView {
            signatures: self.signatures.map_values(|entry: SignatureView| entry.elided()),
            ..self
        }
    }

    /// The transaction with another signature at `index`.
    pub open spec fn with_signature(self, index: int, signature: Seq<u8>) -> TransactionView {
        TransactionView {
            signatures: self.signatures.update(
                index,
                SignatureView { signature, ..self.signatures[index] },
            ),
            ..self
        }
    }
}

/// The hash that authenticates a transaction, which fits the envelope.
pub uninterp spec fn sig_hash(elided: TransactionView) -> Seq<u8>;

/// The canonical encoding of a transaction, which fits the envelope.
pub uninterp spec fn canonical_encoding(tx: TransactionView) -> Seq<u8>;

/// The `v || r || s` form of a signature of `digest`.
pub open spec fn packed_signature(digest: Seq<u8>, secret: Seq<u8>) -> Seq<u8> {
    seq![recoverable_signature(digest, secret).0] + recoverable_signature(digest, secret).1
}

/// Calls `ethrex_common::types::FrameTransaction::compute_sig_hash`. Trusted:
/// for a transaction that fits the envelope, the hash is a function of its
/// fields other than the signatures over the hash itself.
#[verifier::external_body]
fn compute_sig_hash(tx: &FrameTransaction) -> (hash: Word)
    requires
        tx@.fits_envelope(),
    ensures
        hash@ == sig_hash(tx@.elided()),
{
    NodeTransaction {
        chain_id: tx.chain_id, nonce: tx.nonce_seq, sender: tx.sender.into(),
        frames: tx.frames.iter().map(|f| NodeFrame {
            mode: f.mode, flags: f.flags, target: f.target.map(Into::into),
            gas_limit: f.gas_limit, value: NodeNumber(f.value.limbs),
            data: Bytes::copy_from_slice(&f.data)
        }).collect(),
        signatures: tx.signatures.iter().map(|s| NodeSignature {
            scheme: s.scheme, signer: s.signer.map(Into::into),
            msg: Bytes::copy_from_slice(&s.msg), signature: Bytes::copy_from_slice(&s.signature)
        }).collect(),
        max_priority_fee_per_gas: tx.max_priority_fee_per_gas,
        max_fee_per_gas: tx.max_fee_per_gas, ..Default::default()
    }.compute_sig_hash().0
}

/// Calls `ethrex_common::types::Transaction::encode_canonical_to_vec`. Trusted:
/// for a transaction that fits the envelope, the bytes are a function of its
/// fields.
#[verifier::external_body]
fn encode_canonical(tx: &FrameTransaction) -> (raw: Vec<u8>)
    requires
        tx@.fits_envelope(),
    ensures
        raw@ == canonical_encoding(tx@),
{
    Transaction::FrameTransaction(NodeTransaction {
        chain_id: tx.chain_id, nonce: tx.nonce_seq, sender: tx.sender.into(),
        frames: tx.frames.iter().map(|f| NodeFrame {
            mode: f.mode, flags: f.flags, target: f.target.map(Into::into),
            gas_limit: f.gas_limit, value: NodeNumber(f.value.limbs),
            data: Bytes::copy_from_slice(&f.data)
        }).collect(),
        signatures: tx.signatures.iter().map(|s| NodeSignature {
            scheme: s.scheme, signer: s.signer.map(Into::into),
            msg: Bytes::copy_from_slice(&s.msg), signature: Bytes::copy_from_slice(&s.signature)
        }).collect(),
        max_priority_fee_per_gas: tx.max_priority_fee_per_gas,
        max_fee_per_gas: tx.max_fee_per_gas, ..Default::default()
    }).encode_canonical_to_vec()
}

/// Fee and chain data that the node reports for a new transaction.
#[derive(Clone, Copy, Debug, PartialEq, Eq)]
pub struct ChainFees {
    pub chain_id: u64,
    pub max_priority_fee_per_gas: u64,
    pub gas_price: u64,
}

/// The frame by which `sender` approves a transaction.
pub open spec fn self_verify_view(sender: Seq<u8>, gas_limit: u64) -> FrameView {
    FrameView {
        mode: FrameMode::Verify.code_spec(),
        flags: APPROVE_EXECUTION_AND_PAYMENT,
        target: Some(sender),
        gas_limit,
        state_gas_limit: 0,
        value: 0,
        data: Seq::empty(),
    }
}

/// A call made on behalf of the sender.
pub open spec fn sender_view(
    target: Seq<u8>,
    value: nat,
    data: Seq<u8>,
    gas_limit: u64,
) -> FrameView {
    FrameView {
        mode: FrameMode::Sender.code_spec(),
        flags: 0,
        target: Some(target),
        gas_limit,
        state_gas_limit: 0,
        value,
        data,
    }
}

/// The signature list entry that `signer` has yet to sign.
pub open spec fn unsigned_entry(signer: Seq<u8>) -> SignatureView {
    SignatureView {
        scheme: FRAME_SIG_SCHEME_SECP256K1,
        signer: Some(signer),
        msg: Seq::empty(),
        signature: Seq::empty(),
    }
}

/// The unsigned transaction that `spec` describes, with one entry for `signer`
/// to sign. The fee cap leaves room for the priority fee on top of the current
/// gas price.
pub open spec fn assembled(spec: SpecView, signer: Seq<u8>, fees: ChainFees) -> TransactionView {
    TransactionView {
        chain_id: fees.chain_id,
        nonce_keys: spec.nonce_keys,
        nonce_seq: spec.nonce_seq,
        sender: spec.sender,
        frames: spec.frames,
        signatures: seq![unsigned_entry(signer)],
        max_priority_fee_per_gas: fees.max_priority_fee_per_gas,
        max_fee_per_gas: (fees.gas_price + fees.max_priority_fee_per_gas) as u64,
        recent_root_references: spec.recent_root_references,
    }
}

/// `tx` with its entry at `index` signed over the hash that the envelope gives it.
pub open spec fn signed(tx: TransactionView, index: int, secret: Seq<u8>) -> TransactionView {
    tx.with_signature(index, packed_signature(sig_hash(tx.elided()), secret))
}

/// Signing leaves the signed hash as it was: the hash of a transaction covers
/// none of the signatures over that hash.
pub proof fn lemma_signing_keeps_sig_hash(tx: TransactionView, index: int, signature: Seq<u8>)
    requires
        0 <= index < tx.signatures.len(),
        tx.signatures[index].msg.len() == 0,
    ensures
        tx.with_signature(index, signature).elided() == tx.elided(),
        sig_hash(tx.with_signature(index, signature).elided()) == sig_hash(tx.elided()),
{
    assert(tx.with_signature(index, signature).elided().signatures =~= tx.elided().signatures);
}

/// Signing twice with one key is signing once.
pub proof fn lemma_signing_is_idempotent(tx: TransactionView, index: int, secret: Seq<u8>)
    requires
        0 <= index < tx.signatures.len(),
        tx.signatures[index].msg.len() == 0,
    ensures
        signed(signed(tx, index, secret), index, secret) == signed(tx, index, secret),
{
    let signature = packed_signature(sig_hash(tx.elided()), secret);
    lemma_signing_keeps_sig_hash(tx, index, signature);
    assert(tx.with_signature(index, signature).with_signature(index, signature).signatures
        =~= tx.with_signature(index, signature).signatures);
}

/// The frame by which `sender` approves a transaction, execution and payment.
pub fn self_verify_frame(sender: Address, gas_limit: u64) -> (frame: Frame)
    ensures
        frame@ == self_verify_view(sender@, gas_limit),
{
    Frame {
        mode: FrameMode::Verify.code(),
        flags: APPROVE_EXECUTION_AND_PAYMENT,
        target: Some(sender),
        gas_limit,
        state_gas_limit: 0,
        value: U256::zero(),
        data: Vec::new(),
    }
}

/// A call of `target` with `value` and `data`, on behalf of the sender.
pub fn sender_frame(target: Address, value: U256, data: Vec<u8>, gas_limit: u64) -> (frame: Frame)
    ensures
        frame@ == sender_view(target@, value@, data@, gas_limit),
{
    Frame {
        mode: FrameMode::Sender.code(),
        flags: 0,
        target: Some(target),
        gas_limit,
        state_gas_limit: 0,
        value,
        data,
    }
}

/// `frame` with another limit on state gas.
pub fn with_state_gas(frame: Frame, state_gas_limit: u64) -> (limited: Frame)
    ensures
        limited@ == (FrameView { state_gas_limit, ..frame@ }),
{
    Frame { state_gas_limit, ..frame }
}

/// `frame` with other data.
pub fn with_data(frame: Frame, data: Vec<u8>) -> (filled: Frame)
    ensures
        filled@ == (FrameView { data: data@, ..frame@ }),
{
    Frame { data, ..frame }
}

/// The signature list entry that `signer` has yet to sign.
pub fn owner_signature(signer: Address) -> (entry: FrameSignature)
    ensures
        entry@ == unsigned_entry(signer@),
{
    FrameSignature {
        scheme: FRAME_SIG_SCHEME_SECP256K1,
        signer: Some(signer),
        msg: Vec::new(),
        signature: Vec::new(),
    }
}

/// Builds the unsigned transaction that `spec` describes.
pub fn assemble(spec: FrameTxSpec, signer: Address, fees: ChainFees) -> (tx: FrameTransaction)
    requires
        fees.gas_price + fees.max_priority_fee_per_gas <= u64::MAX,
    ensures
        tx@ == assembled(spec@, signer@, fees),
{
    let tx: FrameTransaction = FrameTransaction {
        chain_id: fees.chain_id,
        nonce_keys: spec.nonce_keys,
        nonce_seq: spec.nonce_seq,
        sender: spec.sender,
        frames: spec.frames,
        signatures: vec![owner_signature(signer)],
        max_priority_fee_per_gas: fees.max_priority_fee_per_gas,
        max_fee_per_gas: fees.gas_price + fees.max_priority_fee_per_gas,
        recent_root_references: spec.recent_root_references,
    };
    assert(tx@.signatures =~= seq![unsigned_entry(signer@)]);
    tx
}

/// Whether the envelope of `ethrex_common` can hold `tx`.
pub fn fits_envelope(tx: &FrameTransaction) -> (fits: bool)
    ensures
        fits == tx@.fits_envelope(),
{
    if tx.nonce_keys.len() != 1 || tx.recent_root_references.len() != 0 {
        return false;
    }
    assert(tx@.nonce_keys[0] == tx.nonce_keys@[0]@);
    if !tx.nonce_keys[0].is_zero() {
        return false;
    }
    let mut i: usize = 0;
    while i < tx.frames.len()
        invariant
            i <= tx.frames@.len(),
            forall|j: int|
                #![trigger tx@.frames[j]]
                0 <= j < i ==> tx@.frames[j].state_gas_limit == 0,
        decreases tx.frames@.len() - i,
    {
        assert(tx@.frames[i as int] == tx.frames@[i as int]@);
        if tx.frames[i].state_gas_limit != 0 {
            return false;
        }
        i = i + 1;
    }
    true
}

/// Signs `hash`, which is the hash that authenticates `tx`, and stores the
/// `v || r || s` signature in `signatures[sig_index]`. Nothing else of the
/// transaction changes.
pub fn sign(tx: &mut FrameTransaction, sig_index: usize, hash: &Word, signer: &SecretKey)
    requires
        sig_index < old(tx)@.signatures.len(),
    ensures
        final(tx)@ == old(tx)@.with_signature(
            sig_index as int,
            packed_signature(hash@, signer@),
        ),
        final(tx).signatures@.len() == old(tx).signatures@.len(),
        final(tx).signatures@[sig_index as int].signature@ == seq![
            recoverable_signature(hash@, signer@).0,
        ] + recoverable_signature(hash@, signer@).1,
        final(tx).signatures@[sig_index as int].scheme
            == old(tx).signatures@[sig_index as int].scheme,
        final(tx).signatures@[sig_index as int].signer
            == old(tx).signatures@[sig_index as int].signer,
        final(tx).signatures@[sig_index as int].msg == old(tx).signatures@[sig_index as int].msg,
        forall|i: int|
            #![trigger final(tx).signatures@[i]]
            0 <= i < old(tx).signatures@.len() && i != sig_index ==> final(tx).signatures@[i]
                == old(tx).signatures@[i],
        final(tx).chain_id == old(tx).chain_id,
        final(tx).nonce_keys == old(tx).nonce_keys,
        final(tx).nonce_seq == old(tx).nonce_seq,
        final(tx).sender == old(tx).sender,
        final(tx).frames == old(tx).frames,
        final(tx).max_priority_fee_per_gas == old(tx).max_priority_fee_per_gas,
        final(tx).max_fee_per_gas == old(tx).max_fee_per_gas,
        final(tx).recent_root_references == old(tx).recent_root_references,
{
    let (v, sig) = sign_recoverable(hash, signer);
    let mut raw: Vec<u8> = Vec::with_capacity(65);
    raw.push(v);
    append_bytes(&mut raw, &sig);
    assert(raw@ =~= packed_signature(hash@, signer@));
    tx.signatures[sig_index].signature = raw;
    assert(tx@.signatures =~= old(tx)@.with_signature(
        sig_index as int,
        packed_signature(hash@, signer@),
    ).signatures);
}

/// The hash that authenticates `tx`, if the envelope of `ethrex_common` can
/// hold it. For other transactions the node's own crate has to compute it.
pub fn envelope_sig_hash(tx: &FrameTransaction) -> (hash: Option<Word>)
    ensures
        match hash {
            Some(hash) => tx@.fits_envelope() && hash@ == sig_hash(tx@.elided()),
            None => !tx@.fits_envelope(),
        },
{
    if fits_envelope(tx) {
        Some(compute_sig_hash(tx))
    } else {
        None
    }
}

/// The canonical encoding of `tx`, if the envelope of `ethrex_common` can hold
/// it. Other transactions are encoded by the node's own crate.
pub fn envelope_encoding(tx: &FrameTransaction) -> (raw: Option<Vec<u8>>)
    ensures
        match raw {
            Some(raw) => tx@.fits_envelope() && raw@ == canonical_encoding(tx@),
            None => !tx@.fits_envelope(),
        },
{
    if fits_envelope(tx) {
        Some(encode_canonical(tx))
    } else {
        None
    }
}

/// Builds, signs and encodes the transaction that `spec` describes, if the
/// envelope of `ethrex_common` can hold it.
pub fn signed_in_envelope(secret_key: &SecretKey, spec: FrameTxSpec, fees: ChainFees) -> (raw:
    Option<Vec<u8>>)
    requires
        fees.gas_price + fees.max_priority_fee_per_gas <= u64::MAX,
    ensures
        ({
            let tx = assembled(spec@, address_of(secret_key@), fees);
            match raw {
                Some(raw) => tx.fits_envelope() && raw@ == canonical_encoding(
                    signed(tx, 0, secret_key@),
                ),
                None => !tx.fits_envelope(),
            }
        }),
{
    let signer: Address = address_from_secret_key(secret_key);
    let mut tx: FrameTransaction = assemble(spec, signer, fees);
    match envelope_sig_hash(&tx) {
        Some(hash) => {
            sign(&mut tx, 0, &hash, secret_key);
            envelope_encoding(&tx)
        },
        None => None,
    }
}

} // verus!
