//! What frames and transactions hold, stated of their fields.
use vstd::prelude::*;
use crate::bytes::{Address, Word};
use crate::frame::{
    assemble,
    canonical_encoding,
    ChainFees,
    envelope_encoding,
    envelope_sig_hash,
    fits_envelope,
    Frame,
    FrameMode,
    FrameSignature,
    FrameTransaction,
    FrameTxSpec,
    frames_view,
    keys_view,
    owner_signature,
    self_verify_frame,
    sender_frame,
    sig_hash,
    signatures_view,
    signed_in_envelope,
    SignatureView,
    TransactionView,
    with_data,
    with_state_gas,
};
use crate::keys::{address_from_secret_key, recoverable_signature, SecretKey};
use crate::plan_laws::{is_frame, is_with_data};
use crate::u256::U256;

verus! {

/// Modes have the numbers zero to two.
pub proof fn lemma_modes_are_numbered(default: u8, verify: u8, sender: u8)
    requires
        call_ensures(FrameMode::code, (FrameMode::Default,), default),
        call_ensures(FrameMode::code, (FrameMode::Verify,), verify),
        call_ensures(FrameMode::code, (FrameMode::Sender,), sender),
    ensures
        default == 0,
        verify == 1,
        sender == 2,
{
}

/// The frame of an approval is addressed to the account that approves and
/// carries nothing.
pub proof fn lemma_approval_frame(sender: Address, gas_limit: u64, frame: Frame)
    requires
        call_ensures(self_verify_frame, (sender, gas_limit), frame),
    ensures
        is_frame(frame, 1, 3, sender@, 0, gas_limit, 0),
{
}

/// A call on behalf of the sender carries the whole value and all of the data to
/// the account given.
pub proof fn lemma_sender_frame(
    target: Address,
    value: U256,
    data: Vec<u8>,
    gas_limit: u64,
    frame: Frame,
)
    requires
        call_ensures(sender_frame, (target, value, data, gas_limit), frame),
    ensures
        frame.mode == 2,
        frame.flags == 0,
        frame.target is Some,
        frame.target->0@ == target@,
        frame.value@ == value@,
        frame.data@ == data@,
        frame.gas_limit == gas_limit,
        frame.state_gas_limit == 0,
{
}

/// Setting the state gas or the data of a frame changes nothing else of it.
pub proof fn lemma_frame_is_changed_in_one_place(
    frame: Frame,
    state_gas_limit: u64,
    data: Vec<u8>,
    limited: Frame,
    filled: Frame,
)
    requires
        call_ensures(with_state_gas, (frame, state_gas_limit), limited),
        call_ensures(with_data, (frame, data), filled),
    ensures
        limited.state_gas_limit == state_gas_limit,
        limited.mode == frame.mode,
        limited.flags == frame.flags,
        limited.target is Some == frame.target is Some,
        limited.target is Some ==> limited.target->0@ == frame.target->0@,
        limited.gas_limit == frame.gas_limit,
        limited.value@ == frame.value@,
        limited.data@ == frame.data@,
        is_with_data(filled, frame, data@),
{
}

/// An entry to be signed names its signer and the secp256k1 scheme, and is
/// otherwise empty.
pub proof fn lemma_unsigned_entry(signer: Address, entry: FrameSignature)
    requires
        call_ensures(owner_signature, (signer,), entry),
    ensures
        entry.scheme == 1,
        entry.signer is Some,
        entry.signer->0@ == signer@,
        entry.msg@.len() == 0,
        entry.signature@.len() == 0,
{
}

/// The content of a transaction lists its parts one by one.
pub proof fn lemma_parts_of_transaction(tx: FrameTransaction)
    ensures
        tx@.frames.len() == tx.frames@.len(),
        tx@.nonce_keys.len() == tx.nonce_keys@.len(),
        tx@.signatures.len() == tx.signatures@.len(),
        forall|i: int|
            #![trigger tx.frames@[i]]
            0 <= i < tx.frames@.len() ==> tx@.frames[i] == tx.frames@[i]@,
        forall|i: int|
            #![trigger tx.nonce_keys@[i]]
            0 <= i < tx.nonce_keys@.len() ==> tx@.nonce_keys[i] == tx.nonce_keys@[i]@,
        forall|i: int|
            #![trigger tx.signatures@[i]]
            0 <= i < tx.signatures@.len() ==> tx@.signatures[i] == tx.signatures@[i]@,
{
    assert(tx@.frames.len() == frames_view(tx.frames@).len());
    assert(tx@.nonce_keys.len() == keys_view(tx.nonce_keys@).len());
    assert(tx@.signatures.len() == signatures_view(tx.signatures@).len());
}

/// An assembled transaction is what was described: the same sender, nonce,
/// frames in order and root references, for the chain given, with a fee cap of
/// the gas price and the priority fee together, and one entry for the signer.
pub proof fn lemma_assembly_keeps_the_description(
    spec: FrameTxSpec,
    signer: Address,
    fees: ChainFees,
    tx: FrameTransaction,
)
    requires
        call_ensures(assemble, (spec, signer, fees), tx),
        fees.gas_price + fees.max_priority_fee_per_gas <= u64::MAX,
    ensures
        tx.chain_id == fees.chain_id,
        tx.max_priority_fee_per_gas == fees.max_priority_fee_per_gas,
        tx.max_fee_per_gas == fees.gas_price + fees.max_priority_fee_per_gas,
        tx.sender@ == spec.sender@,
        tx.nonce_seq == spec.nonce_seq,
        tx.nonce_keys@.len() == spec.nonce_keys@.len(),
        forall|i: int|
            #![trigger tx.nonce_keys@[i]]
            0 <= i < tx.nonce_keys@.len() ==> tx.nonce_keys@[i]@ == spec.nonce_keys@[i]@,
        tx.recent_root_references@ == spec.recent_root_references@,
        tx.frames@.len() == spec.frames@.len(),
        forall|i: int|
            #![trigger tx.frames@[i]]
            0 <= i < tx.frames@.len() ==> is_with_data(
                tx.frames@[i],
                spec.frames@[i],
                spec.frames@[i].data@,
            ),
        tx.signatures@.len() == 1,
        tx.signatures@[0].scheme == 1,
        tx.signatures@[0].signer is Some,
        tx.signatures@[0].signer->0@ == signer@,
        tx.signatures@[0].msg@.len() == 0,
        tx.signatures@[0].signature@.len() == 0,
{
    lemma_parts_of_transaction(tx);
    assert(spec@.frames.len() == frames_view(spec.frames@).len());
    assert(spec@.nonce_keys.len() == keys_view(spec.nonce_keys@).len());
    assert(tx@.signatures[0] == tx.signatures@[0]@);
    assert forall|i: int| #![trigger tx.nonce_keys@[i]] 0 <= i < tx.nonce_keys@.len() implies
        tx.nonce_keys@[i]@ == spec.nonce_keys@[i]@ by {
        assert(spec@.nonce_keys[i] == spec.nonce_keys@[i]@);
    }
    assert forall|i: int| #![trigger tx.frames@[i]] 0 <= i < tx.frames@.len() implies is_with_data(
        tx.frames@[i],
        spec.frames@[i],
        spec.frames@[i].data@,
    ) by {
        assert(tx@.frames[i] == tx.frames@[i]@);
        assert(spec@.frames[i] == spec.frames@[i]@);
    }
}

/// Whether a transaction uses the account's own nonce alone, no root references
/// and no state gas.
pub open spec fn is_plain(tx: FrameTransaction) -> bool {
    &&& tx.nonce_keys@.len() == 1
    &&& tx.nonce_keys@[0]@ == 0
    &&& tx.recent_root_references@.len() == 0
    &&& forall|i: int|
        #![trigger tx.frames@[i]]
        0 <= i < tx.frames@.len() ==> tx.frames@[i].state_gas_limit == 0
}

proof fn lemma_plain_fits(tx: FrameTransaction)
    ensures
        tx@.fits_envelope() == is_plain(tx),
{
    lemma_parts_of_transaction(tx);
    if is_plain(tx) {
        assert(tx@.nonce_keys =~= seq![0nat]);
        assert forall|i: int| #![trigger tx@.frames[i]] 0 <= i < tx@.frames.len() implies
            tx@.frames[i].state_gas_limit == 0 by {
            assert(tx.frames@[i].state_gas_limit == 0);
        }
    }
    if tx@.fits_envelope() {
        assert(tx@.nonce_keys[0] == tx.nonce_keys@[0]@);
        assert forall|i: int| #![trigger tx.frames@[i]] 0 <= i < tx.frames@.len() implies
            tx.frames@[i].state_gas_limit == 0 by {
            assert(tx@.frames[i].state_gas_limit == 0);
        }
    }
}

/// The envelope holds exactly the plain transactions; it hashes them without the
/// signatures over the hash itself, and encodes them with all their signatures.
pub proof fn lemma_envelope_holds_plain_transactions(
    tx: &FrameTransaction,
    fits: bool,
    hash: Option<Word>,
    raw: Option<Vec<u8>>,
)
    requires
        call_ensures(fits_envelope, (tx,), fits),
        call_ensures(envelope_sig_hash, (tx,), hash),
        call_ensures(envelope_encoding, (tx,), raw),
    ensures
        fits == is_plain(*tx),
        hash is Some == is_plain(*tx),
        raw is Some == is_plain(*tx),
        hash is Some ==> hash->0@ == sig_hash(
            TransactionView {
                signatures: Seq::new(
                    tx@.signatures.len(),
                    |i: int|
                        if tx@.signatures[i].msg.len() == 0 {
                            SignatureView { signature: Seq::empty(), ..tx@.signatures[i] }
                        } else {
                            tx@.signatures[i]
                        },
                ),
                ..tx@
            },
        ),
        raw is Some ==> raw->0@ == canonical_encoding(tx@),
{
    lemma_plain_fits(*tx);
    assert(tx@.elided().signatures =~= Seq::new(
        tx@.signatures.len(),
        |i: int|
            if tx@.signatures[i].msg.len() == 0 {
                SignatureView { signature: Seq::empty(), ..tx@.signatures[i] }
            } else {
                tx@.signatures[i]
            },
    ));
}

/// Signing in the envelope is assembling, signing the assembled transaction's
/// hash with the key whose address the entry names, and encoding the result.
pub proof fn lemma_envelope_is_signed_by_the_key(
    secret_key: &SecretKey,
    spec: FrameTxSpec,
    fees: ChainFees,
    address: Address,
    tx: FrameTransaction,
    hash: Option<Word>,
    raw: Option<Vec<u8>>,
)
    requires
        fees.gas_price + fees.max_priority_fee_per_gas <= u64::MAX,
        call_ensures(address_from_secret_key, (secret_key,), address),
        call_ensures(assemble, (spec, address, fees), tx),
        call_ensures(envelope_sig_hash, (&tx,), hash),
        call_ensures(signed_in_envelope, (secret_key, spec, fees), raw),
    ensures
        raw is Some == is_plain(tx),
        raw is Some ==> hash is Some && ({
            let parts = recoverable_signature(hash->0@, secret_key@);
            raw->0@ == canonical_encoding(
                TransactionView {
                    signatures: seq![
                        SignatureView { signature: seq![parts.0] + parts.1, ..tx@.signatures[0] },
                    ],
                    ..tx@
                },
            )
        }),
{
    lemma_plain_fits(tx);
    if raw is Some {
        let parts = recoverable_signature(hash->0@, secret_key@);
        assert(tx@.with_signature(0, seq![parts.0] + parts.1).signatures =~= seq![
            SignatureView { signature: seq![parts.0] + parts.1, ..tx@.signatures[0] },
        ]);
    }
}

} // verus!
