//! What a spend of a note needs, and the checks that it must pass.
use vstd::prelude::*;
use vstd::string::*;
use crate::bytes::{append_bytes, Address, same_bytes, Word, words_view, zero_bytes};
use crate::hash::{keccak, keccak256};
use crate::hex_text::{encode_prefixed, prefixed_hex};
use crate::merkle::DEPTH;
use crate::text::{decimal, decimal_text};
use crate::u256::{be_value, U256};

verus! {

/// How many slots a published root stays usable.
pub const RECENT_ROOT_USABLE_WINDOW: u64 = 8191;

/// Why a note cannot be spent.
#[derive(Clone, Copy, Debug, PartialEq, Eq)]
pub enum SpendError {
    /// The owner has no note.
    NoNote,
    /// The note's commitment is not among the tree's leaves.
    LeafNotFound,
    /// The latest block carries no slot number.
    NoSlotNumber,
    /// The root was published after the latest block.
    RootAhead,
    /// The root was published in the latest block or too long ago.
    RootStale { age: u64 },
    /// The note's nonce was used before.
    AlreadySpent { nonce_seq: U256 },
}

/// The message of an error about the note of `owner`.
pub open spec fn spend_error_text(error: SpendError, owner: Seq<u8>) -> Seq<char> {
    match error {
        SpendError::NoNote => "no note found for owner "@ + prefixed_hex(owner)
            + " -- deposit first"@,
        SpendError::LeafNotFound => "leaf for owner "@ + prefixed_hex(owner)
            + " not found in commitments -- state out of sync"@,
        SpendError::NoSlotNumber =>
            "node did not report a slot number (EIP-7843 unsupported?)"@,
        SpendError::RootAhead => "stored root slot is ahead of the latest block"@,
        SpendError::RootStale { age } => "stored recent root is stale ("@ + decimal(age as nat)
            + " slots old) -- run `refresh-root` first"@,
        SpendError::AlreadySpent { nonce_seq } => "note already spent (nonce_seq="@ + decimal(
            nonce_seq@,
        ) + " for this leaf)"@,
    }
}

impl SpendError {
    /// The message of an error about the note of `owner`.
    pub fn message(&self, owner: &Address) -> (text: String)
        ensures
            text@ == spend_error_text(*self, owner@),
    {
        match self {
            SpendError::NoNote => {
                let mut text: String = "no note found for owner ".to_string();
                text.append(encode_prefixed(owner).as_str());
                text.append(" -- deposit first");
                text
            },
            SpendError::LeafNotFound => {
                let mut text: String = "leaf for owner ".to_string();
                text.append(encode_prefixed(owner).as_str());
                text.append(" not found in commitments -- state out of sync");
                text
            },
            SpendError::NoSlotNumber =>
                "node did not report a slot number (EIP-7843 unsupported?)".to_string(),
            SpendError::RootAhead =>
                "stored root slot is ahead of the latest block".to_string(),
            SpendError::RootStale { age } => {
                let mut text: String = "stored recent root is stale (".to_string();
                text.append(decimal_text(*age as u128).as_str());
                text.append(" slots old) -- run `refresh-root` first");
                text
            },
            SpendError::AlreadySpent { nonce_seq } => {
                let mut text: String = "note already spent (nonce_seq=".to_string();
                text.append(nonce_seq.to_decimal().as_str());
                text.append(" for this leaf)");
                text
            },
        }
    }
}

/// Everything needed to authorize spending a note: the note itself, its Merkle
/// inclusion proof, and a fresh-enough recent-root reference.
#[derive(Clone, Copy, Debug)]
pub struct SpendContext {
    pub amount: U256,
    pub salt: Word,
    pub leaf: Word,
    pub leaf_index: U256,
    pub proof: [Word; DEPTH],
    pub root: Word,
    pub slot: u64,
    pub source_id: Word,
}

/// The mathematical content of a [`SpendContext`].
pub struct SpendContextView {
    pub amount: nat,
    pub salt: Seq<u8>,
    pub leaf: Seq<u8>,
    pub leaf_index: nat,
    pub proof: Seq<Seq<u8>>,
    pub root: Seq<u8>,
    pub slot: u64,
    pub source_id: Seq<u8>,
}

impl View for SpendContext {
    type V = SpendContextView;

    open spec fn view(&self) -> SpendContextView {
        SpendContextView {
            amount: self.amount@,
            salt: self.salt@,
            leaf: self.leaf@,
            leaf_index: self.leaf_index@,
            proof: words_view(self.proof@),
            root: self.root@,
            slot: self.slot,
            source_id: self.source_id@,
        }
    }
}

/// The position of the first of `leaves` at or after `from` that equals `leaf`.
pub open spec fn first_position(leaves: Seq<Word>, leaf: Seq<u8>, from: nat) -> Option<nat>
    decreases leaves.len() - from,
{
    if from >= leaves.len() {
        None
    } else if leaves[from as int]@ == leaf {
        Some(from)
    } else {
        first_position(leaves, leaf, from + 1)
    }
}

/// How old a root published in `slot` is, in slots, if it can be used: it must
/// be older than the latest block and not older than the usable window.
pub open spec fn usable_age(latest: Option<u64>, slot: u64) -> Result<u64, SpendError> {
    match latest {
        None => Err(SpendError::NoSlotNumber),
        Some(current) => if current < slot {
            Err(SpendError::RootAhead)
        } else if 1 <= current - slot <= RECENT_ROOT_USABLE_WINDOW {
            Ok((current - slot) as u64)
        } else {
            Err(SpendError::RootStale { age: (current - slot) as u64 })
        },
    }
}

/// Finds the first of `leaves` that equals `leaf`.
pub fn locate_leaf(leaves: &[Word], leaf: &Word) -> (position: Option<usize>)
    ensures
        match (position, first_position(leaves@, leaf@, 0)) {
            (Some(found), Some(expected)) => found == expected && found < leaves@.len(),
            (None, None) => true,
            _ => false,
        },
{
    let mut i: usize = 0;
    while i < leaves.len()
        invariant
            i <= leaves@.len(),
            first_position(leaves@, leaf@, 0) == first_position(leaves@, leaf@, i as nat),
        decreases leaves@.len() - i,
    {
        if same_bytes(&leaves[i], leaf) {
            return Some(i);
        }
        i = i + 1;
    }
    None
}

/// Checks that a root published in `slot` can be used after the block in the
/// `latest` slot, and returns its age.
pub fn check_root_age(latest: Option<u64>, slot: u64) -> (result: Result<u64, SpendError>)
    ensures
        result == usable_age(latest, slot),
{
    match latest {
        None => Err(SpendError::NoSlotNumber),
        Some(current) => if current < slot {
            Err(SpendError::RootAhead)
        } else {
            let age: u64 = current - slot;
            if 1 <= age && age <= RECENT_ROOT_USABLE_WINDOW {
                Ok(age)
            } else {
                Err(SpendError::RootStale { age })
            }
        },
    }
}

/// Where the nonce manager stores the nonce of `sender` under the key `leaf`.
pub open spec fn nonce_slot_of(sender: Seq<u8>, leaf: Seq<u8>) -> nat {
    be_value(keccak256(zero_bytes(12) + sender + leaf))
}

/// Where the nonce manager stores the nonce of `sender` under the key `leaf`.
pub fn nonce_slot(sender: &Address, leaf: &Word) -> (slot: U256)
    ensures
        slot@ == nonce_slot_of(sender@, leaf@),
{
    let mut preimage: Vec<u8> = Vec::with_capacity(64);
    append_bytes(&mut preimage, &[0u8; 12]);
    append_bytes(&mut preimage, sender);
    append_bytes(&mut preimage, leaf);
    assert(preimage@ =~= zero_bytes(12) + sender@ + leaf@);
    U256::from_big_endian(&keccak(&preimage))
}

/// Confirms that the stored nonce of a note is still zero, and returns the
/// nonce to spend it with.
pub fn ensure_note_unspent(nonce_seq: U256) -> (result: Result<u64, SpendError>)
    ensures
        nonce_seq@ == 0 ==> result == Ok::<u64, SpendError>(0),
        nonce_seq@ != 0 ==> result == Err::<u64, SpendError>(
            SpendError::AlreadySpent { nonce_seq },
        ),
{
    if nonce_seq.is_zero() {
        Ok(0)
    } else {
        Err(SpendError::AlreadySpent { nonce_seq })
    }
}

} // verus!
