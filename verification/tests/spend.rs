use ethrex_common::utils::keccak;
use gastank::bytes::{Address, Word};
use gastank::contract::{leaf, Read};
use gastank::merkle::proof_for;
use gastank::preparation::{advance, prepare_spend, Query, Reply, Step};
use gastank::spend::{
    check_root_age, ensure_note_unspent, locate_leaf, nonce_slot, SpendContext, SpendError,
    RECENT_ROOT_USABLE_WINDOW,
};
use gastank::u256::U256;

const OWNER: Address = [0x11; 20];

struct Chain {
    amount: u64,
    commitments: Vec<Word>,
    slot: u64,
    latest: Option<u64>,
}

fn chain() -> Chain {
    let own = leaf(&OWNER, &U256::from_u64(50), &[0x22; 32]);
    Chain {
        amount: 50,
        commitments: vec![[1; 32], own, [3; 32], own],
        slot: 100,
        latest: Some(108),
    }
}

/// Runs a preparation against `chain` and lists the questions asked.
fn converse(chain: &Chain) -> (Result<SpendContext, SpendError>, Vec<Query>) {
    let mut asked = Vec::new();
    let mut step = prepare_spend(OWNER);
    loop {
        match step {
            Step::Done(result) => return (result, asked),
            Step::Ask { stage, query } => {
                asked.push(query);
                let reply = match query {
                    Query::Tank(Read::Note(owner)) => {
                        assert_eq!(owner, OWNER);
                        Reply::Note { amount: U256::from_u64(chain.amount), salt: [0x22; 32] }
                    }
                    Query::Tank(Read::NextLeafIndex) => {
                        Reply::LeafCount(U256::from_u64(chain.commitments.len() as u64))
                    }
                    Query::Tank(Read::Commitment(index)) => {
                        Reply::Commitment(chain.commitments[index.as_u64() as usize])
                    }
                    Query::Tank(Read::Root) => Reply::Root([0x44; 32]),
                    Query::Tank(Read::LastRootSlot) => Reply::RootSlot(chain.slot),
                    Query::Tank(Read::SourceId) => Reply::SourceId([0x55; 32]),
                    Query::LatestSlot => Reply::LatestSlot(chain.latest),
                };
                step = advance(stage, reply);
            }
        }
    }
}

#[test]
fn a_spend_is_prepared_from_the_chain() {
    let chain = chain();
    let (result, asked) = converse(&chain);
    let spend = result.unwrap();
    assert_eq!(spend.amount, U256::from_u64(50));
    assert_eq!(spend.salt, [0x22; 32]);
    assert_eq!(spend.leaf, chain.commitments[1]);
    assert_eq!(spend.leaf_index, U256::from_u64(1));
    assert_eq!(spend.proof, proof_for(&chain.commitments, 1));
    assert_eq!(spend.root, [0x44; 32]);
    assert_eq!(spend.slot, 100);
    assert_eq!(spend.source_id, [0x55; 32]);
    assert_eq!(
        asked,
        vec![
            Query::Tank(Read::Note(OWNER)),
            Query::Tank(Read::NextLeafIndex),
            Query::Tank(Read::Commitment(U256::zero())),
            Query::Tank(Read::Commitment(U256::from_u64(1))),
            Query::Tank(Read::Commitment(U256::from_u64(2))),
            Query::Tank(Read::Commitment(U256::from_u64(3))),
            Query::Tank(Read::Root),
            Query::Tank(Read::LastRootSlot),
            Query::Tank(Read::SourceId),
            Query::LatestSlot,
        ]
    );
}

#[test]
fn without_a_note_nothing_more_is_asked() {
    let (result, asked) = converse(&Chain { amount: 0, ..chain() });
    assert_eq!(result.err(), Some(SpendError::NoNote));
    assert_eq!(asked.len(), 1);
}

#[test]
fn a_note_outside_the_tree_is_out_of_sync() {
    let (result, asked) = converse(&Chain { commitments: vec![[1; 32]], ..chain() });
    assert_eq!(result.err(), Some(SpendError::LeafNotFound));
    assert_eq!(asked.len(), 3);
    let (result, _) = converse(&Chain { commitments: vec![], ..chain() });
    assert_eq!(result.err(), Some(SpendError::LeafNotFound));
}

#[test]
fn an_unusable_root_stops_a_spend() {
    let outcome = |latest| converse(&Chain { latest, ..chain() }).0.err();
    assert_eq!(outcome(None), Some(SpendError::NoSlotNumber));
    assert_eq!(outcome(Some(99)), Some(SpendError::RootAhead));
    assert_eq!(outcome(Some(100)), Some(SpendError::RootStale { age: 0 }));
    assert_eq!(outcome(Some(101)), None);
    assert_eq!(outcome(Some(8291)), None);
    assert_eq!(outcome(Some(8292)), Some(SpendError::RootStale { age: 8192 }));
}

#[test]
fn a_root_is_usable_within_the_window() {
    assert_eq!(RECENT_ROOT_USABLE_WINDOW, 8191);
    assert_eq!(check_root_age(Some(11), 10), Ok(1));
    assert_eq!(check_root_age(Some(8201), 10), Ok(8191));
    assert_eq!(check_root_age(Some(10), 10), Err(SpendError::RootStale { age: 0 }));
    assert_eq!(check_root_age(Some(8202), 10), Err(SpendError::RootStale { age: 8192 }));
    assert_eq!(check_root_age(Some(9), 10), Err(SpendError::RootAhead));
    assert_eq!(check_root_age(None, 10), Err(SpendError::NoSlotNumber));
}

#[test]
fn the_first_equal_leaf_is_found() {
    let leaves = [[1; 32], [2; 32], [2; 32]];
    assert_eq!(locate_leaf(&leaves, &[2; 32]), Some(1));
    assert_eq!(locate_leaf(&leaves, &[3; 32]), None);
    assert_eq!(locate_leaf(&[], &[3; 32]), None);
}

#[test]
fn nonces_are_stored_by_sender_and_leaf() {
    let mut preimage = [0u8; 64];
    preimage[12..32].copy_from_slice(&OWNER);
    preimage[32..].copy_from_slice(&[0x77; 32]);
    let expected = ethrex_common::U256::from_big_endian(&keccak(preimage).0);
    assert_eq!(nonce_slot(&OWNER, &[0x77; 32]).limbs, expected.0);
}

#[test]
fn a_used_nonce_means_a_spent_note() {
    assert_eq!(ensure_note_unspent(U256::zero()), Ok(0));
    let nonce_seq = U256 { limbs: [0, 0, 0, 1] };
    assert_eq!(
        ensure_note_unspent(nonce_seq),
        Err(SpendError::AlreadySpent { nonce_seq })
    );
}

#[test]
fn refusals_say_what_to_do() {
    let eleven = "11".repeat(20);
    let message = |error: SpendError| error.message(&OWNER);
    assert_eq!(
        message(SpendError::NoNote),
        format!("no note found for owner 0x{eleven} -- deposit first")
    );
    assert_eq!(
        message(SpendError::LeafNotFound),
        format!("leaf for owner 0x{eleven} not found in commitments -- state out of sync")
    );
    assert_eq!(
        message(SpendError::NoSlotNumber),
        "node did not report a slot number (EIP-7843 unsupported?)"
    );
    assert_eq!(
        message(SpendError::RootAhead),
        "stored root slot is ahead of the latest block"
    );
    assert_eq!(
        message(SpendError::RootStale { age: 9000 }),
        "stored recent root is stale (9000 slots old) -- run `refresh-root` first"
    );
    assert_eq!(
        message(SpendError::AlreadySpent { nonce_seq: U256::from_u64(2) }),
        "note already spent (nonce_seq=2 for this leaf)"
    );
}
