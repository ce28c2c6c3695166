use ethrex_common::utils::keccak;
use gastank::bytes::Word;
use gastank::merkle::{hash_pair, proof_for, zeros, DEPTH};

fn word(text: &str) -> Word {
    hex::decode(text).unwrap().try_into().unwrap()
}

fn numbered(count: u8) -> Vec<Word> {
    (1..=count).map(|i| [i; 32]).collect()
}

fn pair(left: Word, right: Word) -> Word {
    keccak([left, right].concat()).0
}

/// The root, computed level by level over the whole tree.
fn root(leaves: &[Word]) -> Word {
    let mut level: Vec<Word> = leaves.to_vec();
    let mut empty = [0u8; 32];
    for _ in 0..DEPTH {
        if level.len() % 2 == 1 {
            level.push(empty);
        }
        level = level.chunks(2).map(|two| pair(two[0], two[1])).collect();
        empty = pair(empty, empty);
        if level.is_empty() {
            level.push(empty);
        }
    }
    level[0]
}

fn climb(leaf: Word, index: usize, proof: &[Word]) -> Word {
    let mut node = leaf;
    let mut position = index;
    for other in proof {
        node = if position % 2 == 0 {
            pair(node, *other)
        } else {
            pair(*other, node)
        };
        position /= 2;
    }
    node
}

#[test]
fn empty_subtrees_start_at_zero_and_double() {
    let levels = zeros();
    assert_eq!(levels[0], [0u8; 32]);
    assert_eq!(
        levels[1],
        word("ad3228b676f7d3cd4284a5443f17f1962b36e491b30a40b2405849e597ba5fb5")
    );
    assert_eq!(
        levels[2],
        word("b4c11951957c6f8f642c4af61cd6b24640fec6dc7fc607ee8206a99e92410d30")
    );
    for i in 1..DEPTH {
        assert_eq!(levels[i], pair(levels[i - 1], levels[i - 1]));
    }
}

#[test]
fn pairs_are_hashed_in_order() {
    let left = [1u8; 32];
    let right = [2u8; 32];
    assert_eq!(hash_pair(&left, &right), pair(left, right));
    assert_ne!(hash_pair(&left, &right), hash_pair(&right, &left));
}

#[test]
fn a_lone_leaf_is_proved_by_empty_subtrees() {
    assert_eq!(proof_for(&[[7u8; 32]], 0), zeros());
}

#[test]
fn a_proof_lists_the_siblings() {
    let leaves = numbered(3);
    let proof = proof_for(&leaves, 2);
    assert_eq!(proof[0], [0u8; 32]);
    assert_eq!(proof[1], pair(leaves[0], leaves[1]));
    assert_eq!(proof[2..], zeros()[2..]);
}

#[test]
fn every_proof_reaches_the_root() {
    for count in 1..=9u8 {
        let leaves = numbered(count);
        let expected = root(&leaves);
        for (index, leaf) in leaves.iter().enumerate() {
            let proof = proof_for(&leaves, index);
            assert_eq!(climb(*leaf, index, &proof), expected);
        }
    }
}

#[test]
fn a_position_past_the_leaves_is_proved_empty() {
    let leaves = numbered(2);
    let proof = proof_for(&leaves, 5);
    assert_eq!(proof[0], [0u8; 32]);
    assert_eq!(proof[1], zeros()[1]);
    assert_eq!(proof[2], pair(pair(leaves[0], leaves[1]), zeros()[1]));
    assert_eq!(climb([0u8; 32], 5, &proof), root(&leaves));
    assert_eq!(proof_for(&[], 0), zeros());
}
