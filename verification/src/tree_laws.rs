//! What the tree and its proofs are, stated of the leaves below a node.
use vstd::prelude::*;
use vstd::arithmetic::div_mod::lemma_div_denominator;
use vstd::arithmetic::power2::{lemma2_to64, lemma_pow2_pos, lemma_pow2_unfold, pow2};
use crate::bytes::{Word, words_view, zero_bytes};
use crate::hash::keccak256;
use crate::merkle::{
    ancestor,
    climb,
    DEPTH,
    empty_subtree,
    hash_pair,
    node,
    proof_for,
    proof_path,
    root_of,
    sibling,
    zeros,
};

verus! {

/// The leaf at a position; positions past the leaves hold 32 zero bytes.
pub open spec fn leaf_at(leaves: Seq<Word>, position: nat) -> Seq<u8> {
    if position < leaves.len() {
        leaves[position as int]@
    } else {
        Seq::new(32, |i: int| 0u8)
    }
}

/// The hash over the `2^height` leaves from `start` on: the leaf itself, or the
/// hash of both halves, left before right.
pub open spec fn span_digest(leaves: Seq<Word>, start: nat, height: nat) -> Seq<u8>
    decreases height,
{
    if height == 0 {
        leaf_at(leaves, start)
    } else {
        let half = (height - 1) as nat;
        keccak256(
            span_digest(leaves, start, half) + span_digest(leaves, start + pow2(half), half),
        )
    }
}

/// Two nodes are hashed left before right.
pub proof fn lemma_pairs_are_hashed_in_order(left: &Word, right: &Word, parent: Word)
    requires
        call_ensures(hash_pair, (left, right), parent),
    ensures
        parent@ == keccak256(left@ + right@),
{
}

/// Every node is the hash over the leaves below it.
pub proof fn lemma_node_spans_its_leaves(leaves: Seq<Word>, level: nat, position: nat)
    ensures
        node(leaves, level, position) == span_digest(leaves, position * pow2(level), level),
    decreases level,
{
    lemma2_to64();
    if level == 0 {
        assert(position * pow2(0) == position) by (nonlinear_arith)
            requires
                pow2(0) == 1,
        ;
        assert(leaf_at(leaves, position) =~= node(leaves, 0, position));
    } else {
        let half = (level - 1) as nat;
        lemma_pow2_unfold(level);
        lemma_node_spans_its_leaves(leaves, half, 2 * position);
        lemma_node_spans_its_leaves(leaves, half, 2 * position + 1);
        assert((2 * position) * pow2(half) == position * pow2(level) && (2 * position + 1) * pow2(
            half,
        ) == position * pow2(level) + pow2(half)) by (nonlinear_arith)
            requires
                pow2(level) == 2 * pow2(half),
        ;
    }
}

/// The root is the hash over all the leaves that the tree has room for.
pub proof fn lemma_root_spans_all_leaves(leaves: Seq<Word>)
    ensures
        root_of(leaves) == span_digest(leaves, 0, 20),
{
    lemma_node_spans_its_leaves(leaves, 20, 0);
    assert(0 * pow2(20) == 0) by (nonlinear_arith);
}

/// The empty subtrees are those without a leaf.
pub proof fn lemma_zeros_span_no_leaves(levels: [Word; DEPTH], level: nat)
    requires
        call_ensures(zeros, (), levels),
        level < 20,
    ensures
        levels@[level as int]@ == span_digest(Seq::empty(), 0, level),
{
    lemma_empty_spans_no_leaves(level, 0);
    assert(levels@[level as int]@ == empty_subtree(level));
}

proof fn lemma_empty_spans_no_leaves(level: nat, start: nat)
    ensures
        empty_subtree(level) == span_digest(Seq::empty(), start, level),
    decreases level,
{
    if level == 0 {
        assert(zero_bytes(32) =~= leaf_at(Seq::empty(), start));
    } else {
        let half = (level - 1) as nat;
        lemma_empty_spans_no_leaves(half, start);
        lemma_empty_spans_no_leaves(half, start + pow2(half));
    }
}

/// The node above a leaf is found by dividing its position.
pub proof fn lemma_ancestor_divides(index: nat, level: nat)
    ensures
        ancestor(index, level) == index / pow2(level),
    decreases level,
{
    lemma2_to64();
    if level > 0 {
        let below = (level - 1) as nat;
        lemma_ancestor_divides(index, below);
        lemma_pow2_unfold(level);
        lemma_pow2_pos(below);
        lemma_div_denominator(index as int, pow2(below) as int, 2);
        assert(pow2(below) as int * 2 == pow2(level) as int);
        assert(index as int / (pow2(below) as int * 2) == index as int / pow2(level) as int);
    } else {
        assert(index / pow2(0) == index) by (nonlinear_arith)
            requires
                pow2(0) == 1,
        ;
    }
}

/// Where the entry of a proof at height `level` stands in the tree: beside the
/// node above leaf `index`.
pub open spec fn beside(index: nat, level: nat) -> nat {
    let above = index / pow2(level);
    if above % 2 == 0 {
        above + 1
    } else {
        (above - 1) as nat
    }
}

/// Each entry of a proof is the hash over the leaves beside those that the path
/// has covered so far.
pub proof fn lemma_proof_entry_spans_the_neighbours(
    leaves: &[Word],
    index: usize,
    proof: [Word; DEPTH],
    level: nat,
)
    requires
        call_ensures(proof_for, (leaves, index), proof),
        level < 20,
    ensures
        proof@[level as int]@ == span_digest(
            leaves@,
            beside(index as nat, level) * pow2(level),
            level,
        ),
{
    lemma_ancestor_divides(index as nat, level);
    assert(words_view(proof@)[level as int] == proof@[level as int]@);
    assert(proof_path(leaves@, index as nat)[level as int] == node(
        leaves@,
        level,
        sibling(ancestor(index as nat, level)),
    ));
    lemma_node_spans_its_leaves(leaves@, level, beside(index as nat, level));
}

/// A proof is read from the bottom: each entry is hashed in on the right where
/// the position above the leaf is even, and on the left where it is odd.
pub proof fn lemma_climbing_hashes_entry_by_entry(
    leaf: Seq<u8>,
    index: nat,
    proof: Seq<Word>,
    level: nat,
)
    ensures
        climb(leaf, index, proof, 0) == leaf,
        climb(leaf, index, proof, level + 1) == if index / pow2(level) % 2 == 0 {
            keccak256(climb(leaf, index, proof, level) + proof[level as int]@)
        } else {
            keccak256(proof[level as int]@ + climb(leaf, index, proof, level))
        },
{
    lemma_ancestor_divides(index, level);
}

} // verus!
