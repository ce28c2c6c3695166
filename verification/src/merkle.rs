//! Inclusion proofs in the fixed-depth Merkle tree of note commitments.
use vstd::prelude::*;
use vstd::arithmetic::power2::{lemma2_to64, lemma_pow2_unfold, pow2};
use crate::bytes::{append_bytes, Word, words_view, zero_bytes};
use crate::hash::{keccak, keccak256};

verus! {

/// Number of levels between a leaf and the root.
pub const DEPTH: usize = 20;

/// The parent of two adjacent nodes.
pub open spec fn pair_digest(left: Seq<u8>, right: Seq<u8>) -> Seq<u8> {
    keccak256(left + right)
}

/// The root of an empty subtree of height `level`: the zero word at height
/// zero, and above it the parent of two empty subtrees.
pub open spec fn empty_subtree(level: nat) -> Seq<u8>
    decreases level,
{
    if level == 0 {
        zero_bytes(32)
    } else {
        pair_digest(empty_subtree((level - 1) as nat), empty_subtree((level - 1) as nat))
    }
}

/// Node `position` at height `level` of the tree whose leaves are `leaves`
/// followed by zero words without end.
pub open spec fn node(leaves: Seq<Word>, level: nat, position: nat) -> Seq<u8>
    decreases level,
{
    if level == 0 {
        if position < leaves.len() {
            leaves[position as int]@
        } else {
            zero_bytes(32)
        }
    } else {
        pair_digest(
            node(leaves, (level - 1) as nat, 2 * position),
            node(leaves, (level - 1) as nat, 2 * position + 1),
        )
    }
}

/// Position at height `level` of the node above leaf `index`.
pub open spec fn ancestor(index: nat, level: nat) -> nat
    decreases level,
{
    if level == 0 {
        index
    } else {
        ancestor(index, (level - 1) as nat) / 2
    }
}

/// Position of the other child of the same parent.
pub open spec fn sibling(position: nat) -> nat {
    if position % 2 == 0 {
        position + 1
    } else {
        (position - 1) as nat
    }
}

/// The root of the tree of depth [`DEPTH`] over `leaves`.
pub open spec fn root_of(leaves: Seq<Word>) -> Seq<u8> {
    node(leaves, DEPTH as nat, 0)
}

/// The siblings of the nodes on the path from leaf `index` to the root, from
/// the bottom.
pub open spec fn proof_path(leaves: Seq<Word>, index: nat) -> Seq<Seq<u8>> {
    Seq::new(
        DEPTH as nat,
        |level: int| node(leaves, level as nat, sibling(ancestor(index, level as nat))),
    )
}

/// Whether `proof` lists the siblings along the path of leaf `index`.
pub open spec fn is_proof_for(leaves: Seq<Word>, index: nat, proof: Seq<Word>) -> bool {
    words_view(proof) == proof_path(leaves, index)
}

/// What a verifier computes from a leaf and the first `level` entries of a
/// proof: each entry is hashed on the side opposite to the path.
pub open spec fn climb(leaf: Seq<u8>, index: nat, proof: Seq<Word>, level: nat) -> Seq<u8>
    decreases level,
{
    if level == 0 {
        leaf
    } else {
        let below = climb(leaf, index, proof, (level - 1) as nat);
        let other = proof[level - 1]@;
        if ancestor(index, (level - 1) as nat) % 2 == 0 {
            pair_digest(below, other)
        } else {
            pair_digest(other, below)
        }
    }
}

/// Every node with no leaf under it is the root of an empty subtree.
proof fn lemma_node_past_leaves(leaves: Seq<Word>, level: nat, width: nat, position: nat)
    requires
        leaves.len() <= width * pow2(level),
        position >= width,
    ensures
        node(leaves, level, position) == empty_subtree(level),
    decreases level,
{
    if level == 0 {
        lemma2_to64();
    } else {
        let below = (level - 1) as nat;
        lemma_pow2_unfold(level);
        assert(width * pow2(level) == (2 * width) * pow2(below)) by (nonlinear_arith)
            requires
                pow2(level) == 2 * pow2(below),
        ;
        lemma_node_past_leaves(leaves, below, 2 * width, 2 * position);
        lemma_node_past_leaves(leaves, below, 2 * width, 2 * position + 1);
    }
}

/// Halving a level, rounding up, covers the leaves at the next height.
proof fn lemma_next_width(len: nat, level: nat, width: nat, next: nat)
    requires
        len <= width * pow2(level),
        width <= 2 * next,
    ensures
        len <= next * pow2(level + 1),
{
    lemma_pow2_unfold(level + 1);
    assert(width * pow2(level) <= next * pow2(level + 1)) by (nonlinear_arith)
        requires
            width <= 2 * next,
            pow2(level + 1) == 2 * pow2(level),
    ;
}

/// A leaf within a tree of height `height` has its ancestors within the
/// shrinking upper levels.
proof fn lemma_ancestor_bound(index: nat, level: nat, height: nat)
    requires
        index < pow2(height),
        level <= height,
    ensures
        ancestor(index, level) < pow2((height - level) as nat),
    decreases level,
{
    if level > 0 {
        lemma_ancestor_bound(index, (level - 1) as nat, height);
        lemma_pow2_unfold((height - level + 1) as nat);
    }
}

/// Climbing from any leaf position with its proof meets, at every height, the
/// tree node above that leaf.
pub proof fn lemma_proof_climbs_to_node(
    leaves: Seq<Word>,
    index: nat,
    proof: Seq<Word>,
    level: nat,
)
    requires
        is_proof_for(leaves, index, proof),
        level <= DEPTH,
    ensures
        climb(node(leaves, 0, index), index, proof, level) == node(
            leaves,
            level,
            ancestor(index, level),
        ),
    decreases level,
{
    if level > 0 {
        let below = (level - 1) as nat;
        lemma_proof_climbs_to_node(leaves, index, proof, below);
        let position = ancestor(index, below);
        assert(proof.len() == words_view(proof).len() == proof_path(leaves, index).len());
        assert(words_view(proof)[below as int] == proof[below as int]@);
        assert(proof[below as int]@ == node(leaves, below, sibling(position)));
        assert(2 * (position / 2) == position - position % 2);
    }
}

/// A proof authenticates its leaf: in a tree that holds all of `leaves`,
/// climbing from leaf `index` with the proof for `index` ends at the root.
pub proof fn lemma_proof_reaches_root(leaves: Seq<Word>, index: nat, proof: Seq<Word>)
    requires
        is_proof_for(leaves, index, proof),
        index < leaves.len(),
        leaves.len() <= pow2(DEPTH as nat),
    ensures
        climb(leaves[index as int]@, index, proof, DEPTH as nat) == root_of(leaves),
{
    lemma_proof_climbs_to_node(leaves, index, proof, DEPTH as nat);
    lemma_ancestor_bound(index, DEPTH as nat, DEPTH as nat);
    lemma2_to64();
}

/// Hashes the concatenation of two nodes.
pub fn hash_pair(left: &Word, right: &Word) -> (parent: Word)
    ensures
        parent@ == pair_digest(left@, right@),
{
    let mut buf: Vec<u8> = Vec::with_capacity(64);
    append_bytes(&mut buf, left);
    append_bytes(&mut buf, right);
    assert(buf@ =~= left@ + right@);
    keccak(&buf)
}

/// The roots of the empty subtrees below the root, from height zero up.
pub fn zeros() -> (levels: [Word; DEPTH])
    ensures
        forall|level: int|
            #![trigger levels@[level]]
            0 <= level < DEPTH ==> levels@[level]@ == empty_subtree(level as nat),
{
    let mut levels: [Word; DEPTH] = [[0u8; 32]; DEPTH];
    assert(levels@[0]@ =~= zero_bytes(32));
    let mut i: usize = 1;
    while i < DEPTH
        invariant
            1 <= i <= DEPTH,
            forall|level: int|
                #![trigger levels@[level]]
                0 <= level < i ==> levels@[level]@ == empty_subtree(level as nat),
        decreases DEPTH - i,
    {
        let below: Word = levels[i - 1];
        assert(below@ == empty_subtree((i - 1) as nat));
        levels[i] = hash_pair(&below, &below);
        i = i + 1;
    }
    levels
}

/// The next level up: the parents of each adjacent pair, the last one paired
/// with `empty` when it stands alone.
fn parents(level: &Vec<Word>, empty: &Word, Ghost(leaves): Ghost<Seq<Word>>, Ghost(height): Ghost<
    nat,
>) -> (next: Vec<Word>)
    requires
        leaves.len() <= level@.len() * pow2(height),
        empty@ == empty_subtree(height),
        forall|i: int|
            #![trigger level@[i]]
            0 <= i < level@.len() ==> level@[i]@ == node(leaves, height, i as nat),
    ensures
        level@.len() <= 2 * next@.len(),
        forall|i: int|
            #![trigger next@[i]]
            0 <= i < next@.len() ==> next@[i]@ == node(leaves, height + 1, i as nat),
{
    let width: usize = level.len();
    let count: usize = width / 2 + width % 2;
    let mut next: Vec<Word> = Vec::with_capacity(count);
    while next.len() < count
        invariant
            next@.len() <= count,
            width == level@.len(),
            count == width / 2 + width % 2,
            leaves.len() <= level@.len() * pow2(height),
            empty@ == empty_subtree(height),
            forall|i: int|
                #![trigger level@[i]]
                0 <= i < level@.len() ==> level@[i]@ == node(leaves, height, i as nat),
            forall|i: int|
                #![trigger next@[i]]
                0 <= i < next@.len() ==> next@[i]@ == node(leaves, height + 1, i as nat),
        decreases count - next@.len(),
    {
        let i: usize = 2 * next.len();
        let left: Word = level[i];
        let right: Word = if i + 1 < width {
            level[i + 1]
        } else {
            proof {
                lemma_node_past_leaves(leaves, height, level@.len(), (i + 1) as nat);
            }
            *empty
        };
        assert(left@ == node(leaves, height, i as nat));
        assert(right@ == node(leaves, height, (i + 1) as nat));
        next.push(hash_pair(&left, &right));
    }
    next
}

/// The inclusion proof for leaf `index` of the tree over `leaves`. Positions
/// past the last leaf, the queried one included, count as zero words.
pub fn proof_for(leaves: &[Word], index: usize) -> (proof: [Word; DEPTH])
    ensures
        is_proof_for(leaves@, index as nat, proof@),
{
    let zeros: [Word; DEPTH] = zeros();
    let mut level: Vec<Word> = Vec::with_capacity(leaves.len());
    while level.len() < leaves.len()
        invariant
            level@.len() <= leaves@.len(),
            forall|i: int| 0 <= i < level@.len() ==> level@[i] == leaves@[i],
        decreases leaves@.len() - level@.len(),
    {
        let leaf: Word = leaves[level.len()];
        level.push(leaf);
    }
    let mut idx: usize = index;
    let mut proof: [Word; DEPTH] = [[0u8; 32]; DEPTH];
    let mut lvl: usize = 0;
    proof {
        lemma2_to64();
    }
    while lvl < DEPTH
        invariant
            lvl <= DEPTH,
            idx == ancestor(index as nat, lvl as nat),
            leaves@.len() <= level@.len() * pow2(lvl as nat),
            forall|l: int|
                #![trigger zeros@[l]]
                0 <= l < DEPTH ==> zeros@[l]@ == empty_subtree(l as nat),
            forall|i: int|
                #![trigger level@[i]]
                0 <= i < level@.len() ==> level@[i]@ == node(leaves@, lvl as nat, i as nat),
            forall|l: int|
                #![trigger proof@[l]]
                0 <= l < lvl ==> proof@[l]@ == node(
                    leaves@,
                    l as nat,
                    sibling(ancestor(index as nat, l as nat)),
                ),
        decreases DEPTH - lvl,
    {
        let zero: Word = zeros[lvl];
        assert(idx ^ 1 == if idx % 2 == 0 {
            idx + 1
        } else {
            idx - 1
        }) by (bit_vector);
        let sibling_idx: usize = idx ^ 1;
        if sibling_idx < level.len() {
            proof[lvl] = level[sibling_idx];
        } else {
            proof {
                lemma_node_past_leaves(leaves@, lvl as nat, level@.len(), sibling_idx as nat);
            }
            proof[lvl] = zero;
        }
        assert(proof@[lvl as int]@ == node(leaves@, lvl as nat, sibling(idx as nat)));
        let next: Vec<Word> = parents(&level, &zero, Ghost(leaves@), Ghost(lvl as nat));
        proof {
            lemma_next_width(leaves@.len(), lvl as nat, level@.len(), next@.len());
        }
        level = next;
        idx = idx / 2;
        lvl = lvl + 1;
    }
    assert(words_view(proof@) =~= proof_path(leaves@, index as nat));
    proof
}

} // verus!
