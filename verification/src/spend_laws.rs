//! What the checks on a spend are for.
use vstd::prelude::*;
use vstd::arithmetic::power2::pow2;
use crate::bytes::{Address, Word, words_view, zero_bytes};
use crate::contract::{leaf_digest, Read};
use crate::hash::keccak256;
use crate::hex_text::prefixed_hex;
use crate::merkle::{climb, DEPTH, lemma_proof_reaches_root, proof_path, root_of};
use crate::preparation::{
    advance,
    ChainView,
    collect_view,
    lemma_preparation_computes_spend,
    Located,
    Note,
    prepare_spend,
    Query,
    QueryView,
    Reply,
    Stage,
    StageView,
    Step,
    StepView,
};
use crate::spend::{
    check_root_age,
    ensure_note_unspent,
    first_position,
    locate_leaf,
    nonce_slot,
    SpendContext,
    SpendContextView,
    SpendError,
};
use crate::text::decimal;
use crate::u256::{be_value, U256};

verus! {

proof fn lemma_position_is_first(leaves: Seq<Word>, leaf: Seq<u8>, from: nat)
    ensures
        match first_position(leaves, leaf, from) {
            Some(found) => from <= found < leaves.len() && leaves[found as int]@ == leaf && forall|
                i: int,
            |
                #![trigger leaves[i]]
                from <= i < found ==> leaves[i]@ != leaf,
            None => forall|i: int|
                #![trigger leaves[i]]
                from <= i < leaves.len() ==> leaves[i]@ != leaf,
        },
    decreases leaves.len() - from,
{
    if from < leaves.len() && leaves[from as int]@ != leaf {
        lemma_position_is_first(leaves, leaf, from + 1);
    }
}

/// The search for a leaf is complete: it finds the first position that holds
/// the leaf, wherever that is, and finds none only where no position holds it.
pub proof fn lemma_search_is_complete(leaves: &[Word], leaf: &Word, position: Option<usize>)
    requires
        call_ensures(locate_leaf, (leaves, leaf), position),
    ensures
        match position {
            Some(found) => found < leaves@.len() && leaves@[found as int]@ == leaf@ && forall|
                i: int,
            |
                #![trigger leaves@[i]]
                0 <= i < found ==> leaves@[i]@ != leaf@,
            None => forall|i: int|
                #![trigger leaves@[i]]
                0 <= i < leaves@.len() ==> leaves@[i]@ != leaf@,
        },
{
    lemma_position_is_first(leaves@, leaf@, 0);
}

/// A root is usable exactly where the latest block is one to 8191 slots younger,
/// and each refusal says what is wrong with it.
pub proof fn lemma_root_age_is_judged(
    latest: Option<u64>,
    slot: u64,
    result: Result<u64, SpendError>,
)
    requires
        call_ensures(check_root_age, (latest, slot), result),
    ensures
        result is Ok <==> latest is Some && slot < latest->0 <= slot + 8191,
        result matches Ok(age) ==> latest->0 == slot + age,
        latest is None <==> result == Err::<u64, SpendError>(SpendError::NoSlotNumber),
        (latest is Some && latest->0 < slot) <==> result == Err::<u64, SpendError>(
            SpendError::RootAhead,
        ),
        result matches Err(SpendError::RootStale { age }) ==> latest is Some && latest->0 == slot
            + age && (age == 0 || age > 8191),
        result matches Err(error) ==> error is NoSlotNumber || error is RootAhead
            || error is RootStale,
{
}

/// The nonce of a note is stored under the hash of the sender, left-padded to a
/// word, and the note's leaf.
pub proof fn lemma_nonce_slot_is_hashed(
    sender: &Address,
    leaf: &Word,
    slot: U256,
    preimage: Seq<u8>,
)
    requires
        call_ensures(nonce_slot, (sender, leaf), slot),
        preimage.len() == 64,
        forall|i: int| 0 <= i < 12 ==> preimage[i] == 0,
        preimage.subrange(12, 32) == sender@,
        preimage.subrange(32, 64) == leaf@,
    ensures
        slot@ == be_value(keccak256(preimage)),
{
    assert forall|i: int| 12 <= i < 32 implies preimage[i] == sender@[i - 12] by {
        assert(preimage.subrange(12, 32)[i - 12] == preimage[i]);
    }
    assert forall|i: int| 32 <= i < 64 implies preimage[i] == leaf@[i - 32] by {
        assert(preimage.subrange(32, 64)[i - 32] == preimage[i]);
    }
    assert(preimage =~= zero_bytes(12) + sender@ + leaf@);
}

/// A note is unspent exactly where its stored nonce is zero, and is then spent
/// with the nonce zero; otherwise the refusal names the stored nonce.
pub proof fn lemma_used_nonce_is_refused(nonce_seq: U256, result: Result<u64, SpendError>)
    requires
        call_ensures(ensure_note_unspent, (nonce_seq,), result),
    ensures
        result is Ok <==> nonce_seq@ == 0,
        result matches Ok(nonce) ==> nonce == 0,
        result matches Err(error) ==> error matches SpendError::AlreadySpent { nonce_seq: used }
            && used@ == nonce_seq@,
{
}

/// Every refusal says what it is about: the owner, the age, or the nonce.
pub proof fn lemma_refusals_are_explained(error: &SpendError, owner: &Address, text: String)
    requires
        call_ensures(SpendError::message, (error, owner), text),
    ensures
        error is NoNote ==> text@ == "no note found for owner "@ + prefixed_hex(owner@)
            + " -- deposit first"@,
        error is LeafNotFound ==> text@ == "leaf for owner "@ + prefixed_hex(owner@)
            + " not found in commitments -- state out of sync"@,
        error is NoSlotNumber ==> text@
            == "node did not report a slot number (EIP-7843 unsupported?)"@,
        error is RootAhead ==> text@ == "stored root slot is ahead of the latest block"@,
        error matches SpendError::RootStale { age } ==> text@ == "stored recent root is stale ("@
            + decimal(age as nat) + " slots old) -- run `refresh-root` first"@,
        error matches SpendError::AlreadySpent { nonce_seq } ==> text@
            == "note already spent (nonce_seq="@ + decimal(nonce_seq@) + " for this leaf)"@,
{
}

/// A note that can be spent is prepared: where the note holds something, some
/// commitment is its leaf, and the root has a usable age, the conversation ends
/// with a spend of that note, at the first position of its leaf.
pub proof fn lemma_spendable_note_is_prepared(
    chain: ChainView,
    owner: Seq<u8>,
    position: int,
    rounds: nat,
)
    requires
        rounds >= chain.commitments.len() + 6,
        chain.amount > 0,
        0 <= position < chain.commitments.len(),
        chain.commitments[position]@ == leaf_digest(owner, chain.amount, chain.salt),
        chain.latest is Some,
        chain.slot < chain.latest->0 <= chain.slot + 8191,
    ensures
        ({
            let end = chain.converse(
                StepView::Ask {
                    stage: StageView::Note { owner },
                    query: QueryView::Note(owner),
                },
                rounds,
            );
            &&& end is Done
            &&& end->0 is Ok
            &&& ({
                let spend = end->0->Ok_0;
                &&& spend.amount == chain.amount
                &&& spend.salt == chain.salt
                &&& spend.leaf == chain.commitments[position]@
                &&& spend.leaf_index <= position
                &&& chain.commitments[spend.leaf_index as int]@ == spend.leaf
                &&& forall|i: int|
                    #![trigger chain.commitments[i]]
                    0 <= i < spend.leaf_index ==> chain.commitments[i]@ != spend.leaf
                &&& spend.proof == proof_path(chain.commitments, spend.leaf_index)
                &&& spend.root == chain.root
                &&& spend.slot == chain.slot
                &&& spend.source_id == chain.source_id
            })
        }),
{
    lemma_preparation_computes_spend(chain, owner, rounds);
    lemma_position_is_first(
        chain.commitments,
        leaf_digest(owner, chain.amount, chain.salt),
        0,
    );
}

/// A note that cannot be spent is refused for the first reason there is: it
/// holds nothing, its leaf is at no position, or the root has no usable age.
pub proof fn lemma_unspendable_note_is_refused(chain: ChainView, owner: Seq<u8>, rounds: nat)
    requires
        rounds >= chain.commitments.len() + 6,
    ensures
        ({
            let end = chain.converse(
                StepView::Ask {
                    stage: StageView::Note { owner },
                    query: QueryView::Note(owner),
                },
                rounds,
            );
            let leaf = leaf_digest(owner, chain.amount, chain.salt);
            let missing = forall|i: int|
                #![trigger chain.commitments[i]]
                0 <= i < chain.commitments.len() ==> chain.commitments[i]@ != leaf;
            &&& end is Done
            &&& end->0 == Err::<SpendContextView, SpendError>(SpendError::NoNote) <==> chain.amount == 0
            &&& end->0 == Err::<SpendContextView, SpendError>(SpendError::LeafNotFound) <==> chain.amount > 0
                && missing
            &&& end->0 == Err::<SpendContextView, SpendError>(SpendError::NoSlotNumber) <==> chain.amount > 0
                && !missing && chain.latest is None
            &&& end->0 == Err::<SpendContextView, SpendError>(SpendError::RootAhead) <==> chain.amount > 0
                && !missing && chain.latest is Some && chain.latest->0 < chain.slot
            &&& end->0 is Ok <==> chain.amount > 0 && !missing && chain.latest is Some && chain.slot
                < chain.latest->0 <= chain.slot + 8191
        }),
{
    lemma_preparation_computes_spend(chain, owner, rounds);
    lemma_position_is_first(
        chain.commitments,
        leaf_digest(owner, chain.amount, chain.salt),
        0,
    );
}

/// The same words, byte for byte.
pub open spec fn same_words(words: Seq<Word>, other: Seq<Word>) -> bool {
    &&& words.len() == other.len()
    &&& forall|i: int| #![trigger words[i]] 0 <= i < words.len() ==> words[i]@ == other[i]@
}

/// The same note with the same commitment.
pub open spec fn same_note(note: Note, other: Note) -> bool {
    note.amount@ == other.amount@ && note.salt@ == other.salt@ && note.leaf@ == other.leaf@
}

/// The same note at the same position, with the same proof.
pub open spec fn same_located(located: Located, other: Located) -> bool {
    &&& same_note(located.note, other.note)
    &&& located.leaf_index@ == other.leaf_index@
    &&& same_words(located.proof@, other.proof@)
}

pub(crate) proof fn lemma_words_by_view(words: Seq<Word>, other: Seq<Word>)
    requires
        words_view(words) == words_view(other),
    ensures
        same_words(words, other),
{
    assert(words.len() == words_view(words).len());
    assert(other.len() == words_view(other).len());
    assert forall|i: int| #![trigger words[i]] 0 <= i < words.len() implies words[i]@
        == other[i]@ by {
        assert(words_view(words)[i] == words[i]@);
        assert(words_view(other)[i] == other[i]@);
    }
}

/// A preparation starts by asking for the note of the owner given.
pub proof fn lemma_preparation_asks_for_the_note(owner: Address, step: Step)
    requires
        call_ensures(prepare_spend, (owner,), step),
    ensures
        step is Ask,
        step->stage is Note,
        step->stage->Note_owner@ == owner@,
        step->query is Tank,
        step->query->0 is Note,
        step->query->0->Note_0@ == owner@,
{
}

/// An empty note ends a preparation; any other is committed to, with its owner,
/// and the size of the tree is asked for.
pub proof fn lemma_note_is_committed_to(owner: Address, amount: U256, salt: Word, step: Step)
    requires
        call_ensures(advance, (Stage::Note { owner }, Reply::Note { amount, salt }), step),
    ensures
        amount@ == 0 ==> step is Done && step->0 == Err::<SpendContext, SpendError>(
            SpendError::NoNote,
        ),
        amount@ > 0 ==> step is Ask && step->stage is LeafCount && step->query == Query::Tank(
            Read::NextLeafIndex,
        ) && ({
            let note = step->stage->LeafCount_note;
            &&& note.amount@ == amount@
            &&& note.salt@ == salt@
            &&& note.leaf@ == leaf_digest(owner@, amount@, salt@)
        }),
{
}

/// What follows once `leaves` are gathered: the next commitment is asked for,
/// or the note is looked for among all of them, from the first to the last.
pub open spec fn goes_on_with(step: Step, note: Note, count: nat, leaves: Seq<Word>) -> bool {
    &&& leaves.len() < count ==> step is Ask && step->stage is Commitment && ({
        &&& same_note(step->stage->Commitment_note, note)
        &&& step->stage->Commitment_count@ == count
        &&& step->stage->Commitment_leaves@ == leaves
        &&& step->query is Tank
        &&& step->query->0 is Commitment
        &&& step->query->0->Commitment_0@ == leaves.len()
    })
    &&& leaves.len() >= count && (exists|i: int|
        #![trigger leaves[i]]
        0 <= i < leaves.len() && leaves[i]@ == note.leaf@) ==> step is Ask && step->stage is Root
        && step->query == Query::Tank(Read::Root) && finds(
        step->stage->Root_located,
        note,
        leaves,
    )
    &&& leaves.len() >= count && (forall|i: int|
        #![trigger leaves[i]]
        0 <= i < leaves.len() ==> leaves[i]@ != note.leaf@) ==> step is Done && step->0 == Err::<
        SpendContext,
        SpendError,
    >(SpendError::LeafNotFound)
}

/// Whether `located` is the note at the first position of its leaf, with a proof
/// that leads from there to the root of the tree over `leaves`.
pub open spec fn finds(located: Located, note: Note, leaves: Seq<Word>) -> bool {
    let index = located.leaf_index@;
    &&& same_note(located.note, note)
    &&& index < leaves.len()
    &&& leaves[index as int]@ == note.leaf@
    &&& forall|i: int| #![trigger leaves[i]] 0 <= i < index ==> leaves[i]@ != note.leaf@
    &&& leaves.len() <= pow2(DEPTH as nat) ==> climb(
        note.leaf@,
        index,
        located.proof@,
        DEPTH as nat,
    ) == root_of(leaves)
}

proof fn lemma_gathering_goes_on(step: Step, note: Note, count: nat, leaves: Seq<Word>)
    requires
        step@ == collect_view(note@, count, leaves),
    ensures
        goes_on_with(step, note, count, leaves),
{
    lemma_position_is_first(leaves, note.leaf@, 0);
    if leaves.len() >= count && first_position(leaves, note.leaf@, 0) is Some {
        let located = step->stage->Root_located;
        assert(words_view(located.proof@) == proof_path(leaves, located.leaf_index@));
        if leaves.len() <= pow2(DEPTH as nat) {
            lemma_proof_reaches_root(leaves, located.leaf_index@, located.proof@);
        }
    }
}

/// Once the size of the tree is known, the commitments are gathered from the
/// first on.
pub proof fn lemma_gathering_starts(note: Note, count: U256, step: Step)
    requires
        call_ensures(advance, (Stage::LeafCount { note }, Reply::LeafCount(count)), step),
    ensures
        goes_on_with(step, note, count@, Seq::empty()),
{
    lemma_gathering_goes_on(step, note, count@, Seq::empty());
}

/// Each commitment is kept behind those before it.
pub proof fn lemma_commitment_is_gathered(
    note: Note,
    count: U256,
    leaves: Vec<Word>,
    word: Word,
    step: Step,
)
    requires
        call_ensures(
            advance,
            (Stage::Commitment { note, count, leaves }, Reply::Commitment(word)),
            step,
        ),
    ensures
        goes_on_with(step, note, count@, leaves@.push(word)),
{
    lemma_gathering_goes_on(step, note, count@, leaves@.push(word));
}

/// The root, its slot and its source are taken as the chain gives them.
pub proof fn lemma_root_is_gathered(
    located: Located,
    root: Word,
    slot: u64,
    source_id: Word,
    first: Step,
    second: Step,
    third: Step,
)
    requires
        call_ensures(advance, (Stage::Root { located }, Reply::Root(root)), first),
        call_ensures(advance, (Stage::RootSlot { located, root }, Reply::RootSlot(slot)), second),
        call_ensures(
            advance,
            (Stage::SourceId { located, root, slot }, Reply::SourceId(source_id)),
            third,
        ),
    ensures
        first is Ask && first->stage is RootSlot && first->query == Query::Tank(
            Read::LastRootSlot,
        ),
        same_located(first->stage->RootSlot_located, located),
        first->stage->RootSlot_root@ == root@,
        second is Ask && second->stage is SourceId && second->query == Query::Tank(
            Read::SourceId,
        ),
        same_located(second->stage->SourceId_located, located),
        second->stage->SourceId_root@ == root@,
        second->stage->SourceId_slot == slot,
        third is Ask && third->stage is LatestSlot && third->query == Query::LatestSlot,
        same_located(third->stage->LatestSlot_located, located),
        third->stage->LatestSlot_root@ == root@,
        third->stage->LatestSlot_slot == slot,
        third->stage->LatestSlot_source_id@ == source_id@,
{
    lemma_words_by_view(first->stage->RootSlot_located.proof@, located.proof@);
    lemma_words_by_view(second->stage->SourceId_located.proof@, located.proof@);
    lemma_words_by_view(third->stage->LatestSlot_located.proof@, located.proof@);
}

/// A preparation ends with everything that it gathered, where the root is one to
/// 8191 slots older than the latest block, and with a refusal otherwise.
pub proof fn lemma_spend_holds_what_was_gathered(
    located: Located,
    root: Word,
    slot: u64,
    source_id: Word,
    latest: Option<u64>,
    step: Step,
)
    requires
        call_ensures(
            advance,
            (Stage::LatestSlot { located, root, slot, source_id }, Reply::LatestSlot(latest)),
            step,
        ),
    ensures
        step is Done,
        step->0 is Ok <==> latest is Some && slot < latest->0 <= slot + 8191,
        step->0 matches Ok(spend) ==> {
            &&& spend.amount@ == located.note.amount@
            &&& spend.salt@ == located.note.salt@
            &&& spend.leaf@ == located.note.leaf@
            &&& spend.leaf_index@ == located.leaf_index@
            &&& same_words(spend.proof@, located.proof@)
            &&& spend.root@ == root@
            &&& spend.slot == slot
            &&& spend.source_id@ == source_id@
        },
        step->0 == Err::<SpendContext, SpendError>(SpendError::NoSlotNumber) <==> latest is None,
        step->0 == Err::<SpendContext, SpendError>(SpendError::RootAhead) <==> latest is Some
            && latest->0 < slot,
        step->0 matches Err(SpendError::RootStale { age }) ==> latest is Some && latest->0 == slot
            + age,
{
    if step->0 is Ok {
        lemma_words_by_view(step->0->Ok_0.proof@, located.proof@);
    }
}

} // verus!
