//! The preparation of a spend as a conversation: each stage asks the chain one
//! question, and each reply leads to the next question or to the result.
use vstd::prelude::*;
use vstd::arithmetic::power2::pow2;
use vstd::pervasive::unreached;
use crate::bytes::{Address, Word, words_view};
use crate::contract::{leaf, leaf_digest, Read};
use crate::merkle::{climb, DEPTH, lemma_proof_reaches_root, proof_for, proof_path, root_of};
use crate::spend::{
    check_root_age,
    first_position,
    locate_leaf,
    RECENT_ROOT_USABLE_WINDOW,
    SpendContext,
    SpendContextView,
    SpendError,
    usable_age,
};
use crate::u256::U256;

verus! {

/// A question to the chain.
#[derive(Clone, Copy, Debug, PartialEq, Eq)]
pub enum Query {
    /// A view of the GasTank contract.
    Tank(Read),
    /// The slot number of the latest block, if the node reports one.
    LatestSlot,
}

/// What a [`Query`] asks for.
pub enum QueryView {
    Note(Seq<u8>),
    LeafCount,
    Commitment(nat),
    Root,
    RootSlot,
    SourceId,
    LatestSlot,
}

impl View for Query {
    type V = QueryView;

    open spec fn view(&self) -> QueryView {
        match self {
            Query::Tank(Read::Note(owner)) => QueryView::Note(owner@),
            Query::Tank(Read::NextLeafIndex) => QueryView::LeafCount,
            Query::Tank(Read::Commitment(index)) => QueryView::Commitment(index@),
            Query::Tank(Read::Root) => QueryView::Root,
            Query::Tank(Read::LastRootSlot) => QueryView::RootSlot,
            Query::Tank(Read::SourceId) => QueryView::SourceId,
            Query::LatestSlot => QueryView::LatestSlot,
        }
    }
}

/// An answer to a [`Query`].
#[derive(Clone, Copy, Debug, PartialEq, Eq)]
pub enum Reply {
    Note { amount: U256, salt: Word },
    LeafCount(U256),
    Commitment(Word),
    Root(Word),
    RootSlot(u64),
    SourceId(Word),
    LatestSlot(Option<u64>),
}

/// The mathematical content of a [`Reply`].
pub enum ReplyView {
    Note { amount: nat, salt: Seq<u8> },
    LeafCount(nat),
    Commitment(Word),
    Root(Seq<u8>),
    RootSlot(u64),
    SourceId(Seq<u8>),
    LatestSlot(Option<u64>),
}

impl View for Reply {
    type V = ReplyView;

    open spec fn view(&self) -> ReplyView {
        match self {
            Reply::Note { amount, salt } => ReplyView::Note { amount: amount@, salt: salt@ },
            Reply::LeafCount(count) => ReplyView::LeafCount(count@),
            Reply::Commitment(word) => ReplyView::Commitment(*word),
            Reply::Root(root) => ReplyView::Root(root@),
            Reply::RootSlot(slot) => ReplyView::RootSlot(*slot),
            Reply::SourceId(source_id) => ReplyView::SourceId(source_id@),
            Reply::LatestSlot(latest) => ReplyView::LatestSlot(*latest),
        }
    }
}

/// A note and its commitment.
#[derive(Clone, Copy, Debug)]
pub struct Note {
    pub amount: U256,
    pub salt: Word,
    pub leaf: Word,
}

/// The mathematical content of a [`Note`].
pub struct NoteView {
    pub amount: nat,
    pub salt: Seq<u8>,
    pub leaf: Seq<u8>,
}

impl View for Note {
    type V = NoteView;

    open spec fn view(&self) -> NoteView {
        NoteView { amount: self.amount@, salt: self.salt@, leaf: self.leaf@ }
    }
}

/// A note, its position in the tree, and its inclusion proof.
#[derive(Clone, Copy, Debug)]
pub struct Located {
    pub note: Note,
    pub leaf_index: U256,
    pub proof: [Word; DEPTH],
}

/// The mathematical content of a [`Located`].
pub struct LocatedView {
    pub note: NoteView,
    pub leaf_index: nat,
    pub proof: Seq<Seq<u8>>,
}

impl View for Located {
    type V = LocatedView;

    open spec fn view(&self) -> LocatedView {
        LocatedView {
            note: self.note@,
            leaf_index: self.leaf_index@,
            proof: words_view(self.proof@),
        }
    }
}

/// How far a preparation has come, named after the reply that it waits for.
#[derive(Debug)]
pub enum Stage {
    Note { owner: Address },
    LeafCount { note: Note },
    Commitment { note: Note, count: U256, leaves: Vec<Word> },
    Root { located: Located },
    RootSlot { located: Located, root: Word },
    SourceId { located: Located, root: Word, slot: u64 },
    LatestSlot { located: Located, root: Word, slot: u64, source_id: Word },
}

/// The mathematical content of a [`Stage`].
pub enum StageView {
    Note { owner: Seq<u8> },
    LeafCount { note: NoteView },
    Commitment { note: NoteView, count: nat, leaves: Seq<Word> },
    Root { located: LocatedView },
    RootSlot { located: LocatedView, root: Seq<u8> },
    SourceId { located: LocatedView, root: Seq<u8>, slot: u64 },
    LatestSlot { located: LocatedView, root: Seq<u8>, slot: u64, source_id: Seq<u8> },
}

impl View for Stage {
    type V = StageView;

    open spec fn view(&self) -> StageView {
        match self {
            Stage::Note { owner } => StageView::Note { owner: owner@ },
            Stage::LeafCount { note } => StageView::LeafCount { note: note@ },
            Stage::Commitment { note, count, leaves } => StageView::Commitment {
                note: note@,
                count: count@,
                leaves: leaves@,
            },
            Stage::Root { located } => StageView::Root { located: located@ },
            Stage::RootSlot { located, root } => StageView::RootSlot {
                located: located@,
                root: root@,
            },
            Stage::SourceId { located, root, slot } => StageView::SourceId {
                located: located@,
                root: root@,
                slot: *slot,
            },
            Stage::LatestSlot { located, root, slot, source_id } => StageView::LatestSlot {
                located: located@,
                root: root@,
                slot: *slot,
                source_id: source_id@,
            },
        }
    }
}

/// What to do next.
#[derive(Debug)]
pub enum Step {
    /// Ask `query`, and hand the reply to `stage`.
    Ask { stage: Stage, query: Query },
    /// The preparation has ended.
    Done(Result<SpendContext, SpendError>),
}

/// The mathematical content of a [`Step`].
pub enum StepView {
    Ask { stage: StageView, query: QueryView },
    Done(Result<SpendContextView, SpendError>),
}

/// The content of a preparation's result.
pub open spec fn result_view(result: Result<SpendContext, SpendError>) -> Result<
    SpendContextView,
    SpendError,
> {
    match result {
        Ok(context) => Ok(context@),
        Err(error) => Err(error),
    }
}

impl View for Step {
    type V = StepView;

    open spec fn view(&self) -> StepView {
        match self {
            Step::Ask { stage, query } => StepView::Ask { stage: stage@, query: query@ },
            Step::Done(result) => StepView::Done(result_view(*result)),
        }
    }
}

impl StageView {
    /// Whether `reply` is of the kind that this stage waits for.
    pub open spec fn awaits(self, reply: ReplyView) -> bool {
        match self {
            StageView::Note { .. } => reply is Note,
            StageView::LeafCount { .. } => reply is LeafCount,
            StageView::Commitment { .. } => reply is Commitment,
            StageView::Root { .. } => reply is Root,
            StageView::RootSlot { .. } => reply is RootSlot,
            StageView::SourceId { .. } => reply is SourceId,
            StageView::LatestSlot { .. } => reply is LatestSlot,
        }
    }
}

/// Asks for the next commitment until all `count` of them are there, then
/// looks for the note among them.
pub open spec fn collect_view(note: NoteView, count: nat, leaves: Seq<Word>) -> StepView {
    if leaves.len() < count {
        StepView::Ask {
            stage: StageView::Commitment { note, count, leaves },
            query: QueryView::Commitment(leaves.len()),
        }
    } else {
        match first_position(leaves, note.leaf, 0) {
            None => StepView::Done(Err(SpendError::LeafNotFound)),
            Some(position) => StepView::Ask {
                stage: StageView::Root {
                    located: LocatedView {
                        note,
                        leaf_index: position,
                        proof: proof_path(leaves, position),
                    },
                },
                query: QueryView::Root,
            },
        }
    }
}

/// Where `reply` leads from `stage`.
pub open spec fn advanced(stage: StageView, reply: ReplyView) -> StepView {
    match (stage, reply) {
        (StageView::Note { owner }, ReplyView::Note { amount, salt }) => if amount == 0 {
            StepView::Done(Err(SpendError::NoNote))
        } else {
            StepView::Ask {
                stage: StageView::LeafCount {
                    note: NoteView { amount, salt, leaf: leaf_digest(owner, amount, salt) },
                },
                query: QueryView::LeafCount,
            }
        },
        (StageView::LeafCount { note }, ReplyView::LeafCount(count)) => collect_view(
            note,
            count,
            Seq::empty(),
        ),
        (
            StageView::Commitment { note, count, leaves },
            ReplyView::Commitment(word),
        ) => collect_view(note, count, leaves.push(word)),
        (StageView::Root { located }, ReplyView::Root(root)) => StepView::Ask {
            stage: StageView::RootSlot { located, root },
            query: QueryView::RootSlot,
        },
        (StageView::RootSlot { located, root }, ReplyView::RootSlot(slot)) => StepView::Ask {
            stage: StageView::SourceId { located, root, slot },
            query: QueryView::SourceId,
        },
        (
            StageView::SourceId { located, root, slot },
            ReplyView::SourceId(source_id),
        ) => StepView::Ask {
            stage: StageView::LatestSlot { located, root, slot, source_id },
            query: QueryView::LatestSlot,
        },
        (
            StageView::LatestSlot { located, root, slot, source_id },
            ReplyView::LatestSlot(latest),
        ) => StepView::Done(
            match usable_age(latest, slot) {
                Err(error) => Err(error),
                Ok(_) => Ok(
                    SpendContextView {
                        amount: located.note.amount,
                        salt: located.note.salt,
                        leaf: located.note.leaf,
                        leaf_index: located.leaf_index,
                        proof: located.proof,
                        root,
                        slot,
                        source_id,
                    },
                ),
            },
        ),
        _ => arbitrary(),
    }
}

/// Starts to prepare a spend of the note of `owner`.
pub fn prepare_spend(owner: Address) -> (step: Step)
    ensures
        step@ == (StepView::Ask {
            stage: StageView::Note { owner: owner@ },
            query: QueryView::Note(owner@),
        }),
{
    Step::Ask { stage: Stage::Note { owner }, query: Query::Tank(Read::Note(owner)) }
}

fn collect(note: Note, count: U256, leaves: Vec<Word>) -> (step: Step)
    ensures
        step@ == collect_view(note@, count@, leaves@),
{
    let gathered: u64 = leaves.len() as u64;
    if count.exceeds(gathered) {
        Step::Ask {
            stage: Stage::Commitment { note, count, leaves },
            query: Query::Tank(Read::Commitment(U256::from_u64(gathered))),
        }
    } else {
        match locate_leaf(&leaves, &note.leaf) {
            None => Step::Done(Err(SpendError::LeafNotFound)),
            Some(position) => {
                let located: Located = Located {
                    note,
                    leaf_index: U256::from_u64(position as u64),
                    proof: proof_for(&leaves, position),
                };
                Step::Ask { stage: Stage::Root { located }, query: Query::Tank(Read::Root) }
            },
        }
    }
}

/// Takes the reply to a stage's question and says what to do next.
pub fn advance(stage: Stage, reply: Reply) -> (step: Step)
    requires
        stage@.awaits(reply@),
    ensures
        step@ == advanced(stage@, reply@),
{
    match (stage, reply) {
        (Stage::Note { owner }, Reply::Note { amount, salt }) => if amount.is_zero() {
            Step::Done(Err(SpendError::NoNote))
        } else {
            let note: Note = Note { amount, salt, leaf: leaf(&owner, &amount, &salt) };
            Step::Ask {
                stage: Stage::LeafCount { note },
                query: Query::Tank(Read::NextLeafIndex),
            }
        },
        (Stage::LeafCount { note }, Reply::LeafCount(count)) => collect(note, count, Vec::new()),
        (Stage::Commitment { note, count, leaves }, Reply::Commitment(word)) => {
            let mut leaves: Vec<Word> = leaves;
            leaves.push(word);
            collect(note, count, leaves)
        },
        (Stage::Root { located }, Reply::Root(root)) => Step::Ask {
            stage: Stage::RootSlot { located, root },
            query: Query::Tank(Read::LastRootSlot),
        },
        (Stage::RootSlot { located, root }, Reply::RootSlot(slot)) => Step::Ask {
            stage: Stage::SourceId { located, root, slot },
            query: Query::Tank(Read::SourceId),
        },
        (Stage::SourceId { located, root, slot }, Reply::SourceId(source_id)) => Step::Ask {
            stage: Stage::LatestSlot { located, root, slot, source_id },
            query: Query::LatestSlot,
        },
        (
            Stage::LatestSlot { located, root, slot, source_id },
            Reply::LatestSlot(latest),
        ) => match check_root_age(latest, slot) {
            Err(error) => Step::Done(Err(error)),
            Ok(_) => Step::Done(
                Ok(
                    SpendContext {
                        amount: located.note.amount,
                        salt: located.note.salt,
                        leaf: located.note.leaf,
                        leaf_index: located.leaf_index,
                        proof: located.proof,
                        root,
                        slot,
                        source_id,
                    },
                ),
            ),
        },
        _ => unreached(),
    }
}

/// What the chain says while a spend is prepared.
pub struct ChainView {
    pub amount: nat,
    pub salt: Seq<u8>,
    pub commitments: Seq<Word>,
    pub root: Seq<u8>,
    pub slot: u64,
    pub source_id: Seq<u8>,
    pub latest: Option<u64>,
}

impl ChainView {
    /// The chain's reply to `query`.
    pub open spec fn answer(self, query: QueryView) -> ReplyView {
        match query {
            QueryView::Note(_) => ReplyView::Note { amount: self.amount, salt: self.salt },
            QueryView::LeafCount => ReplyView::LeafCount(self.commitments.len()),
            QueryView::Commitment(index) => ReplyView::Commitment(self.commitments[index as int]),
            QueryView::Root => ReplyView::Root(self.root),
            QueryView::RootSlot => ReplyView::RootSlot(self.slot),
            QueryView::SourceId => ReplyView::SourceId(self.source_id),
            QueryView::LatestSlot => ReplyView::LatestSlot(self.latest),
        }
    }

    /// What a spend of the note of `owner` needs, or why it cannot be made.
    pub open spec fn spend_of(self, owner: Seq<u8>) -> Result<SpendContextView, SpendError> {
        let leaf = leaf_digest(owner, self.amount, self.salt);
        if self.amount == 0 {
            Err(SpendError::NoNote)
        } else {
            match (first_position(self.commitments, leaf, 0), usable_age(self.latest, self.slot)) {
                (None, _) => Err(SpendError::LeafNotFound),
                (Some(_), Err(error)) => Err(error),
                (Some(position), Ok(_)) => Ok(
                    SpendContextView {
                        amount: self.amount,
                        salt: self.salt,
                        leaf,
                        leaf_index: position,
                        proof: proof_path(self.commitments, position),
                        root: self.root,
                        slot: self.slot,
                        source_id: self.source_id,
                    },
                ),
            }
        }
    }

    /// The step reached from `step` after at most `rounds` replies.
    pub open spec fn converse(self, step: StepView, rounds: nat) -> StepView
        decreases rounds,
    {
        match step {
            StepView::Done(_) => step,
            StepView::Ask { stage, query } => if rounds == 0 {
                step
            } else {
                self.converse(advanced(stage, self.answer(query)), (rounds - 1) as nat)
            },
        }
    }
}

/// Every question asks for the reply that its stage waits for, so that a reply
/// to the question can always be handed on.
pub proof fn lemma_question_fits_stage(chain: ChainView, stage: StageView, reply: ReplyView)
    requires
        stage.awaits(reply),
    ensures
        advanced(stage, reply) matches StepView::Ask { stage: next, query } ==> next.awaits(
            chain.answer(query),
        ),
{
}

/// How a conversation goes on once the commitments are there.
proof fn lemma_converse_from_root(chain: ChainView, located: LocatedView, rounds: nat)
    requires
        rounds >= 4,
    ensures
        chain.converse(
            StepView::Ask { stage: StageView::Root { located }, query: QueryView::Root },
            rounds,
        ) == StepView::Done(
            match usable_age(chain.latest, chain.slot) {
                Err(error) => Err(error),
                Ok(_) => Ok(
                    SpendContextView {
                        amount: located.note.amount,
                        salt: located.note.salt,
                        leaf: located.note.leaf,
                        leaf_index: located.leaf_index,
                        proof: located.proof,
                        root: chain.root,
                        slot: chain.slot,
                        source_id: chain.source_id,
                    },
                ),
            },
        ),
{
    reveal_with_fuel(ChainView::converse, 6);
}

/// The commitments are gathered one by one, in order.
proof fn lemma_converse_collects(chain: ChainView, note: NoteView, gathered: nat, rounds: nat)
    requires
        gathered <= chain.commitments.len(),
        rounds >= chain.commitments.len() - gathered,
    ensures
        chain.converse(
            collect_view(note, chain.commitments.len(), chain.commitments.take(gathered as int)),
            rounds,
        ) == chain.converse(
            collect_view(note, chain.commitments.len(), chain.commitments),
            (rounds - (chain.commitments.len() - gathered)) as nat,
        ),
    decreases chain.commitments.len() - gathered,
{
    let leaves = chain.commitments.take(gathered as int);
    if gathered < chain.commitments.len() {
        assert(leaves.push(chain.commitments[gathered as int]) =~= chain.commitments.take(
            gathered as int + 1,
        ));
        lemma_converse_collects(chain, note, gathered + 1, (rounds - 1) as nat);
    } else {
        assert(leaves =~= chain.commitments);
    }
}

/// The conversation computes what the chain's state says: started for `owner`
/// and answered by one state of the chain, it ends after a round for each
/// commitment and six more, with the spend of that owner's note.
pub proof fn lemma_preparation_computes_spend(chain: ChainView, owner: Seq<u8>, rounds: nat)
    requires
        rounds >= chain.commitments.len() + 6,
    ensures
        chain.converse(
            StepView::Ask {
                stage: StageView::Note { owner },
                query: QueryView::Note(owner),
            },
            rounds,
        ) == StepView::Done(chain.spend_of(owner)),
{
    let leaf = leaf_digest(owner, chain.amount, chain.salt);
    let note = NoteView { amount: chain.amount, salt: chain.salt, leaf };
    let first = advanced(
        StageView::Note { owner },
        ReplyView::Note { amount: chain.amount, salt: chain.salt },
    );
    reveal_with_fuel(ChainView::converse, 3);
    if chain.amount != 0 {
        assert(chain.commitments.take(0) =~= Seq::<Word>::empty());
        lemma_converse_collects(chain, note, 0, (rounds - 2) as nat);
        let left = (rounds - 2 - chain.commitments.len()) as nat;
        match first_position(chain.commitments, leaf, 0) {
            None => {},
            Some(position) => {
                lemma_converse_from_root(
                    chain,
                    LocatedView {
                        note,
                        leaf_index: position,
                        proof: proof_path(chain.commitments, position),
                    },
                    left,
                );
            },
        }
    }
}

/// A prepared spend is one that can be made: the note holds something, its
/// commitment is the leaf at the given position, and the root was published
/// before the latest block and within the usable window.
pub proof fn lemma_spend_is_usable(chain: ChainView, owner: Seq<u8>)
    requires
        chain.spend_of(owner) is Ok,
    ensures
        ({
            let spend = chain.spend_of(owner)->Ok_0;
            &&& spend.amount > 0
            &&& spend.leaf == leaf_digest(owner, spend.amount, spend.salt)
            &&& spend.leaf_index < chain.commitments.len()
            &&& chain.commitments[spend.leaf_index as int]@ == spend.leaf
            &&& chain.latest is Some
            &&& 1 <= chain.latest->0 - spend.slot <= RECENT_ROOT_USABLE_WINDOW
        }),
{
    lemma_first_position(
        chain.commitments,
        leaf_digest(owner, chain.amount, chain.salt),
        0,
    );
}

/// A prepared spend proves its note: where the chain's root is the root of its
/// commitments, and these fit the tree, the proof leads from the note's leaf
/// to the root that the spend refers to.
pub proof fn lemma_spend_proof_reaches_root(chain: ChainView, owner: Seq<u8>, proof: Seq<Word>)
    requires
        chain.commitments.len() <= pow2(DEPTH as nat),
        chain.root == root_of(chain.commitments),
        chain.spend_of(owner) matches Ok(spend) && spend.proof == words_view(proof),
    ensures
        chain.spend_of(owner) matches Ok(spend) && climb(
            spend.leaf,
            spend.leaf_index,
            proof,
            DEPTH as nat,
        ) == spend.root,
{
    let leaf = leaf_digest(owner, chain.amount, chain.salt);
    let position = first_position(chain.commitments, leaf, 0)->0;
    lemma_first_position(chain.commitments, leaf, 0);
    lemma_proof_reaches_root(chain.commitments, position, proof);
}

proof fn lemma_first_position(leaves: Seq<Word>, leaf: Seq<u8>, from: nat)
    ensures
        first_position(leaves, leaf, from) matches Some(position) ==> position < leaves.len()
            && leaves[position as int]@ == leaf,
    decreases leaves.len() - from,
{
    if from < leaves.len() && leaves[from as int]@ != leaf {
        lemma_first_position(leaves, leaf, from + 1);
    }
}

} // verus!
