//! Lazy recovery of pending state.
//!
//! Pending state lives in memory only. When the state of a parent block is
//! missing, a [`Rebuild`] walks back through the block DAG to the nearest block
//! whose state is at hand, then replays the blocks on the way forward. It says
//! what to do next, and is told what came of it.

use crate::stateful::mode::{Mode, PrepareBatchesError};
use crate::stateful::{Application, Block};
use crate::types::{Digest, Round};
use vstd::prelude::*;

verus! {

/// What a rebuild is waiting for.
#[derive(Clone, Copy, Debug, PartialEq, Eq, Structural)]
pub enum RebuildStage {
    /// Walking back: the block named `current` has been asked for.
    Walk,
    /// Replaying: batches are being forked for the last block of `to_replay`.
    Fork,
    /// Replaying: the last block of `to_replay` is being applied.
    Apply,
}

/// A rebuild in progress.
pub struct Rebuild<const N: usize, A: Application> {
    /// The block whose state is wanted.
    pub target: Digest<N>,
    /// The block that the walk has reached.
    pub current: Digest<N>,
    /// The blocks whose state is missing, youngest first.
    pub to_replay: Vec<Block<N, A::Body>>,
    pub stage: RebuildStage,
}

/// What a rebuild needs next.
#[derive(Clone, Copy, Debug)]
pub enum RebuildStep<const N: usize> {
    /// Fetch this block.
    Fetch { digest: Digest<N> },
    /// Fork batches from the state of `parent`, which is known.
    Fork { parent: Digest<N> },
    /// Apply the last block of `to_replay` to the forked batches.
    Apply,
    /// The rebuild has ended.
    Done { result: Result<(), PrepareBatchesError> },
}

/// What came of the last step.
pub enum RebuildEvent<const N: usize, A: Application> {
    /// The caller no longer waits for the response.
    Cancelled,
    /// The provider returned the block, or ended the subscription without it.
    Fetched { block: Option<Block<N, A::Body>> },
    /// The batches have been forked.
    Forked,
    /// The block has been applied.
    Applied { merkleized: A::Merkleized },
}

impl<const N: usize, A: Application> RebuildEvent<N, A> {
    /// The event answers the step of this stage; a cancellation answers every step.
    pub open spec fn answers(self, stage: RebuildStage) -> bool {
        match self {
            RebuildEvent::Cancelled => true,
            RebuildEvent::Fetched { .. } => stage is Walk,
            RebuildEvent::Forked => stage is Fork,
            RebuildEvent::Applied { .. } => stage is Apply,
        }
    }
}

/// The replay step for the last of `to_replay`.
pub open spec fn replay_step<const N: usize, A: Application>(
    to_replay: Seq<Block<N, A::Body>>,
    mode: Mode<N, A>,
) -> RebuildStep<N> {
    if to_replay.len() == 0 {
        RebuildStep::Done { result: Ok(()) }
    } else if mode.knows(to_replay.last().parent) {
        RebuildStep::Fork { parent: to_replay.last().parent }
    } else {
        RebuildStep::Done { result: Err(PrepareBatchesError::Invalid) }
    }
}

/// How a rebuild and the mode go on when an event has been taken in, and with what step.
pub open spec fn resumes<const N: usize, A: Application>(
    rebuild: Rebuild<N, A>,
    mode: Mode<N, A>,
    event: RebuildEvent<N, A>,
    next: Rebuild<N, A>,
    next_mode: Mode<N, A>,
    step: RebuildStep<N>,
) -> bool {
    &&& next_mode is Running
    &&& next_mode->databases == mode->databases
    &&& next_mode->finalized_digest == mode->finalized_digest
    &&& next.target == rebuild.target
    &&& match event {
        RebuildEvent::Cancelled => {
            &&& next_mode == mode
            &&& next == rebuild
            &&& step == RebuildStep::<N>::Done { result: Err(PrepareBatchesError::Cancelled) }
        },
        RebuildEvent::Fetched { block: None } => {
            &&& next_mode == mode
            &&& next == rebuild
            &&& step == RebuildStep::<N>::Fetch { digest: rebuild.current }
        },
        RebuildEvent::Fetched { block: Some(block) } => {
            &&& next_mode == mode
            &&& if block.height <= 1 && !mode.knows(block.parent) {
                &&& next == rebuild
                &&& step == RebuildStep::<N>::Done { result: Err(PrepareBatchesError::Invalid) }
            } else {
                &&& next.current == block.parent
                &&& next.to_replay@ == rebuild.to_replay@.push(block)
                &&& if mode.knows(block.parent) {
                    &&& next.stage is Fork
                    &&& step == RebuildStep::<N>::Fork { parent: block.parent }
                } else {
                    &&& next.stage is Walk
                    &&& step == RebuildStep::<N>::Fetch { digest: block.parent }
                }
            }
        },
        RebuildEvent::Forked => {
            &&& next_mode == mode
            &&& next.current == rebuild.current
            &&& next.to_replay@ == rebuild.to_replay@
            &&& next.stage is Apply
            &&& step is Apply
        },
        RebuildEvent::Applied { merkleized } => {
            let block = rebuild.to_replay@.last();
            &&& next_mode.pending() == mode.pending().insert(
                block.digest,
                (block.round, merkleized),
            )
            &&& next.current == rebuild.current
            &&& next.to_replay@ == rebuild.to_replay@.drop_last()
            &&& next.stage is Fork
            &&& step == replay_step(next.to_replay@, next_mode)
        },
    }
}

/// The digest that is asked for to get the block at index `i` on the way back from
/// `target`: that of the target, and then that of the parent of the block before.
pub open spec fn asked<const N: usize, B>(
    target: Digest<N>,
    blocks: Seq<Block<N, B>>,
    i: int,
) -> Digest<N> {
    if i <= 0 {
        target
    } else {
        blocks[i - 1].parent
    }
}

impl<const N: usize, A: Application> Rebuild<N, A> {
    /// The digest that was asked for to get the block at index `i` of `to_replay`.
    pub open spec fn wanted(self, i: int) -> Digest<N> {
        asked(self.target, self.to_replay@, i)
    }

    /// No block was asked for whose state is known.
    pub open spec fn all_missing(self, mode: Mode<N, A>) -> bool {
        forall|i: int| 0 <= i < self.to_replay@.len() ==> !mode.knows(#[trigger] self.wanted(i))
    }

    /// The rebuild waits for the parent of the last block, whose state is missing as
    /// are those of the blocks before it; or it has a block to replay.
    pub open spec fn wf(self, mode: Mode<N, A>) -> bool {
        match self.stage {
            RebuildStage::Walk => {
                &&& self.current == self.wanted(self.to_replay@.len() as int)
                &&& !mode.knows(self.current)
                &&& self.all_missing(mode)
            },
            _ => self.to_replay@.len() > 0,
        }
    }

    /// Every block is the one that was asked for, and the replay starts from a parent
    /// whose state is known.
    pub open spec fn linked(self, mode: Mode<N, A>) -> bool {
        &&& forall|i: int|
            0 <= i < self.to_replay@.len() ==> (#[trigger] self.to_replay@[i]).digest
                == self.wanted(i)
        &&& !(self.stage is Walk) ==> mode.knows(self.wanted(self.to_replay@.len() as int))
    }

    /// Starts to rebuild the state of `target`.
    pub fn start(target: Digest<N>, mode: &Mode<N, A>) -> (started: (Self, RebuildStep<N>))
        requires
            mode is Running,
        ensures
            started.0.target == target,
            started.0.current == target,
            started.0.to_replay@ == Seq::<Block<N, A::Body>>::empty(),
            started.0.stage is Walk,
            started.0.linked(*mode),
            started.1 == (if mode.knows(target) {
                RebuildStep::<N>::Done { result: Ok(()) }
            } else {
                RebuildStep::<N>::Fetch { digest: target }
            }),
            !(started.1 is Done) ==> started.0.wf(*mode),
    {
        let rebuild = Rebuild {
            target,
            current: target,
            to_replay: Vec::new(),
            stage: RebuildStage::Walk,
        };
        if mode.is_known(&target) {
            (rebuild, RebuildStep::Done { result: Ok(()) })
        } else {
            (rebuild, RebuildStep::Fetch { digest: target })
        }
    }

    /// Goes on to the last block of `to_replay`, if there is one.
    fn replay_next(&mut self, mode: &Mode<N, A>) -> (step: RebuildStep<N>)
        requires
            mode is Running,
        ensures
            step == replay_step(old(self).to_replay@, *mode),
            final(self).target == old(self).target,
            final(self).current == old(self).current,
            final(self).to_replay@ == old(self).to_replay@,
            final(self).stage is Fork,
    {
        self.stage = RebuildStage::Fork;
        let len = self.to_replay.len();
        if len == 0 {
            return RebuildStep::Done { result: Ok(()) };
        }
        let parent = self.to_replay[len - 1].parent;
        match mode.fork_batches(&parent) {
            Ok(_) => RebuildStep::Fork { parent },
            Err(error) => RebuildStep::Done { result: Err(error) },
        }
    }

    /// Takes in what came of the last step, and says what to do next.
    ///
    /// Each replayed block's state is recorded at once, so that partial progress
    /// survives a cancellation.
    pub fn resume(&mut self, mode: &mut Mode<N, A>, event: RebuildEvent<N, A>) -> (step:
        RebuildStep<N>)
        requires
            *old(mode) is Running,
            old(self).wf(*old(mode)),
            event.answers(old(self).stage),
        ensures
            !(step is Done) ==> final(self).wf(*final(mode)),
            // No state that is at hand gets lost, and no block is fetched whose state
            // is at hand.
            (*final(mode)).keeps_states(*old(mode)),
            step matches RebuildStep::Fetch { digest } ==> !(*final(mode)).knows(digest),
            // Only the parent of a block above height one is asked for, which is not
            // genesis.
            step matches RebuildStep::Fetch { digest } ==> (digest == old(self).current || (
            event matches RebuildEvent::Fetched { block: Some(block) } && block.height > 1
                && digest == block.parent)),
            resumes(*old(self), *old(mode), event, *final(self), *final(mode), step),
            // The replay starts at the nearest block whose state is at hand.
            event is Fetched && step is Fork ==> final(self).all_missing(*final(mode)),
            // With a provider that returns the blocks asked for, the replay does not
            // fail, and a rebuild that ends well leaves the target's state known.
            old(self).linked(*old(mode)) && (event matches RebuildEvent::Fetched {
                block: Some(block),
            } ==> block.digest == old(self).current) ==> {
                &&& !(step is Done) ==> final(self).linked(*final(mode))
                &&& step matches RebuildStep::Done { result: Ok(_) } ==> (*final(mode)).knows(
                    old(self).target,
                )
                &&& step == (RebuildStep::<N>::Done { result: Err(PrepareBatchesError::Invalid) })
                    ==> old(self).stage is Walk
            },
    {
        match event {
            RebuildEvent::Cancelled => RebuildStep::Done {
                result: Err(PrepareBatchesError::Cancelled),
            },
            RebuildEvent::Fetched { block: None } => RebuildStep::Fetch { digest: self.current },
            RebuildEvent::Fetched { block: Some(block) } => {
                let parent = block.parent;
                // Genesis is not served, so that a walk cannot step past height one.
                if block.height <= 1 && !mode.is_known(&parent) {
                    return RebuildStep::Done { result: Err(PrepareBatchesError::Invalid) };
                }
                self.to_replay.push(block);
                self.current = parent;
                assert forall|i: int| 0 <= i < self.to_replay@.len() implies !mode.knows(
                    #[trigger] self.wanted(i),
                ) by {
                    assert(self.wanted(i) == old(self).wanted(i));
                }
                if mode.is_known(&parent) {
                    let ghost walked = *self;
                    let step = self.replay_next(mode);
                    assert forall|i: int| 0 <= i < self.to_replay@.len() implies !mode.knows(
                        #[trigger] self.wanted(i),
                    ) by {
                        assert(!mode.knows(walked.wanted(i)));
                    }
                    step
                } else {
                    RebuildStep::Fetch { digest: parent }
                }
            },
            RebuildEvent::Forked => {
                self.stage = RebuildStage::Apply;
                RebuildStep::Apply
            },
            RebuildEvent::Applied { merkleized } => {
                let block = self.to_replay.pop().unwrap();
                let (_, pending, _) = mode.running();
                pending.insert(block.digest, block.round, merkleized);
                self.replay_next(mode)
            },
        }
    }
}

/// The pending tips after all of `to_replay` has been replayed, the last one first:
/// `states` holds the state that came of each block.
pub open spec fn replayed<const N: usize, A: Application>(
    pending: Map<Digest<N>, (Round, A::Merkleized)>,
    to_replay: Seq<Block<N, A::Body>>,
    states: Seq<A::Merkleized>,
) -> Map<Digest<N>, (Round, A::Merkleized)>
    decreases to_replay.len(),
{
    if to_replay.len() == 0 {
        pending
    } else {
        let block = to_replay.last();
        replayed::<N, A>(
            pending.insert(block.digest, (block.round, states.last())),
            to_replay.drop_last(),
            states.drop_last(),
        )
    }
}

/// One of the blocks has this digest.
pub open spec fn names<const N: usize, B>(blocks: Seq<Block<N, B>>, digest: Digest<N>) -> bool {
    exists|i: int| 0 <= i < blocks.len() && (#[trigger] blocks[i]).digest == digest
}

/// A replay adds the states of the blocks that it replays, and nothing else.
pub proof fn law_replay_adds_its_blocks<const N: usize, A: Application>(
    pending: Map<Digest<N>, (Round, A::Merkleized)>,
    to_replay: Seq<Block<N, A::Body>>,
    states: Seq<A::Merkleized>,
)
    requires
        states.len() == to_replay.len(),
    ensures
        ({
            let after = replayed::<N, A>(pending, to_replay, states);
            &&& forall|digest: Digest<N>| #[trigger]
                after.contains_key(digest) <==> pending.contains_key(digest) || names(
                    to_replay,
                    digest,
                )
            &&& forall|digest: Digest<N>|
                pending.contains_key(digest) && !names(to_replay, digest) ==> #[trigger]
                after[digest] == pending[digest]
        }),
    decreases to_replay.len(),
{
    if to_replay.len() > 0 {
        let block = to_replay.last();
        let rest = to_replay.drop_last();
        let next = pending.insert(block.digest, (block.round, states.last()));
        law_replay_adds_its_blocks::<N, A>(next, rest, states.drop_last());
        assert forall|digest: Digest<N>|
            #![trigger names(rest, digest)]
            #![trigger names(to_replay, digest)]
            names(to_replay, digest) == (digest == block.digest || names(rest, digest)) by {
            if names(rest, digest) {
                let i = choose|i: int| 0 <= i < rest.len() && (#[trigger] rest[i]).digest == digest;
                assert(to_replay[i].digest == digest);
            }
            if names(to_replay, digest) && digest != block.digest {
                let i = choose|i: int|
                    0 <= i < to_replay.len() && (#[trigger] to_replay[i]).digest == digest;
                assert(rest[i].digest == digest);
            }
            assert(to_replay[to_replay.len() - 1].digest == block.digest);
        }
        let after = replayed::<N, A>(pending, to_replay, states);
        assert(after == replayed::<N, A>(next, rest, states.drop_last()));
        assert forall|digest: Digest<N>| #[trigger]
            after.contains_key(digest) <==> pending.contains_key(digest) || names(
                to_replay,
                digest,
            ) by {
            assert(next.contains_key(digest) == (digest == block.digest || pending.contains_key(
                digest,
            )));
        }
        assert forall|digest: Digest<N>|
            pending.contains_key(digest) && !names(to_replay, digest) implies #[trigger]
            after[digest] == pending[digest] by {
            assert(!names(rest, digest) && digest != block.digest);
            assert(next.contains_key(digest) && next[digest] == pending[digest]);
        }
    }
}

/// With a provider that returns the blocks asked for, a replay fills the gap: it ends
/// with the state of the target, and each block on the way finds the state of its
/// parent, which is the next block to the right, or was known before.
pub proof fn law_replay_fills_the_gap<const N: usize, A: Application>(
    rebuild: Rebuild<N, A>,
    mode: Mode<N, A>,
    states: Seq<A::Merkleized>,
)
    requires
        rebuild.linked(mode),
        !(rebuild.stage is Walk),
        rebuild.to_replay@.len() > 0,
        states.len() == rebuild.to_replay@.len(),
    ensures
        replayed::<N, A>(mode.pending(), rebuild.to_replay@, states).contains_key(rebuild.target),
        forall|i: int|
            0 <= i < rebuild.to_replay@.len() ==> mode.knows(
                (#[trigger] rebuild.to_replay@[i]).parent,
            ) || names(rebuild.to_replay@.skip(i + 1), rebuild.to_replay@[i].parent),
{
    let blocks = rebuild.to_replay@;
    law_replay_adds_its_blocks::<N, A>(mode.pending(), blocks, states);
    assert(blocks[0].digest == rebuild.wanted(0));
    assert(names(blocks, rebuild.target));
    assert forall|i: int| 0 <= i < blocks.len() implies mode.knows((#[trigger] blocks[i]).parent)
        || names(blocks.skip(i + 1), blocks[i].parent) by {
        assert(rebuild.wanted(i + 1) == blocks[i].parent);
        if i + 1 < blocks.len() {
            assert(blocks[i + 1].digest == rebuild.wanted(i + 1));
            assert(blocks.skip(i + 1)[0] == blocks[i + 1]);
        }
    }
}

/// To replay one more block after the others is to record its state.
proof fn lemma_replayed_first<const N: usize, A: Application>(
    pending: Map<Digest<N>, (Round, A::Merkleized)>,
    block: Block<N, A::Body>,
    merkleized: A::Merkleized,
    blocks: Seq<Block<N, A::Body>>,
    states: Seq<A::Merkleized>,
)
    requires
        blocks.len() == states.len(),
    ensures
        replayed::<N, A>(pending, seq![block] + blocks, seq![merkleized] + states) == replayed::<
            N,
            A,
        >(pending, blocks, states).insert(block.digest, (block.round, merkleized)),
    decreases blocks.len(),
{
    let all = seq![block] + blocks;
    let all_states = seq![merkleized] + states;
    if blocks.len() == 0 {
        assert(all =~= seq![block]);
        assert(all_states =~= seq![merkleized]);
        assert(all.drop_last() =~= Seq::empty());
        reveal_with_fuel(replayed, 2);
    } else {
        let next = pending.insert(blocks.last().digest, (blocks.last().round, states.last()));
        assert(all.drop_last() =~= seq![block] + blocks.drop_last());
        assert(all_states.drop_last() =~= seq![merkleized] + states.drop_last());
        assert(all.last() == blocks.last());
        assert(all_states.last() == states.last());
        lemma_replayed_first::<N, A>(
            next,
            block,
            merkleized,
            blocks.drop_last(),
            states.drop_last(),
        );
    }
}

/// A run of a rebuild goes on from its state at index `i`, which waits for the event that
/// comes.
pub open spec fn advances<const N: usize, A: Application>(
    states: Seq<(Rebuild<N, A>, Mode<N, A>)>,
    steps: Seq<RebuildStep<N>>,
    events: Seq<RebuildEvent<N, A>>,
    i: int,
) -> bool {
    &&& !(steps[i] is Done)
    &&& states[i].0.wf(states[i].1)
    &&& events[i].answers(states[i].0.stage)
    &&& resumes(
        states[i].0,
        states[i].1,
        events[i],
        states[i + 1].0,
        states[i + 1].1,
        steps[i + 1],
    )
}

/// A run of a rebuild of `target`: its states, each with the step that it waits for, and
/// the events that take it from one to the next.
pub open spec fn is_run<const N: usize, A: Application>(
    target: Digest<N>,
    states: Seq<(Rebuild<N, A>, Mode<N, A>)>,
    steps: Seq<RebuildStep<N>>,
    events: Seq<RebuildEvent<N, A>>,
) -> bool {
    &&& states.len() == events.len() + 1
    &&& steps.len() == states.len()
    &&& states[0].0.target == target
    &&& states[0].0.to_replay@.len() == 0
    &&& states[0].0.stage is Walk
    &&& states[0].1 is Running
    &&& forall|i: int| 0 <= i < events.len() ==> #[trigger] advances(states, steps, events, i)
}

/// The provider returns the blocks that it is asked for.
pub open spec fn is_honest<const N: usize, A: Application>(
    states: Seq<(Rebuild<N, A>, Mode<N, A>)>,
    events: Seq<RebuildEvent<N, A>>,
) -> bool {
    forall|i: int|
        0 <= i < events.len() ==> ((#[trigger] events[i]) matches RebuildEvent::Fetched {
            block: Some(block),
        } ==> block.digest == states[i].0.current)
}

/// The blocks that the provider returned, in order.
pub open spec fn fetched<const N: usize, A: Application>(events: Seq<RebuildEvent<N, A>>) -> Seq<
    Block<N, A::Body>,
>
    decreases events.len(),
{
    if events.len() == 0 {
        Seq::empty()
    } else {
        let before = fetched(events.drop_last());
        match events.last() {
            RebuildEvent::Fetched { block: Some(block) } => before.push(block),
            _ => before,
        }
    }
}

/// The states that came of the blocks that were applied, the last one first.
pub open spec fn applied<const N: usize, A: Application>(events: Seq<RebuildEvent<N, A>>) -> Seq<
    A::Merkleized,
>
    decreases events.len(),
{
    if events.len() == 0 {
        Seq::empty()
    } else {
        let before = applied(events.drop_last());
        match events.last() {
            RebuildEvent::Applied { merkleized } => seq![merkleized] + before,
            _ => before,
        }
    }
}

/// Every block is the one that was asked for on the way back from `target`.
pub open spec fn is_path<const N: usize, B>(target: Digest<N>, blocks: Seq<Block<N, B>>) -> bool {
    forall|i: int|
        0 <= i < blocks.len() ==> (#[trigger] blocks[i]).digest == asked(target, blocks, i)
}

/// The way back from `target` leads through these blocks to the nearest block whose state
/// is known.
pub open spec fn is_gap<const N: usize, A: Application>(
    target: Digest<N>,
    blocks: Seq<Block<N, A::Body>>,
    mode: Mode<N, A>,
) -> bool {
    &&& forall|i: int|
        0 <= i < blocks.len() ==> !mode.knows(#[trigger] asked(target, blocks, i))
    &&& mode.knows(asked(target, blocks, blocks.len() as int))
}

/// How far a rebuild of `target` has come that began in `start`, when these blocks have
/// been fetched and these states have come of the blocks that were applied.
///
/// Nothing but the pending tips changes. They are those of the start, with the blocks
/// replayed that have been applied so far. What is left to replay are the first of the
/// blocks, which lead back to the nearest known block once the walk is over.
pub open spec fn has_progressed<const N: usize, A: Application>(
    target: Digest<N>,
    start: Mode<N, A>,
    blocks: Seq<Block<N, A::Body>>,
    done: Seq<A::Merkleized>,
    rebuild: Rebuild<N, A>,
    mode: Mode<N, A>,
) -> bool {
    let left = rebuild.to_replay@.len();
    &&& mode is Running
    &&& mode->databases == start->databases
    &&& mode->finalized_digest == start->finalized_digest
    &&& rebuild.target == target
    &&& left <= blocks.len()
    &&& rebuild.to_replay@ == blocks.take(left as int)
    &&& done.len() == blocks.len() - left
    &&& mode.pending() == replayed::<N, A>(start.pending(), blocks.skip(left as int), done)
    &&& rebuild.stage is Walk ==> left == blocks.len()
    &&& !(rebuild.stage is Walk) ==> blocks.len() > 0 && is_gap(target, blocks, start)
}

/// A block that is fetched takes the rebuild further.
proof fn lemma_fetch_progress<const N: usize, A: Application>(
    target: Digest<N>,
    start: Mode<N, A>,
    blocks: Seq<Block<N, A::Body>>,
    block: Block<N, A::Body>,
    before: (Rebuild<N, A>, Mode<N, A>),
    after: (Rebuild<N, A>, Mode<N, A>),
    step: RebuildStep<N>,
)
    requires
        has_progressed(target, start, blocks, Seq::empty(), before.0, before.1),
        before.0.wf(before.1),
        before.0.stage is Walk,
        resumes(
            before.0,
            before.1,
            RebuildEvent::Fetched { block: Some(block) },
            after.0,
            after.1,
            step,
        ),
        step != (RebuildStep::<N>::Done { result: Err(PrepareBatchesError::Invalid) }),
    ensures
        has_progressed(target, start, blocks.push(block), Seq::empty(), after.0, after.1),
        is_path(target, blocks) && block.digest == before.0.current ==> is_path(
            target,
            blocks.push(block),
        ),
{
    let all = blocks.push(block);
    let len = blocks.len() as int;
    assert(blocks.take(len) =~= blocks);
    assert(all.take(len + 1) =~= all);
    assert(blocks.skip(len) =~= Seq::empty());
    assert(all.skip(len + 1) =~= Seq::empty());
    assert forall|i: int| 0 <= i <= len implies #[trigger] asked(target, all, i) == asked(
        target,
        blocks,
        i,
    ) by {}
    assert(forall|digest: Digest<N>| #[trigger] before.1.knows(digest) == start.knows(digest));
    assert forall|i: int| 0 <= i < all.len() implies !start.knows(
        #[trigger] asked(target, all, i),
    ) by {
        if i < len {
            assert(!before.1.knows(before.0.wanted(i)));
        }
    }
    if is_path(target, blocks) && block.digest == before.0.current {
        assert forall|i: int| 0 <= i < all.len() implies (#[trigger] all[i]).digest == asked(
            target,
            all,
            i,
        ) by {
            if i < len {
                assert(blocks[i].digest == asked(target, blocks, i));
            }
        }
    }
}

/// A block that is applied takes the rebuild further.
proof fn lemma_apply_progress<const N: usize, A: Application>(
    target: Digest<N>,
    start: Mode<N, A>,
    blocks: Seq<Block<N, A::Body>>,
    done: Seq<A::Merkleized>,
    merkleized: A::Merkleized,
    before: (Rebuild<N, A>, Mode<N, A>),
    after: (Rebuild<N, A>, Mode<N, A>),
    step: RebuildStep<N>,
)
    requires
        has_progressed(target, start, blocks, done, before.0, before.1),
        before.0.wf(before.1),
        before.0.stage is Apply,
        resumes(
            before.0,
            before.1,
            RebuildEvent::Applied { merkleized },
            after.0,
            after.1,
            step,
        ),
    ensures
        has_progressed(target, start, blocks, seq![merkleized] + done, after.0, after.1),
{
    let block = before.0.to_replay@.last();
    let left = after.0.to_replay@.len() as int;
    let rest = blocks.skip(left + 1);
    assert(after.0.to_replay@ =~= blocks.take(left));
    assert(blocks.skip(left) =~= seq![block] + rest);
    lemma_replayed_first::<N, A>(start.pending(), block, merkleized, rest, done);
}

/// At every moment of a run that has not failed, the rebuild has come as far as the events
/// took it: partial progress survives whatever ends the run. With a provider that returns
/// the blocks it is asked for, the blocks lead back from the target.
pub proof fn law_rebuild_progress<const N: usize, A: Application>(
    target: Digest<N>,
    states: Seq<(Rebuild<N, A>, Mode<N, A>)>,
    steps: Seq<RebuildStep<N>>,
    events: Seq<RebuildEvent<N, A>>,
)
    requires
        is_run(target, states, steps, events),
        steps.last() != (RebuildStep::<N>::Done { result: Err(PrepareBatchesError::Invalid) }),
    ensures
        has_progressed(
            target,
            states[0].1,
            fetched(events),
            applied(events),
            states.last().0,
            states.last().1,
        ),
        is_honest(states, events) ==> is_path(target, fetched(events)),
    decreases events.len(),
{
    let start = states[0].1;
    if events.len() == 0 {
        assert(fetched(events).take(0) =~= states[0].0.to_replay@);
    } else {
        let k = events.len() - 1;
        let earlier_states = states.drop_last();
        let earlier_steps = steps.drop_last();
        let earlier_events = events.drop_last();
        assert forall|i: int| 0 <= i < earlier_events.len() implies #[trigger] advances(
            earlier_states,
            earlier_steps,
            earlier_events,
            i,
        ) by {
            assert(advances(states, steps, events, i));
        }
        if is_honest(states, events) {
            assert forall|i: int| 0 <= i < earlier_events.len() implies ((
            #[trigger] earlier_events[i]) matches RebuildEvent::Fetched { block: Some(block) }
                ==> block.digest == earlier_states[i].0.current) by {
                assert(events[i] == earlier_events[i]);
            }
            assert(is_honest(earlier_states, earlier_events));
        }
        assert(advances(states, steps, events, k));
        law_rebuild_progress(target, earlier_states, earlier_steps, earlier_events);
        assert(earlier_states.last() == states[k] && states.last() == states[k + 1]);
        assert(earlier_events.len() == k && events.last() == events[k]);
        let blocks = fetched(earlier_events);
        let done = applied(earlier_events);
        match events[k] {
            RebuildEvent::Fetched { block: Some(block) } => {
                assert(done =~= Seq::empty());
                lemma_fetch_progress(
                    target,
                    start,
                    blocks,
                    block,
                    states[k],
                    states[k + 1],
                    steps[k + 1],
                );
            },
            RebuildEvent::Applied { merkleized } => {
                lemma_apply_progress(
                    target,
                    start,
                    blocks,
                    done,
                    merkleized,
                    states[k],
                    states[k + 1],
                    steps[k + 1],
                );
            },
            _ => {},
        }
    }
}

/// A rebuild that ends well has found the nearest known ancestor of the target and
/// replayed every block from there on: the pending tips are those of the start with all
/// the fetched blocks replayed. With a provider that returns the blocks it is asked for,
/// these are the missing ancestors of the target, and the state of the target is known.
pub proof fn law_rebuild_run<const N: usize, A: Application>(
    target: Digest<N>,
    states: Seq<(Rebuild<N, A>, Mode<N, A>)>,
    steps: Seq<RebuildStep<N>>,
    events: Seq<RebuildEvent<N, A>>,
)
    requires
        is_run(target, states, steps, events),
        events.len() > 0,
        steps.last() == (RebuildStep::<N>::Done { result: Ok(()) }),
    ensures
        ({
            let mode = states.last().1;
            let blocks = fetched(events);
            &&& mode.pending() == replayed::<N, A>(
                states[0].1.pending(),
                blocks,
                applied(events),
            )
            &&& applied(events).len() == blocks.len()
            &&& blocks.len() > 0
            &&& is_gap(target, blocks, states[0].1)
            &&& is_honest(states, events) ==> is_path(target, blocks) && mode.knows(target)
        }),
{
    let blocks = fetched(events);
    law_rebuild_progress(target, states, steps, events);
    let k = events.len() - 1;
    assert(advances(states, steps, events, k));
    assert(states.last() == states[k + 1]);
    assert(steps.last() == steps[k + 1]);
    assert(states.last().0.to_replay@.len() == 0);
    assert(blocks.skip(0) =~= blocks);
    if is_honest(states, events) {
        law_replay_adds_its_blocks::<N, A>(states[0].1.pending(), blocks, applied(events));
        assert(blocks[0].digest == asked(target, blocks, 0));
        assert(names(blocks, target));
    }
}

/// With a provider that returns the blocks it is asked for, a replay never fails: only a
/// walk that cannot be anchored ends a rebuild as invalid.
pub proof fn law_honest_replay_never_fails<const N: usize, A: Application>(
    target: Digest<N>,
    states: Seq<(Rebuild<N, A>, Mode<N, A>)>,
    steps: Seq<RebuildStep<N>>,
    events: Seq<RebuildEvent<N, A>>,
)
    requires
        is_run(target, states, steps, events),
        is_honest(states, events),
        events.len() > 0,
        steps.last() == (RebuildStep::<N>::Done { result: Err(PrepareBatchesError::Invalid) }),
    ensures
        events.last() matches RebuildEvent::Fetched { block: Some(block) } && block.height <= 1
            && !states[0].1.knows(block.parent),
{
    let k = events.len() - 1;
    let earlier_states = states.drop_last();
    let earlier_steps = steps.drop_last();
    let earlier_events = events.drop_last();
    assert forall|i: int| 0 <= i < earlier_events.len() implies #[trigger] advances(
        earlier_states,
        earlier_steps,
        earlier_events,
        i,
    ) by {
        assert(advances(states, steps, events, i));
    }
    assert forall|i: int| 0 <= i < earlier_events.len() implies ((
    #[trigger] earlier_events[i]) matches RebuildEvent::Fetched { block: Some(block) }
        ==> block.digest == earlier_states[i].0.current) by {
        assert(events[i] == earlier_events[i]);
    }
    assert(is_honest(earlier_states, earlier_events));
    assert(advances(states, steps, events, k));
    law_rebuild_progress(target, earlier_states, earlier_steps, earlier_events);
    let (before, before_mode) = states[k];
    let (after, after_mode) = states[k + 1];
    assert(earlier_states.last() == states[k]);
    assert(steps.last() == steps[k + 1] && events.last() == events[k]);
    let blocks = fetched(earlier_events);
    if let RebuildEvent::Applied { .. } = events[k] {
        let left = after.to_replay@.len() as int;
        if left > 0 {
            // The parent of the next block is the block that has just been applied.
            assert(after.to_replay@.last() == blocks[left - 1]);
            assert(blocks[left].digest == asked(target, blocks, left));
            assert(after_mode.pending().contains_key(blocks[left].digest));
        }
    } else {
        assert(before.stage is Walk);
        assert(blocks.skip(blocks.len() as int) =~= Seq::empty());
    }
}

} // verus!
