//! Proposal and verification requests.
//!
//! Before a block is proposed or verified, batches are forked from the state of
//! its parent, which is rebuilt first if it is missing. After execution, the
//! resulting state is recorded as a new pending tip. A [`Job`] is such a request
//! in progress: it says what to do next, and is told what came of it.

use crate::stateful::mode::{Mode, PrepareBatchesError};
use crate::stateful::rebuild::{Rebuild, RebuildEvent, RebuildStage, RebuildStep};
use crate::stateful::{Application, Block};
use crate::types::{Digest, Round};
use vstd::prelude::*;

verus! {

/// What a request asks for.
#[derive(Clone, Copy, Debug)]
pub enum Purpose<const N: usize> {
    /// Build a block on top of the parent.
    Propose,
    /// Verify the block named `block`, a child of the parent.
    Verify { block: Digest<N> },
}

/// How far a request has come.
pub enum Stage<const N: usize, A: Application> {
    /// The state of the parent is being rebuilt.
    Rebuild { rebuild: Rebuild<N, A> },
    /// Batches are being forked from the state of the parent.
    Fork,
    /// The application is executing on the batches.
    Execute,
}

/// A proposal or verification request in progress.
pub struct Job<const N: usize, A: Application> {
    pub purpose: Purpose<N>,
    pub parent: Digest<N>,
    /// The round of the block that is proposed or verified.
    pub round: Round,
    pub stage: Stage<N, A>,
}

/// What a request needs next.
#[derive(Clone, Copy, Debug)]
pub enum Action<const N: usize> {
    /// Fetch this block.
    Fetch { digest: Digest<N> },
    /// Fork batches from the state of `parent`, which is known.
    Fork { parent: Digest<N> },
    /// Apply the last block to replay to the forked batches.
    Apply,
    /// Have the application propose or verify on the forked batches.
    Execute,
}

/// What becomes of a request.
pub enum Step<const N: usize, A: Application> {
    /// The request goes on once the action has been taken.
    Continue { job: Job<N, A>, action: Action<N> },
    /// Answer the request: with the built block or a positive verdict, or without.
    Reply { accept: bool },
    /// The caller is gone: there is nobody to answer.
    Abandon,
}

/// What came of the last action.
pub enum Event<const N: usize, A: Application> {
    /// The caller no longer waits for the response.
    Cancelled,
    /// The provider returned the block, or ended the subscription without it.
    Fetched { block: Option<Block<N, A::Body>> },
    /// The batches have been forked.
    Forked,
    /// The block has been applied.
    Applied { merkleized: A::Merkleized },
    /// The application built a block with this digest and state, or failed to.
    Proposed { built: Option<(Digest<N>, A::Merkleized)> },
    /// The application found the block valid, with this state, or invalid.
    Verified { valid: Option<A::Merkleized> },
}

impl<const N: usize, A: Application> Event<N, A> {
    /// The event answers the action of this job; a cancellation answers every action.
    pub open spec fn answers(self, job: Job<N, A>) -> bool {
        match self {
            Event::Cancelled => true,
            Event::Fetched { .. } => job.stage matches Stage::Rebuild { rebuild }
                && rebuild.stage is Walk,
            Event::Forked => match job.stage {
                Stage::Rebuild { rebuild } => rebuild.stage is Fork,
                Stage::Fork => true,
                Stage::Execute => false,
            },
            Event::Applied { .. } => job.stage matches Stage::Rebuild { rebuild }
                && rebuild.stage is Apply,
            Event::Proposed { .. } => job.stage is Execute && job.purpose is Propose,
            Event::Verified { .. } => job.stage is Execute && job.purpose is Verify,
        }
    }
}

impl<const N: usize, A: Application> Job<N, A> {
    /// The job waits for an action that makes sense in `mode`.
    pub open spec fn wf(self, mode: Mode<N, A>) -> bool {
        match self.stage {
            Stage::Rebuild { rebuild } => rebuild.wf(mode) && rebuild.target == self.parent,
            Stage::Fork => mode.knows(self.parent),
            Stage::Execute => true,
        }
    }

    /// What the job was made for.
    pub open spec fn request(self) -> (Purpose<N>, Digest<N>, Round) {
        (self.purpose, self.parent, self.round)
    }

    /// A rebuild of the job holds the blocks that were asked for.
    pub open spec fn linked(self, mode: Mode<N, A>) -> bool {
        self.stage matches Stage::Rebuild { rebuild } ==> rebuild.linked(mode)
    }
}

/// The step that forks batches from the state of the parent, which is known.
pub open spec fn forks_parent<const N: usize, A: Application>(
    step: Step<N, A>,
    request: (Purpose<N>, Digest<N>, Round),
) -> bool {
    step matches Step::Continue { job, action } && job.request() == request && job.stage is Fork
        && action == Action::<N>::Fork { parent: request.1 }
}

/// The step that goes on with a rebuild: with this action, at this stage, with
/// these blocks to replay.
pub open spec fn continues_rebuild<const N: usize, A: Application>(
    step: Step<N, A>,
    request: (Purpose<N>, Digest<N>, Round),
    action: Action<N>,
    stage: RebuildStage,
    to_replay: Seq<Block<N, A::Body>>,
) -> bool {
    step matches Step::Continue { job, action: next } && job.request() == request && next == action
        && (job.stage matches Stage::Rebuild { rebuild } && rebuild.stage == stage
        && rebuild.to_replay@ == to_replay)
}

/// What follows when the provider has answered: an answer without the block is
/// tried again; a block that cannot have a known ancestor ends the request; any
/// other block is kept for the replay, which starts when its parent is known.
pub open spec fn after_fetch<const N: usize, A: Application>(
    mode: Mode<N, A>,
    job: Job<N, A>,
    block: Option<Block<N, A::Body>>,
    step: Step<N, A>,
) -> bool {
    let rebuild = job.stage->rebuild;
    match block {
        None => continues_rebuild(
            step,
            job.request(),
            Action::Fetch { digest: rebuild.current },
            RebuildStage::Walk,
            rebuild.to_replay@,
        ),
        Some(block) => if block.height <= 1 && !mode.knows(block.parent) {
            step == Step::<N, A>::Reply { accept: false }
        } else if mode.knows(block.parent) {
            continues_rebuild(
                step,
                job.request(),
                Action::Fork { parent: block.parent },
                RebuildStage::Fork,
                rebuild.to_replay@.push(block),
            )
        } else {
            continues_rebuild(
                step,
                job.request(),
                Action::Fetch { digest: block.parent },
                RebuildStage::Walk,
                rebuild.to_replay@.push(block),
            )
        },
    }
}

/// What follows when a block has been replayed and recorded, with `to_replay` left:
/// the next of them is replayed, and after the last one the parent is forked. A
/// request is turned down if the state to fork from is not known.
pub open spec fn after_apply<const N: usize, A: Application>(
    mode: Mode<N, A>,
    job: Job<N, A>,
    to_replay: Seq<Block<N, A::Body>>,
    step: Step<N, A>,
) -> bool {
    if to_replay.len() == 0 {
        if mode.knows(job.parent) {
            forks_parent(step, job.request())
        } else {
            step == Step::<N, A>::Reply { accept: false }
        }
    } else if mode.knows(to_replay.last().parent) {
        continues_rebuild(
            step,
            job.request(),
            Action::Fork { parent: to_replay.last().parent },
            RebuildStage::Fork,
            to_replay,
        )
    } else {
        step == Step::<N, A>::Reply { accept: false }
    }
}

/// The request goes on, and its rebuild, if it has one, holds the blocks that were
/// asked for.
pub open spec fn goes_on_linked<const N: usize, A: Application>(
    mode: Mode<N, A>,
    step: Step<N, A>,
) -> bool {
    step matches Step::Continue { job, .. } && job.linked(mode)
}

/// The first step of a request: the state of the parent is forked if it is known,
/// and rebuilt otherwise.
pub open spec fn prepares<const N: usize, A: Application>(
    mode: Mode<N, A>,
    request: (Purpose<N>, Digest<N>, Round),
    step: Step<N, A>,
) -> bool {
    &&& step matches Step::Continue { job, .. } && job.wf(mode)
    &&& goes_on_linked(mode, step)
    &&& if mode.knows(request.1) {
        forks_parent(step, request)
    } else {
        continues_rebuild(
            step,
            request,
            Action::Fetch { digest: request.1 },
            RebuildStage::Walk,
            Seq::empty(),
        )
    }
}

/// Turns the step of a rebuild into the step of the request that it serves.
fn after_rebuild_step<const N: usize, A: Application>(
    mode: &Mode<N, A>,
    purpose: Purpose<N>,
    parent: Digest<N>,
    round: Round,
    rebuild: Rebuild<N, A>,
    step: RebuildStep<N>,
) -> (next: Step<N, A>)
    requires
        mode is Running,
    ensures
        match step {
            RebuildStep::Fetch { digest } => next == (Step::Continue {
                job: Job { purpose, parent, round, stage: Stage::Rebuild { rebuild } },
                action: Action::Fetch { digest },
            }),
            RebuildStep::Fork { parent: from } => next == (Step::Continue {
                job: Job { purpose, parent, round, stage: Stage::Rebuild { rebuild } },
                action: Action::Fork { parent: from },
            }),
            RebuildStep::Apply => next == (Step::Continue {
                job: Job { purpose, parent, round, stage: Stage::Rebuild { rebuild } },
                action: Action::Apply,
            }),
            RebuildStep::Done { result: Ok(_) } => if mode.knows(parent) {
                next == (Step::Continue {
                    job: Job { purpose, parent, round, stage: Stage::<N, A>::Fork },
                    action: Action::Fork { parent },
                })
            } else {
                next == Step::<N, A>::Reply { accept: false }
            },
            RebuildStep::Done { result: Err(PrepareBatchesError::Invalid) } => next == Step::<
                N,
                A,
            >::Reply { accept: false },
            RebuildStep::Done { result: Err(PrepareBatchesError::Cancelled) } => next is Abandon,
        },
{
    let action = match step {
        RebuildStep::Fetch { digest } => Action::Fetch { digest },
        RebuildStep::Fork { parent } => Action::Fork { parent },
        RebuildStep::Apply => Action::Apply,
        RebuildStep::Done { result } => {
            return match result {
                Ok(_) => match mode.fork_batches(&parent) {
                    Ok(_) => Step::Continue {
                        job: Job { purpose, parent, round, stage: Stage::Fork },
                        action: Action::Fork { parent },
                    },
                    Err(_) => Step::Reply { accept: false },
                },
                Err(PrepareBatchesError::Invalid) => Step::Reply { accept: false },
                Err(PrepareBatchesError::Cancelled) => Step::Abandon,
            };
        },
    };
    Step::Continue {
        job: Job { purpose, parent, round, stage: Stage::Rebuild { rebuild } },
        action,
    }
}

impl<const N: usize, A: Application> Mode<N, A> {
    /// Starts to prepare batches on top of `parent`: its state is forked if it is
    /// known, and rebuilt otherwise.
    pub fn prepare_batches(
        &self,
        purpose: Purpose<N>,
        parent: Digest<N>,
        round: Round,
    ) -> (step: Step<N, A>)
        requires
            self is Running,
        ensures
            prepares(*self, (purpose, parent, round), step),
    {
        if self.is_known(&parent) {
            return Step::Continue {
                job: Job { purpose, parent, round, stage: Stage::Fork },
                action: Action::Fork { parent },
            };
        }
        let (rebuild, step) = Rebuild::start(parent, self);
        after_rebuild_step(self, purpose, parent, round, rebuild, step)
    }

    /// Takes in what came of the last action of `job`, and says what to do next.
    pub fn resume(&mut self, job: Job<N, A>, event: Event<N, A>) -> (step: Step<N, A>)
        requires
            *old(self) is Running,
            job.wf(*old(self)),
            event.answers(job),
        ensures
            *final(self) is Running,
            (*final(self))->databases == (*old(self))->databases,
            (*final(self))->finalized_digest == (*old(self))->finalized_digest,
            step matches Step::Continue { job: next, .. } ==> next.wf(*final(self))
                && next.request() == job.request(),
            match event {
                Event::Cancelled => *final(self) == *old(self) && step is Abandon,
                Event::Fetched { block } => {
                    &&& *final(self) == *old(self)
                    &&& after_fetch(*old(self), job, block, step)
                },
                Event::Forked => {
                    &&& *final(self) == *old(self)
                    &&& match job.stage {
                        Stage::Rebuild { rebuild } => continues_rebuild(
                            step,
                            job.request(),
                            Action::Apply,
                            RebuildStage::Apply,
                            rebuild.to_replay@,
                        ),
                        _ => step matches Step::Continue { job: next, action } && next.stage
                            is Execute && action is Execute,
                    }
                },
                Event::Applied { merkleized } => {
                    let to_replay = job.stage->rebuild.to_replay@;
                    let block = to_replay.last();
                    &&& (*final(self)).pending() == (*old(self)).pending().insert(
                        block.digest,
                        (block.round, merkleized),
                    )
                    &&& after_apply(*final(self), job, to_replay.drop_last(), step)
                },
                Event::Proposed { built: Some((digest, merkleized)) } => {
                    &&& (*final(self)).pending() == (*old(self)).pending().insert(
                        digest,
                        (job.round, merkleized),
                    )
                    &&& step == Step::<N, A>::Reply { accept: true }
                },
                Event::Verified { valid: Some(merkleized) } => {
                    &&& (*final(self)).pending() == (*old(self)).pending().insert(
                        job.purpose->block,
                        (job.round, merkleized),
                    )
                    &&& step == Step::<N, A>::Reply { accept: true }
                },
                _ => *final(self) == *old(self) && step == Step::<N, A>::Reply { accept: false },
            },
            // No state that is at hand gets lost, and an accepted block can be built on.
            (*final(self)).keeps_states(*old(self)),
            event matches Event::Proposed { built: Some(built) } ==> (*final(self)).knows(built.0),
            event matches Event::Verified { valid: Some(_) } ==> (*final(self)).knows(
                job.purpose->block,
            ),
            // With a provider that returns the blocks asked for, a rebuild turns a
            // request down only where it runs into the ancestry boundary.
            job.linked(*old(self)) && (event matches Event::Fetched { block: Some(block) }
                ==> block.digest == job.stage->rebuild.current && (block.height > 1 || (
            *old(self)).knows(block.parent))) && (
            event is Fetched || event is Forked || event is Applied) ==> goes_on_linked(
                *final(self),
                step,
            ),
    {
        match event {
            Event::Cancelled => Step::Abandon,
            Event::Fetched { block } => self.resume_rebuild(job, RebuildEvent::Fetched { block }),
            Event::Applied { merkleized } => self.resume_rebuild(
                job,
                RebuildEvent::Applied { merkleized },
            ),
            Event::Forked => match job.stage {
                Stage::Rebuild { .. } => self.resume_rebuild(job, RebuildEvent::Forked),
                _ => Step::Continue {
                    job: Job {
                        purpose: job.purpose,
                        parent: job.parent,
                        round: job.round,
                        stage: Stage::Execute,
                    },
                    action: Action::Execute,
                },
            },
            Event::Proposed { built } => match built {
                Some((digest, merkleized)) => {
                    let (_, pending, _) = self.running();
                    pending.insert(digest, job.round, merkleized);
                    Step::Reply { accept: true }
                },
                None => Step::Reply { accept: false },
            },
            Event::Verified { valid } => match (valid, job.purpose) {
                (Some(merkleized), Purpose::Verify { block }) => {
                    let (_, pending, _) = self.running();
                    pending.insert(block, job.round, merkleized);
                    Step::Reply { accept: true }
                },
                _ => Step::Reply { accept: false },
            },
        }
    }

    /// Goes on with the rebuild of `job`.
    fn resume_rebuild(&mut self, job: Job<N, A>, event: RebuildEvent<N, A>) -> (step: Step<N, A>)
        requires
            *old(self) is Running,
            job.stage is Rebuild,
            job.wf(*old(self)),
            event.answers(job.stage->rebuild.stage),
            !(event is Cancelled),
        ensures
            *final(self) is Running,
            (*final(self))->databases == (*old(self))->databases,
            (*final(self))->finalized_digest == (*old(self))->finalized_digest,
            step matches Step::Continue { job: next, .. } ==> next.wf(*final(self))
                && next.request() == job.request(),
            match event {
                RebuildEvent::Fetched { block } => {
                    &&& *final(self) == *old(self)
                    &&& after_fetch(*old(self), job, block, step)
                },
                RebuildEvent::Applied { merkleized } => {
                    let to_replay = job.stage->rebuild.to_replay@;
                    let block = to_replay.last();
                    &&& (*final(self)).pending() == (*old(self)).pending().insert(
                        block.digest,
                        (block.round, merkleized),
                    )
                    &&& after_apply(*final(self), job, to_replay.drop_last(), step)
                },
                _ => {
                    &&& *final(self) == *old(self)
                    &&& continues_rebuild(
                        step,
                        job.request(),
                        Action::Apply,
                        RebuildStage::Apply,
                        job.stage->rebuild.to_replay@,
                    )
                },
            },
            job.linked(*old(self)) && (event matches RebuildEvent::Fetched { block: Some(block) }
                ==> block.digest == job.stage->rebuild.current && (block.height > 1 || (
            *old(self)).knows(block.parent)))
                ==> goes_on_linked(*final(self), step),
            (*final(self)).keeps_states(*old(self)),
    {
        match job.stage {
            Stage::Rebuild { rebuild } => {
                let mut rebuild = rebuild;
                let step = rebuild.resume(self, event);
                after_rebuild_step(self, job.purpose, job.parent, job.round, rebuild, step)
            },
            _ => vstd::pervasive::unreached(),
        }
    }
}

} // verus!
