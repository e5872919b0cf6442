//! Laws of proposal and verification requests.

use crate::stateful::job::{Action, Event, Job, Purpose, Stage, Step};
use crate::stateful::mode::{Fork, Mode, PrepareBatchesError};
use crate::stateful::pending::Pending;
use crate::stateful::{Application, Block};
use crate::types::{Digest, Round};
use vstd::prelude::*;

verus! {

/// Batches are forked from the pending state of the parent if it is pending, from the
/// committed state if it is not but is the finalized block, and not at all otherwise.
pub proof fn law_batches_are_forked_from_the_parent<const N: usize, A: Application>(
    mode: Mode<N, A>,
    parent: Digest<N>,
    fork: Result<Fork<'_, A>, PrepareBatchesError>,
    state: Option<&A::Merkleized>,
    known: bool,
)
    requires
        mode is Running,
        call_ensures(Mode::<N, A>::fork_batches, (&mode, &parent), fork),
        call_ensures(Mode::<N, A>::is_known, (&mode, &parent), known),
        call_ensures(
            Pending::<N, A::Merkleized>::get_merkleized,
            (&mode->pending, &parent),
            state,
        ),
    ensures
        call_requires(Mode::<N, A>::fork_batches, (&mode, &parent)),
        call_requires(Mode::<N, A>::is_known, (&mode, &parent)),
        state is Some ==> fork == Ok::<Fork<A>, PrepareBatchesError>(Fork::Pending(state->0)),
        state is None && parent == mode->finalized_digest ==> fork == Ok::<
            Fork<A>,
            PrepareBatchesError,
        >(Fork::Committed(&mode->databases)),
        state is None && parent != mode->finalized_digest ==> fork == Err::<
            Fork<A>,
            PrepareBatchesError,
        >(PrepareBatchesError::Invalid),
        known <==> fork is Ok,
{
}

/// A request on a parent whose state is known forks that state, and no other: the state
/// that comes of the digest in the action is the pending state of the parent if it is
/// pending, and the committed state only if it is not and is the finalized block. On any
/// other parent, the parent is fetched first.
pub proof fn law_request_starts_from_its_parent<const N: usize, A: Application>(
    mode: Mode<N, A>,
    purpose: Purpose<N>,
    parent: Digest<N>,
    round: Round,
    step: Step<N, A>,
    from: Digest<N>,
    fork: Result<Fork<'_, A>, PrepareBatchesError>,
)
    requires
        mode is Running,
        call_ensures(Mode::<N, A>::prepare_batches, (&mode, purpose, parent, round), step),
        step is Continue && step->action == (Action::<N>::Fork { parent: from })
            ==> call_ensures(Mode::<N, A>::fork_batches, (&mode, &from), fork),
    ensures
        call_requires(Mode::<N, A>::prepare_batches, (&mode, purpose, parent, round)),
        step is Continue,
        step->job.purpose == purpose,
        step->job.parent == parent,
        step->job.round == round,
        mode->pending@.contains_key(parent) || mode->finalized_digest == parent ==> step->action
            == (Action::<N>::Fork { parent }) && step->job.stage is Fork,
        !mode->pending@.contains_key(parent) && mode->finalized_digest != parent ==> {
            &&& step->action == (Action::<N>::Fetch { digest: parent })
            &&& step->job.stage matches Stage::Rebuild { rebuild } && rebuild.stage is Walk
                && rebuild.to_replay@.len() == 0
        },
        step->action == (Action::<N>::Fork { parent: from }) ==> fork == Ok::<
            Fork<A>,
            PrepareBatchesError,
        >(
            if mode->pending@.contains_key(parent) {
                Fork::Pending(&mode->pending@[parent].1)
            } else {
                Fork::Committed(&mode->databases)
            },
        ),
{
}

/// A caller that is gone ends a request, and nothing changes.
pub proof fn law_cancellation_changes_nothing<const N: usize, A: Application>(
    mode: &mut Mode<N, A>,
    job: Job<N, A>,
    step: Step<N, A>,
)
    requires
        call_ensures(Mode::<N, A>::resume, (mode, job, Event::Cancelled), step),
    ensures
        step is Abandon,
        *final(mode) == *old(mode),
{
}

/// An ancestor that the provider could not deliver is asked for again.
pub proof fn law_missing_block_is_asked_for_again<const N: usize, A: Application>(
    mode: &mut Mode<N, A>,
    job: Job<N, A>,
    step: Step<N, A>,
)
    requires
        job.stage is Rebuild,
        job.stage->rebuild.stage is Walk,
        call_ensures(Mode::<N, A>::resume, (mode, job, Event::Fetched { block: None }), step),
    ensures
        *final(mode) == *old(mode),
        step is Continue,
        step->action == (Action::<N>::Fetch { digest: job.stage->rebuild.current }),
        step->job.purpose == job.purpose,
        step->job.parent == job.parent,
        step->job.round == job.round,
        step->job.stage is Rebuild,
        step->job.stage->rebuild.stage is Walk,
        step->job.stage->rebuild.to_replay@ == job.stage->rebuild.to_replay@,
{
}

/// An ancestor that was fetched is kept for the replay. If the state of its parent is known,
/// it is replayed on that state. Otherwise the parent is fetched, unless it would be genesis,
/// which cannot be: then the request is turned down.
pub proof fn law_fetched_block_is_kept_for_replay<const N: usize, A: Application>(
    mode: &mut Mode<N, A>,
    job: Job<N, A>,
    block: Block<N, A::Body>,
    step: Step<N, A>,
)
    requires
        job.stage is Rebuild,
        job.stage->rebuild.stage is Walk,
        call_ensures(
            Mode::<N, A>::resume,
            (mode, job, Event::Fetched { block: Some(block) }),
            step,
        ),
    ensures
        *final(mode) == *old(mode),
        ({
            let known = (*old(mode))->pending@.contains_key(block.parent) || (
            *old(mode))->finalized_digest == block.parent;
            let before = job.stage->rebuild.to_replay@;
            &&& !known && block.height <= 1 ==> step == (Step::<N, A>::Reply { accept: false })
            &&& known || block.height > 1 ==> {
                &&& step is Continue
                &&& step->job.purpose == job.purpose
                &&& step->job.parent == job.parent
                &&& step->job.round == job.round
                &&& step->job.stage is Rebuild
                &&& step->job.stage->rebuild.to_replay@ == before.push(block)
            }
            &&& known ==> step->action == (Action::<N>::Fork { parent: block.parent })
                && step->job.stage->rebuild.stage is Fork
            &&& !known && block.height > 1 ==> step->action == (Action::<N>::Fetch {
                digest: block.parent,
            }) && step->job.stage->rebuild.stage is Walk
        }),
{
}

/// Once batches are forked, the block to replay is applied to them; where there is none, the
/// application executes.
pub proof fn law_forked_batches_are_used<const N: usize, A: Application>(
    mode: &mut Mode<N, A>,
    job: Job<N, A>,
    step: Step<N, A>,
)
    requires
        call_ensures(Mode::<N, A>::resume, (mode, job, Event::Forked), step),
    ensures
        *final(mode) == *old(mode),
        step is Continue,
        step->job.purpose == job.purpose,
        step->job.parent == job.parent,
        step->job.round == job.round,
        match job.stage {
            Stage::Rebuild { rebuild } => {
                &&& step->action is Apply
                &&& step->job.stage is Rebuild
                &&& step->job.stage->rebuild.stage is Apply
                &&& step->job.stage->rebuild.to_replay@ == rebuild.to_replay@
            },
            _ => step->action is Execute && step->job.stage is Execute,
        },
{
}

/// The state of a block that was replayed is recorded under its digest, with its round, and
/// no other state changes. The next block is replayed on the state of its own parent; after
/// the last one, the request goes on from the state of its parent. Where that state is not
/// known, the request is turned down.
pub proof fn law_replayed_block_is_recorded<const N: usize, A: Application>(
    mode: &mut Mode<N, A>,
    job: Job<N, A>,
    merkleized: A::Merkleized,
    step: Step<N, A>,
    other: Digest<N>,
)
    requires
        job.stage is Rebuild,
        job.stage->rebuild.to_replay@.len() > 0,
        call_ensures(Mode::<N, A>::resume, (mode, job, Event::Applied { merkleized }), step),
    ensures
        ({
            let blocks = job.stage->rebuild.to_replay@;
            let block = blocks.last();
            let before = (*old(mode))->pending@;
            let after = (*final(mode))->pending@;
            let from = if blocks.len() == 1 {
                job.parent
            } else {
                blocks[blocks.len() - 2].parent
            };
            let known = after.contains_key(from) || (*old(mode))->finalized_digest == from;
            &&& *final(mode) is Running
            &&& (*final(mode))->databases == (*old(mode))->databases
            &&& (*final(mode))->finalized_digest == (*old(mode))->finalized_digest
            &&& after.contains_key(block.digest) && after[block.digest] == (
                block.round,
                merkleized,
            )
            &&& other != block.digest ==> after.contains_key(other) == before.contains_key(other)
            &&& other != block.digest && before.contains_key(other) ==> after[other]
                == before[other]
            &&& !known ==> step == (Step::<N, A>::Reply { accept: false })
            &&& known ==> {
                &&& step is Continue
                &&& step->action == (Action::<N>::Fork { parent: from })
                &&& step->job.purpose == job.purpose
                &&& step->job.parent == job.parent
                &&& step->job.round == job.round
                &&& blocks.len() == 1 ==> step->job.stage is Fork
                &&& blocks.len() > 1 ==> {
                    &&& step->job.stage is Rebuild
                    &&& step->job.stage->rebuild.stage is Fork
                    &&& step->job.stage->rebuild.to_replay@ == blocks.drop_last()
                }
            }
        }),
{
}

/// A block that was built is answered with, and its state is recorded under its digest, with
/// the round of the request. No other state changes. A failed build is answered without a
/// block, and nothing changes.
pub proof fn law_built_block_is_recorded<const N: usize, A: Application>(
    mode: &mut Mode<N, A>,
    job: Job<N, A>,
    built: Option<(Digest<N>, A::Merkleized)>,
    step: Step<N, A>,
    other: Digest<N>,
)
    requires
        call_ensures(Mode::<N, A>::resume, (mode, job, Event::Proposed { built }), step),
    ensures
        step == (Step::<N, A>::Reply { accept: built is Some }),
        built is None ==> *final(mode) == *old(mode),
        built matches Some((digest, merkleized)) ==> {
            let before = (*old(mode))->pending@;
            let after = (*final(mode))->pending@;
            &&& *final(mode) is Running
            &&& (*final(mode))->databases == (*old(mode))->databases
            &&& (*final(mode))->finalized_digest == (*old(mode))->finalized_digest
            &&& after.contains_key(digest) && after[digest] == (job.round, merkleized)
            &&& other != digest ==> after.contains_key(other) == before.contains_key(other)
            &&& other != digest && before.contains_key(other) ==> after[other] == before[other]
        },
{
}

/// A block that was found valid is accepted, and its state is recorded under its digest, with
/// the round of the request. No other state changes. An invalid block is not accepted, and
/// nothing changes.
pub proof fn law_verified_block_is_recorded<const N: usize, A: Application>(
    mode: &mut Mode<N, A>,
    job: Job<N, A>,
    block: Digest<N>,
    valid: Option<A::Merkleized>,
    step: Step<N, A>,
    other: Digest<N>,
)
    requires
        job.purpose == (Purpose::<N>::Verify { block }),
        call_ensures(Mode::<N, A>::resume, (mode, job, Event::Verified { valid }), step),
    ensures
        step == (Step::<N, A>::Reply { accept: valid is Some }),
        valid is None ==> *final(mode) == *old(mode),
        valid matches Some(merkleized) ==> {
            let before = (*old(mode))->pending@;
            let after = (*final(mode))->pending@;
            &&& *final(mode) is Running
            &&& (*final(mode))->databases == (*old(mode))->databases
            &&& (*final(mode))->finalized_digest == (*old(mode))->finalized_digest
            &&& after.contains_key(block) && after[block] == (job.round, merkleized)
            &&& other != block ==> after.contains_key(other) == before.contains_key(other)
            &&& other != block && before.contains_key(other) ==> after[other] == before[other]
        },
{
}

/// The call at index `i` of a request that is processed call by call: it takes in an event
/// that answers the action before it.
pub open spec fn request_advances<const N: usize, A: Application>(
    calls: Seq<&mut Mode<N, A>>,
    steps: Seq<Step<N, A>>,
    events: Seq<Event<N, A>>,
    i: int,
) -> bool {
    &&& steps[i] is Continue
    &&& call_ensures(Mode::<N, A>::resume, (calls[i], steps[i]->job, events[i]), steps[i + 1])
    &&& match events[i] {
        Event::Cancelled => true,
        Event::Fetched { .. } => steps[i]->action is Fetch,
        Event::Forked => steps[i]->action is Fork,
        Event::Applied { .. } => steps[i]->action is Apply,
        Event::Proposed { .. } => steps[i]->action is Execute && steps[i]->job.purpose is Propose,
        Event::Verified { .. } => steps[i]->action is Execute && steps[i]->job.purpose is Verify,
    }
}

/// A request that is processed call by call, from its first step on, and the modes that it
/// goes through.
pub open spec fn is_request<const N: usize, A: Application>(
    purpose: Purpose<N>,
    parent: Digest<N>,
    round: Round,
    calls: Seq<&mut Mode<N, A>>,
    modes: Seq<Mode<N, A>>,
    steps: Seq<Step<N, A>>,
    events: Seq<Event<N, A>>,
) -> bool {
    &&& calls.len() == events.len()
    &&& modes.len() == events.len() + 1
    &&& steps.len() == events.len() + 1
    &&& modes[0] is Running
    &&& call_ensures(Mode::<N, A>::prepare_batches, (&modes[0], purpose, parent, round), steps[0])
    &&& forall|i: int| 0 <= i < events.len() ==> #[trigger] request_advances(
        calls,
        steps,
        events,
        i,
    )
}

/// In every request, each action goes with what is at hand. The block that a fetch names has
/// no known state. The state that a fork names is known: it is that of the parent of the block
/// to replay, and of the parent of the request once there is nothing left to replay.
pub proof fn law_forks_name_the_parent<const N: usize, A: Application>(
    purpose: Purpose<N>,
    parent: Digest<N>,
    round: Round,
    calls: Seq<&mut Mode<N, A>>,
    modes: Seq<Mode<N, A>>,
    steps: Seq<Step<N, A>>,
    events: Seq<Event<N, A>>,
    i: int,
)
    requires
        is_request(purpose, parent, round, calls, modes, steps, events),
        forall|k: int|
            0 <= k < calls.len() ==> *(#[trigger] calls[k]) == modes[k] && *final(calls[k])
                == modes[k + 1],
        0 <= i <= events.len(),
        steps[i] is Continue,
    ensures
        steps[i]->job.purpose == purpose,
        steps[i]->job.parent == parent,
        steps[i]->job.round == round,
        modes[i] is Running,
        steps[i]->job.wf(modes[i]),
        match steps[i]->action {
            Action::Fetch { digest } => {
                &&& steps[i]->job.stage is Rebuild
                &&& steps[i]->job.stage->rebuild.stage is Walk
                &&& steps[i]->job.stage->rebuild.current == digest
                &&& !modes[i]->pending@.contains_key(digest)
                &&& modes[i]->finalized_digest != digest
            },
            Action::Fork { parent: from } => {
                &&& modes[i]->pending@.contains_key(from) || modes[i]->finalized_digest == from
                &&& match steps[i]->job.stage {
                    Stage::Rebuild { rebuild } => rebuild.to_replay@.len() > 0 && from
                        == rebuild.to_replay@.last().parent && rebuild.stage is Fork,
                    Stage::Fork => from == parent,
                    Stage::Execute => false,
                }
            },
            Action::Apply => {
                &&& steps[i]->job.stage is Rebuild
                &&& steps[i]->job.stage->rebuild.stage is Apply
                &&& steps[i]->job.stage->rebuild.to_replay@.len() > 0
            },
            Action::Execute => steps[i]->job.stage is Execute,
        },
    decreases i,
{
    if i > 0 {
        assert(request_advances(calls, steps, events, i - 1));
        law_forks_name_the_parent(purpose, parent, round, calls, modes, steps, events, i - 1);
        assert(*calls[i - 1] == modes[i - 1]);
    }
}

/// A request can always go on: whatever answers its action can be taken in.
pub proof fn law_request_can_go_on<const N: usize, A: Application>(
    purpose: Purpose<N>,
    parent: Digest<N>,
    round: Round,
    calls: Seq<&mut Mode<N, A>>,
    modes: Seq<Mode<N, A>>,
    steps: Seq<Step<N, A>>,
    events: Seq<Event<N, A>>,
    i: int,
    next: &mut Mode<N, A>,
    event: Event<N, A>,
)
    requires
        is_request(purpose, parent, round, calls, modes, steps, events),
        forall|k: int|
            0 <= k < calls.len() ==> *(#[trigger] calls[k]) == modes[k] && *final(calls[k])
                == modes[k + 1],
        0 <= i <= events.len(),
        steps[i] is Continue,
        *next == modes[i],
        match event {
            Event::Cancelled => true,
            Event::Fetched { .. } => steps[i]->action is Fetch,
            Event::Forked => steps[i]->action is Fork,
            Event::Applied { .. } => steps[i]->action is Apply,
            Event::Proposed { .. } => steps[i]->action is Execute && purpose is Propose,
            Event::Verified { .. } => steps[i]->action is Execute && purpose is Verify,
        },
    ensures
        call_requires(Mode::<N, A>::resume, (next, steps[i]->job, event)),
{
    law_forks_name_the_parent(purpose, parent, round, calls, modes, steps, events, i);
}

/// In every request, the state that is recorded for a replayed block came of batches that were
/// forked from the state of its own parent: the fork before named the parent of that block,
/// and its pending state was forked if it was pending, and the committed state only if it was
/// not and was the finalized block.
pub proof fn law_blocks_are_replayed_on_their_parents<const N: usize, A: Application>(
    purpose: Purpose<N>,
    parent: Digest<N>,
    round: Round,
    calls: Seq<&mut Mode<N, A>>,
    modes: Seq<Mode<N, A>>,
    steps: Seq<Step<N, A>>,
    events: Seq<Event<N, A>>,
    i: int,
    merkleized: A::Merkleized,
    from: Digest<N>,
    fork: Result<Fork<'_, A>, PrepareBatchesError>,
)
    requires
        is_request(purpose, parent, round, calls, modes, steps, events),
        forall|k: int|
            0 <= k < calls.len() ==> *(#[trigger] calls[k]) == modes[k] && *final(calls[k])
                == modes[k + 1],
        0 <= i < events.len(),
        events[i] == (Event::<N, A>::Applied { merkleized }),
        steps[i - 1]->action == (Action::<N>::Fork { parent: from }) ==> call_ensures(
            Mode::<N, A>::fork_batches,
            (&modes[i - 1], &from),
            fork,
        ),
    ensures
        ({
            let block = steps[i]->job.stage->rebuild.to_replay@.last();
            let before = modes[i - 1];
            &&& i > 0
            &&& events[i - 1] is Forked
            &&& steps[i - 1]->action == (Action::<N>::Fork { parent: block.parent })
            &&& from == block.parent ==> fork == Ok::<Fork<A>, PrepareBatchesError>(
                if before->pending@.contains_key(block.parent) {
                    Fork::Pending(&before->pending@[block.parent].1)
                } else {
                    Fork::Committed(&before->databases)
                },
            )
            &&& modes[i + 1]->pending@.contains_key(block.digest)
            &&& modes[i + 1]->pending@[block.digest] == (block.round, merkleized)
        }),
{
    assert(request_advances(calls, steps, events, i));
    assert(*calls[i] == modes[i]);
    law_forks_name_the_parent(purpose, parent, round, calls, modes, steps, events, i);
    if i > 0 {
        assert(request_advances(calls, steps, events, i - 1));
        assert(*calls[i - 1] == modes[i - 1]);
        law_forks_name_the_parent(purpose, parent, round, calls, modes, steps, events, i - 1);
    }
}

} // verus!
