//! Laws of the recovery of pending state.

use crate::stateful::mode::{Mode, PrepareBatchesError};
use crate::stateful::rebuild::{Rebuild, RebuildEvent, RebuildStep};
use crate::stateful::{Application, Block};
use crate::types::Digest;
use vstd::prelude::*;

verus! {

/// A rebuild has nothing to do where the state of its target is known, and fetches the target
/// otherwise.
pub proof fn law_rebuild_starts_at_its_target<const N: usize, A: Application>(
    target: Digest<N>,
    mode: Mode<N, A>,
    started: (Rebuild<N, A>, RebuildStep<N>),
)
    requires
        mode is Running,
        call_ensures(Rebuild::<N, A>::start, (target, &mode), started),
    ensures
        call_requires(Rebuild::<N, A>::start, (target, &mode)),
        started.0.target == target,
        started.0.current == target,
        started.0.to_replay@.len() == 0,
        started.0.stage is Walk,
        mode->pending@.contains_key(target) || mode->finalized_digest == target ==> started.1 == (
        RebuildStep::<N>::Done { result: Ok(()) }),
        !mode->pending@.contains_key(target) && mode->finalized_digest != target ==> started.1
            == (RebuildStep::<N>::Fetch { digest: target }),
{
}

/// A cancelled rebuild ends at once and changes nothing.
pub proof fn law_cancelled_rebuild_changes_nothing<const N: usize, A: Application>(
    rebuild: &mut Rebuild<N, A>,
    mode: &mut Mode<N, A>,
    step: RebuildStep<N>,
)
    requires
        call_ensures(Rebuild::<N, A>::resume, (rebuild, mode, RebuildEvent::Cancelled), step),
    ensures
        step == (RebuildStep::<N>::Done { result: Err(PrepareBatchesError::Cancelled) }),
        *final(mode) == *old(mode),
        *final(rebuild) == *old(rebuild),
{
}

/// A block that could not be delivered is asked for again.
pub proof fn law_rebuild_asks_again<const N: usize, A: Application>(
    rebuild: &mut Rebuild<N, A>,
    mode: &mut Mode<N, A>,
    step: RebuildStep<N>,
)
    requires
        call_ensures(
            Rebuild::<N, A>::resume,
            (rebuild, mode, RebuildEvent::Fetched { block: None }),
            step,
        ),
    ensures
        step == (RebuildStep::<N>::Fetch { digest: old(rebuild).current }),
        *final(mode) == *old(mode),
        *final(rebuild) == *old(rebuild),
{
}

/// A walk goes on to the parent of the block that was fetched. It is over where the state of
/// that parent is known, and it fails only where that state is not known and the parent would
/// be genesis.
pub proof fn law_walk_goes_to_the_parent<const N: usize, A: Application>(
    rebuild: &mut Rebuild<N, A>,
    mode: &mut Mode<N, A>,
    block: Block<N, A::Body>,
    step: RebuildStep<N>,
)
    requires
        call_ensures(
            Rebuild::<N, A>::resume,
            (rebuild, mode, RebuildEvent::Fetched { block: Some(block) }),
            step,
        ),
    ensures
        *final(mode) == *old(mode),
        final(rebuild).target == old(rebuild).target,
        ({
            let known = (*old(mode))->pending@.contains_key(block.parent) || (
            *old(mode))->finalized_digest == block.parent;
            &&& known ==> step == (RebuildStep::<N>::Fork { parent: block.parent })
                && final(rebuild).stage is Fork
            &&& !known && block.height > 1 ==> step == (RebuildStep::<N>::Fetch {
                digest: block.parent,
            }) && final(rebuild).stage is Walk
            &&& !known && block.height <= 1 ==> step == (RebuildStep::<N>::Done {
                result: Err(PrepareBatchesError::Invalid),
            }) && *final(rebuild) == *old(rebuild)
            &&& known || block.height > 1 ==> {
                &&& final(rebuild).current == block.parent
                &&& final(rebuild).to_replay@ == old(rebuild).to_replay@.push(block)
            }
        }),
{
}

/// Once batches are forked for the last block, it is applied to them.
pub proof fn law_rebuild_applies_the_last_block<const N: usize, A: Application>(
    rebuild: &mut Rebuild<N, A>,
    mode: &mut Mode<N, A>,
    step: RebuildStep<N>,
)
    requires
        call_ensures(Rebuild::<N, A>::resume, (rebuild, mode, RebuildEvent::Forked), step),
    ensures
        step is Apply,
        *final(mode) == *old(mode),
        final(rebuild).target == old(rebuild).target,
        final(rebuild).to_replay@ == old(rebuild).to_replay@,
        final(rebuild).stage is Apply,
{
}

/// The state of the last block is recorded under its digest, with its round, and nothing else
/// changes. The block before it is then replayed on the state of its own parent, if that is
/// known; without one, the rebuild has ended well.
pub proof fn law_rebuild_records_the_last_block<const N: usize, A: Application>(
    rebuild: &mut Rebuild<N, A>,
    mode: &mut Mode<N, A>,
    merkleized: A::Merkleized,
    step: RebuildStep<N>,
    other: Digest<N>,
)
    requires
        old(rebuild).to_replay@.len() > 0,
        call_ensures(
            Rebuild::<N, A>::resume,
            (rebuild, mode, RebuildEvent::Applied { merkleized }),
            step,
        ),
    ensures
        ({
            let blocks = old(rebuild).to_replay@;
            let block = blocks.last();
            let before = (*old(mode))->pending@;
            let after = (*final(mode))->pending@;
            &&& *final(mode) is Running
            &&& (*final(mode))->databases == (*old(mode))->databases
            &&& (*final(mode))->finalized_digest == (*old(mode))->finalized_digest
            &&& after.contains_key(block.digest) && after[block.digest] == (
                block.round,
                merkleized,
            )
            &&& other != block.digest ==> after.contains_key(other) == before.contains_key(other)
            &&& other != block.digest && before.contains_key(other) ==> after[other]
                == before[other]
            &&& final(rebuild).to_replay@ == blocks.drop_last()
            &&& blocks.len() == 1 ==> step == (RebuildStep::<N>::Done { result: Ok(()) })
            &&& blocks.len() > 1 ==> {
                let from = blocks[blocks.len() - 2].parent;
                step == (if after.contains_key(from) || (*old(mode))->finalized_digest == from {
                    RebuildStep::<N>::Fork { parent: from }
                } else {
                    RebuildStep::<N>::Done { result: Err(PrepareBatchesError::Invalid) }
                })
            }
        }),
{
}

/// A rebuild can always go on: whatever answers its first step can be taken in.
pub proof fn law_rebuild_can_begin<const N: usize, A: Application>(
    target: Digest<N>,
    mode: Mode<N, A>,
    started: (Rebuild<N, A>, RebuildStep<N>),
    rebuild: &mut Rebuild<N, A>,
    running: &mut Mode<N, A>,
    event: RebuildEvent<N, A>,
)
    requires
        mode is Running,
        call_ensures(Rebuild::<N, A>::start, (target, &mode), started),
        started.1 is Fetch,
        *rebuild == started.0,
        *running == mode,
        event is Cancelled || event is Fetched,
    ensures
        call_requires(Rebuild::<N, A>::resume, (rebuild, running, event)),
{
}

/// A rebuild can always go on: whatever answers its last step can be taken in.
pub proof fn law_rebuild_can_go_on<const N: usize, A: Application>(
    rebuild: &mut Rebuild<N, A>,
    mode: &mut Mode<N, A>,
    event: RebuildEvent<N, A>,
    step: RebuildStep<N>,
    later: &mut Rebuild<N, A>,
    running: &mut Mode<N, A>,
    answer: RebuildEvent<N, A>,
)
    requires
        *old(mode) is Running,
        old(rebuild).stage is Walk <==> event is Fetched,
        call_ensures(Rebuild::<N, A>::resume, (rebuild, mode, event), step),
        *later == *final(rebuild),
        *running == *final(mode),
        match answer {
            RebuildEvent::Cancelled => !(step is Done),
            RebuildEvent::Fetched { .. } => step is Fetch,
            RebuildEvent::Forked => step is Fork,
            RebuildEvent::Applied { .. } => step is Apply,
        },
    ensures
        call_requires(Rebuild::<N, A>::resume, (later, running, answer)),
{
}

} // verus!
