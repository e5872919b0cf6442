//! What passes between consensus and the actor.

use crate::stateful::{Application, Block};
use crate::types::{Digest, Round};
use vstd::prelude::*;

verus! {

/// What marshal reports.
pub enum Update<const N: usize, A: Application> {
    /// A new finalized tip.
    Tip { round: Round, height: u64, digest: Digest<N> },
    /// A new finalized block, to be acknowledged once it has been processed.
    Block { block: Block<N, A::Body>, acknowledgement: A::Acknowledgement },
}

/// What is passed on to the actor.
pub enum Message<const N: usize, A: Application> {
    /// A finalized block. The actor acknowledges it.
    Finalized { block: Block<N, A::Body>, acknowledgement: A::Acknowledgement },
    /// A new finalized tip, which may lie above the blocks reported so far.
    Tip { height: u64, digest: Digest<N> },
}

/// Passes a report on. A block is not acknowledged on the way.
pub fn report<const N: usize, A: Application>(update: Update<N, A>) -> (message: Message<N, A>)
    ensures
        message == (match update {
            Update::Tip { height, digest, .. } => Message::<N, A>::Tip { height, digest },
            Update::Block { block, acknowledgement } => Message::<N, A>::Finalized {
                block,
                acknowledgement,
            },
        }),
{
    match update {
        Update::Tip { height, digest, .. } => Message::Tip { height, digest },
        Update::Block { block, acknowledgement } => Message::Finalized { block, acknowledgement },
    }
}

/// The proposed block, given the answer of the actor, if there is one.
pub fn proposal<B>(answer: Option<Option<B>>) -> (block: Option<B>)
    ensures
        block == (match answer {
            Some(block) => block,
            None => None,
        }),
{
    match answer {
        Some(block) => block,
        None => None,
    }
}

/// The verdict on a block, given the answer of the actor, if there is one.
pub fn verdict(answer: Option<bool>) -> (valid: bool)
    ensures
        valid == (answer == Some(true)),
{
    match answer {
        Some(valid) => valid,
        None => false,
    }
}

} // verus!
