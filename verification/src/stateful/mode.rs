//! The operating mode of the actor.

use crate::stateful::pending::Pending;
use crate::stateful::Application;
use crate::types::{Digest, Round};
use vstd::prelude::*;

verus! {

/// Operating mode of the actor.
pub enum Mode<const N: usize, A: Application> {
    /// State sync is in progress: the databases are not available yet.
    Syncing {
        /// Verify response channels received while syncing, never answered.
        held_verify_responses: Vec<A::VerifyResponse>,
        /// Finalization acknowledgements received while syncing, never given.
        held_acks: Vec<A::Acknowledgement>,
        /// Channel to forward sync tips to the background sync task.
        tip_sender: A::TipSender,
    },
    /// Normal consensus operation.
    Running {
        /// The managed databases.
        databases: A::Databases,
        /// Pending merkleized batches.
        pending: Pending<N, A::Merkleized>,
        /// The last finalized block that has been processed.
        finalized_digest: Digest<N>,
    },
}

/// Errors while preparing parent-relative batches for propose and verify.
#[derive(Clone, Copy, Debug, PartialEq, Eq, Structural)]
pub enum PrepareBatchesError {
    /// Parent ancestry is provably invalid.
    Invalid,
    /// Caller dropped the response while waiting.
    Cancelled,
}

/// The state that new batches are forked from.
pub enum Fork<'a, A: Application> {
    /// The pending state of the parent.
    Pending(&'a A::Merkleized),
    /// The committed state of the databases.
    Committed(&'a A::Databases),
}

impl<const N: usize, A: Application> Mode<N, A> {
    /// The pending tips of a running actor.
    pub open spec fn pending(self) -> Map<Digest<N>, (Round, A::Merkleized)> {
        self->pending@
    }

    /// The state after the block named `digest` is at hand: it is pending, or committed.
    pub open spec fn knows(self, digest: Digest<N>) -> bool {
        self.pending().contains_key(digest) || self->finalized_digest == digest
    }

    /// Every state that was at hand before is at hand now.
    pub open spec fn keeps_states(self, before: Mode<N, A>) -> bool {
        forall|digest: Digest<N>| #[trigger] before.knows(digest) ==> self.knows(digest)
    }

    /// Fork unmerkleized batches from parent state.
    ///
    /// If `parent` is pending, this forks from its merkleized state. If it is the
    /// finalized tip, this starts from committed state. Otherwise the parent is not
    /// a known safe anchor.
    pub fn fork_batches(&self, parent: &Digest<N>) -> (fork: Result<
        Fork<'_, A>,
        PrepareBatchesError,
    >)
        requires
            self is Running,
        ensures
            fork == (if self.pending().contains_key(*parent) {
                Ok(Fork::<A>::Pending(&self.pending()[*parent].1))
            } else if self->finalized_digest == *parent {
                Ok(Fork::<A>::Committed(&self->databases))
            } else {
                Err(PrepareBatchesError::Invalid)
            }),
            fork is Ok <==> self.knows(*parent),
    {
        match self {
            Mode::Running { databases, pending, finalized_digest } => {
                match pending.get_merkleized(parent) {
                    Some(merkleized) => Ok(Fork::Pending(merkleized)),
                    None => {
                        if finalized_digest.matches(parent) {
                            Ok(Fork::Committed(databases))
                        } else {
                            Err(PrepareBatchesError::Invalid)
                        }
                    },
                }
            },
            Mode::Syncing { .. } => vstd::pervasive::unreached(),
        }
    }

    /// Tests whether the state after the block named `digest` is at hand.
    pub fn is_known(&self, digest: &Digest<N>) -> (known: bool)
        requires
            self is Running,
        ensures
            known == self.knows(*digest),
    {
        match self {
            Mode::Running { pending, finalized_digest, .. } => finalized_digest.matches(digest)
                || pending.contains(digest),
            Mode::Syncing { .. } => vstd::pervasive::unreached(),
        }
    }

    /// Returns mutable references to the running state.
    pub fn running(&mut self) -> (state: (
        &mut A::Databases,
        &mut Pending<N, A::Merkleized>,
        &mut Digest<N>,
    ))
        requires
            *old(self) is Running,
        ensures
            *state.0 == (*old(self))->databases,
            *state.1 == (*old(self))->pending,
            *state.2 == (*old(self))->finalized_digest,
            *final(self) == (Mode::<N, A>::Running {
                databases: *final(state.0),
                pending: *final(state.1),
                finalized_digest: *final(state.2),
            }),
    {
        match self {
            Mode::Running { databases, pending, finalized_digest } => (
                databases,
                pending,
                finalized_digest,
            ),
            Mode::Syncing { .. } => vstd::pervasive::unreached(),
        }
    }
}

} // verus!
