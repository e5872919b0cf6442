//! Manage database instances on behalf of a stateful application.
//!
//! A stateful application built on consensus must maintain speculative state for every
//! pending chain built on top of the finalized tip.
//!
//! 1. Before a block is proposed or verified, unmerkleized batches are forked from the
//!    pending state of its parent, or from the committed state if the parent has been
//!    finalized ([`mode`], [`job`]).
//! 2. The application executes against those batches. The merkleized result becomes a
//!    new pending tip, keyed by the digest of the block ([`pending`]).
//! 3. On finalization, the winning tip is applied to the databases, and the tips of dead
//!    forks are pruned ([`actor`]).
//!
//! Pending tips are kept in memory only. After a restart they are recovered when they
//! are needed ([`rebuild`]).

pub mod actor;
pub mod bootstrap;
pub mod job;
pub mod laws;
pub mod mailbox;
pub mod mode;
pub mod pending;
pub mod rebuild;

use crate::types::{Digest, Round};
use vstd::prelude::*;

verus! {

/// The types that an application and its runtime bring. The library stores values
/// of them and hands them back; it never looks inside.
pub trait Application: Sized {
    /// The contents of a block.
    type Body;

    /// A sealed batch of mutations for every database of the set.
    type Merkleized;

    /// The set of databases.
    type Databases;

    /// What is needed to open the set of databases.
    type DbConfig;

    /// The per-database sync targets that a finalized block gives.
    type SyncTargets;

    /// The resolvers that fetch and serve operations, one for each database.
    type Resolvers;

    /// The channel on which the answer to a verification request is sent.
    type VerifyResponse;

    /// Tells marshal that a finalized block has been processed.
    type Acknowledgement;

    /// The sending half of the channel that carries tips during state sync.
    type TipSender;

    /// The receiving half of the channel that carries tips during state sync.
    type TipReceiver;
}

/// A block: what the library reads of it, and its contents.
pub struct Block<const N: usize, B> {
    pub digest: Digest<N>,
    pub parent: Digest<N>,
    pub height: u64,
    /// The round in which the block was proposed.
    pub round: Round,
    pub body: B,
}

} // verus!
