//! Consensus-facing wrapper that manages pending state on behalf of a stateful
//! application.
//!
//! - Before a block is proposed or verified, batches are forked from the pending
//!   state of its parent, or from the committed state if the parent is finalized.
//! - After execution, the resulting state becomes a new pending tip.
//! - On finalization, the winning tip is persisted and dead forks are pruned.
//!
//! [`Stateful`] holds the state and takes the decisions. Its owner processes one
//! message at a time, does the waiting, and reports what came of it.

use crate::db::SyncEngineConfig;
use crate::stateful::bootstrap::{self, BootstrapConfig, SyncTip};
use crate::stateful::job::{prepares, Purpose, Step};
use crate::stateful::mode::Mode;
use crate::stateful::pending::{newer_entries, Pending};
use crate::stateful::{Application, Block};
use crate::types::{Digest, Round};
use vstd::prelude::*;
use vstd::string::StringExecFns;

verus! {

/// Startup mode for the one-time state-sync bootstrap.
pub enum Startup<B> {
    /// Initialize fresh databases and let marshal backfill.
    Fresh,
    /// Run one-time state sync from a user-supplied finalization target.
    Sync { block: B },
}

/// Startup configuration for one-time state sync.
pub struct StateSyncConfig<const N: usize, A: Application> {
    /// Partition prefix used to derive the durable state-sync metadata partition.
    pub partition_prefix: String,
    /// Explicit startup mode.
    pub startup: Startup<Block<N, A::Body>>,
    /// Resolvers for startup sync fetches and post-bootstrap serving.
    pub resolvers: A::Resolvers,
    /// Sync engine tuning knobs.
    pub sync_config: SyncEngineConfig,
}

/// Configuration for constructing a [`Stateful`] wrapper.
pub struct Config<const N: usize, A: Application> {
    /// Configuration used to open the database set once the wrapper is started.
    pub db_config: A::DbConfig,
    /// Startup state-sync configuration.
    pub state_sync: StateSyncConfig<N, A>,
}

/// Startup lifecycle.
pub enum StartupState<const N: usize, A: Application> {
    /// The configuration has not been used yet.
    Pending {
        db_config: A::DbConfig,
        state_sync: StateSyncConfig<N, A>,
        tip_updates: A::TipReceiver,
    },
    /// Startup is under way, and the resolvers can be attached.
    Started { sync_resolvers: A::Resolvers },
    /// The databases are being attached to the resolvers.
    Attached { sync_resolvers: A::Resolvers, databases: A::Databases },
    /// Startup is over: the resolvers serve the databases.
    Complete { sync_resolvers: A::Resolvers },
    /// The configuration is being used.
    Consumed,
}

impl<const N: usize, A: Application> StartupState<N, A> {
    /// The resolvers, once the configuration has been used.
    pub open spec fn resolvers(self) -> A::Resolvers {
        match self {
            StartupState::Started { sync_resolvers } => sync_resolvers,
            StartupState::Attached { sync_resolvers, .. } => sync_resolvers,
            StartupState::Complete { sync_resolvers } => sync_resolvers,
            _ => arbitrary(),
        }
    }
}

/// What becomes of a verification request.
pub enum VerifyStep<const N: usize, A: Application> {
    /// The response is held and never answered.
    Held,
    /// The request is processed, and answered on `response`.
    Begun { response: A::VerifyResponse, step: Step<N, A> },
}

/// A finalized block that is being persisted.
#[derive(Clone, Copy, Debug)]
pub struct Finalization<const N: usize> {
    pub digest: Digest<N>,
    pub round: Round,
}

/// What becomes of a report that a block is finalized.
pub enum FinalizeStep<const N: usize, A: Application> {
    /// The acknowledgement is held and never given.
    Held,
    /// The block has been processed before: acknowledge the report.
    Acknowledge { acknowledgement: A::Acknowledgement },
    /// Persist the batch, then complete the finalization and acknowledge the report.
    /// Without a batch, the block is first applied on top of the committed state.
    Persist {
        batch: Option<A::Merkleized>,
        finalization: Finalization<N>,
        acknowledgement: A::Acknowledgement,
    },
}

/// What was held during state sync, to be dropped.
pub struct Held<A: Application> {
    pub verify_responses: Vec<A::VerifyResponse>,
    pub acknowledgements: Vec<A::Acknowledgement>,
}

/// Manages the pending-tip DAG of merkleized batches on behalf of an application.
pub struct Stateful<const N: usize, A: Application> {
    /// One-time startup lifecycle.
    pub startup: StartupState<N, A>,
    /// Current operating mode.
    pub mode: Mode<N, A>,
}

/// The responses whose channel is not closed, in order.
pub open spec fn open_responses<R>(responses: Seq<R>, closed: Seq<bool>) -> Seq<R>
    decreases responses.len(),
{
    if responses.len() == 0 {
        responses
    } else {
        let rest = open_responses(responses.drop_first(), closed.drop_first());
        if closed[0] {
            rest
        } else {
            seq![responses[0]] + rest
        }
    }
}

/// Drops the responses whose channel is closed.
fn prune_closed<R>(responses: &mut Vec<R>, closed: &Vec<bool>)
    requires
        closed@.len() == old(responses)@.len(),
    ensures
        final(responses)@ == open_responses(old(responses)@, closed@),
{
    let ghost before = responses@;
    let mut i: usize = responses.len();
    assert(before =~= before.take(i as int) + open_responses(
        before.skip(i as int),
        closed@.skip(i as int),
    ));
    while i > 0
        invariant
            i <= before.len(),
            closed@.len() == before.len(),
            responses@ == before.take(i as int) + open_responses(
                before.skip(i as int),
                closed@.skip(i as int),
            ),
        decreases i,
    {
        let ghost rest = open_responses(before.skip(i as int), closed@.skip(i as int));
        i = i - 1;
        proof {
            assert(before.skip(i as int).drop_first() =~= before.skip(i + 1));
            assert(closed@.skip(i as int).drop_first() =~= closed@.skip(i + 1));
        }
        if closed[i] {
            responses.remove(i);
            assert(responses@ =~= before.take(i as int) + rest);
        } else {
            assert(responses@ =~= before.take(i as int) + (seq![before[i as int]] + rest));
        }
    }
    assert(before.skip(0) =~= before);
    assert(closed@.skip(0) =~= closed@);
    assert(responses@ =~= open_responses(before, closed@));
}

impl<const N: usize, A: Application> Stateful<N, A> {
    /// Constructs the wrapper. It is syncing until bootstrap completes.
    pub fn init(
        config: Config<N, A>,
        tip_sender: A::TipSender,
        tip_updates: A::TipReceiver,
    ) -> (stateful: Self)
        requires
            config.state_sync.sync_config.wf(),
        ensures
            stateful.startup == (StartupState::Pending {
                db_config: config.db_config,
                state_sync: config.state_sync,
                tip_updates,
            }),
            stateful.mode matches Mode::Syncing {
                held_verify_responses,
                held_acks,
                tip_sender: sender,
            } && held_verify_responses@.len() == 0 && held_acks@.len() == 0 && sender
                == tip_sender,
    {
        Stateful {
            startup: StartupState::Pending {
                db_config: config.db_config,
                state_sync: config.state_sync,
                tip_updates,
            },
            mode: Mode::Syncing {
                held_verify_responses: Vec::new(),
                held_acks: Vec::new(),
                tip_sender,
            },
        }
    }

    /// The block whose targets state sync starts from, if startup begins with it.
    pub fn sync_block(&self) -> (block: Option<&Block<N, A::Body>>)
        requires
            self.startup is Pending,
        ensures
            block == (match self.startup->state_sync.startup {
                Startup::Fresh => None,
                Startup::Sync { block } => Some(&block),
            }),
    {
        match &self.startup {
            StartupState::Pending { state_sync, .. } => match &state_sync.startup {
                Startup::Fresh => None,
                Startup::Sync { block } => Some(block),
            },
            _ => None,
        }
    }

    /// Starts the wrapper: hands out what bootstrap needs, and keeps the resolvers
    /// until the databases can be attached to them. `targets` are those of the block
    /// that state sync starts from.
    pub fn start(&mut self, targets: Option<A::SyncTargets>) -> (plan: BootstrapConfig<N, A>)
        requires
            old(self).startup is Pending,
            targets is Some <==> old(self).startup->state_sync.startup is Sync,
        ensures
            final(self).mode == old(self).mode,
            final(self).startup == (StartupState::<N, A>::Started {
                sync_resolvers: old(self).startup->state_sync.resolvers,
            }),
            plan.db_config == old(self).startup->db_config,
            plan.metadata_partition@ == old(self).startup->state_sync.partition_prefix@
                + "_state_sync_metadata"@,
            plan.sync_config == old(self).startup->state_sync.sync_config,
            plan.startup == (match old(self).startup->state_sync.startup {
                Startup::Fresh => bootstrap::Startup::<N, A>::Fresh,
                Startup::Sync { block } => bootstrap::Startup::<N, A>::Sync {
                    initial_tip: SyncTip {
                        height: block.height,
                        digest: block.digest,
                        targets: targets->0,
                    },
                    tip_updates: old(self).startup->tip_updates,
                },
            }),
    {
        let mut startup = StartupState::Consumed;
        core::mem::swap(&mut startup, &mut self.startup);
        match startup {
            StartupState::Pending { db_config, state_sync, tip_updates } => {
                let startup = match (state_sync.startup, targets) {
                    (Startup::Sync { block }, Some(targets)) => bootstrap::Startup::Sync {
                        initial_tip: SyncTip {
                            height: block.height,
                            digest: block.digest,
                            targets,
                        },
                        tip_updates,
                    },
                    _ => bootstrap::Startup::Fresh,
                };
                self.startup = StartupState::Started { sync_resolvers: state_sync.resolvers };
                BootstrapConfig {
                    db_config,
                    metadata_partition: state_sync.partition_prefix.concat("_state_sync_metadata"),
                    sync_config: state_sync.sync_config,
                    startup,
                }
            },
            _ => vstd::pervasive::unreached(),
        }
    }

    /// Handles a request to propose a block on top of `parent`, the first block of
    /// the ancestry. While syncing, proposals are rejected.
    pub fn handle_propose(&self, parent: Option<Digest<N>>, round: Round) -> (step: Step<N, A>)
        ensures
            self.mode is Syncing || parent is None ==> step == (Step::<N, A>::Reply {
                accept: false,
            }),
            self.mode is Running && parent is Some ==> prepares(
                self.mode,
                (Purpose::Propose, parent->0, round),
                step,
            ),
    {
        match (&self.mode, parent) {
            (Mode::Running { .. }, Some(parent)) => self.mode.prepare_batches(
                Purpose::Propose,
                parent,
                round,
            ),
            _ => Step::Reply { accept: false },
        }
    }

    /// The verify responses that are held, oldest first.
    pub fn held_verify_responses(&self) -> (held: &[A::VerifyResponse])
        ensures
            held@ == (match self.mode {
                Mode::Syncing { held_verify_responses, .. } => held_verify_responses@,
                Mode::Running { .. } => Seq::empty(),
            }),
    {
        match &self.mode {
            Mode::Syncing { held_verify_responses, .. } => held_verify_responses.as_slice(),
            Mode::Running { .. } => &[],
        }
    }

    /// Handles a request to verify a block, the first of the ancestry, given as its
    /// digest and that of its parent.
    ///
    /// While syncing, the response is held without an answer, so as not to vote
    /// against a block that may be valid. `closed` tells which of the responses held
    /// so far nobody waits for any more: those are dropped.
    pub fn handle_verify(
        &mut self,
        response: A::VerifyResponse,
        closed: &Vec<bool>,
        block: Option<(Digest<N>, Digest<N>)>,
        round: Round,
    ) -> (step: VerifyStep<N, A>)
        requires
            old(self).mode matches Mode::Syncing { held_verify_responses, .. } ==> closed@.len()
                == held_verify_responses@.len(),
        ensures
            final(self).startup == old(self).startup,
            match old(self).mode {
                Mode::Syncing { held_verify_responses, held_acks, tip_sender } => {
                    &&& step is Held
                    &&& final(self).mode is Syncing
                    &&& final(self).mode->held_verify_responses@ == open_responses(
                        held_verify_responses@,
                        closed@,
                    ).push(response)
                    &&& final(self).mode->held_acks == held_acks
                    &&& final(self).mode->tip_sender == tip_sender
                },
                Mode::Running { .. } => {
                    &&& final(self).mode == old(self).mode
                    &&& step is Begun
                    &&& step->response == response
                    &&& match block {
                        None => step->step == Step::<N, A>::Reply { accept: false },
                        Some((block, parent)) => prepares(
                            old(self).mode,
                            (Purpose::Verify { block }, parent, round),
                            step->step,
                        ),
                    }
                },
            },
    {
        if let Mode::Syncing { held_verify_responses, .. } = &mut self.mode {
            prune_closed(held_verify_responses, closed);
            held_verify_responses.push(response);
            return VerifyStep::Held;
        }
        let step = match block {
            Some((block, parent)) => self.mode.prepare_batches(
                Purpose::Verify { block },
                parent,
                round,
            ),
            None => Step::Reply { accept: false },
        };
        VerifyStep::Begun { response, step }
    }

    /// Handles a report that the block named `digest`, of this round, is finalized.
    ///
    /// While syncing, the acknowledgement is held, so that marshal does not advance
    /// past the sync target. A report of the block that was finalized last changes
    /// nothing.
    pub fn handle_finalized(
        &mut self,
        digest: Digest<N>,
        round: Round,
        acknowledgement: A::Acknowledgement,
    ) -> (step: FinalizeStep<N, A>)
        ensures
            final(self).startup == old(self).startup,
            match old(self).mode {
                Mode::Syncing { held_verify_responses, held_acks, tip_sender } => {
                    &&& step is Held
                    &&& final(self).mode is Syncing
                    &&& final(self).mode->held_verify_responses == held_verify_responses
                    &&& final(self).mode->held_acks@ == held_acks@.push(acknowledgement)
                    &&& final(self).mode->tip_sender == tip_sender
                },
                Mode::Running { databases, pending, finalized_digest } => if digest
                    == finalized_digest {
                    &&& final(self).mode == old(self).mode
                    &&& step == (FinalizeStep::<N, A>::Acknowledge { acknowledgement })
                } else {
                    &&& final(self).mode is Running
                    &&& final(self).mode->databases == databases
                    &&& final(self).mode->finalized_digest == finalized_digest
                    &&& final(self).mode.pending() == pending@.remove(digest)
                    &&& step == (FinalizeStep::<N, A>::Persist {
                        batch: if pending@.contains_key(digest) {
                            Some(pending@[digest].1)
                        } else {
                            None
                        },
                        finalization: Finalization { digest, round },
                        acknowledgement,
                    })
                },
            },
    {
        if let Mode::Syncing { held_acks, .. } = &mut self.mode {
            held_acks.push(acknowledgement);
            return FinalizeStep::Held;
        }
        let (_, pending, finalized_digest) = self.mode.running();
        if finalized_digest.matches(&digest) {
            return FinalizeStep::Acknowledge { acknowledgement };
        }
        let batch = match pending.remove(&digest) {
            Some((_, merkleized)) => Some(merkleized),
            None => None,
        };
        FinalizeStep::Persist {
            batch,
            finalization: Finalization { digest, round },
            acknowledgement,
        }
    }

    /// Completes a finalization once its batch has been persisted: moves the
    /// finalized anchor and prunes dead forks.
    pub fn complete_finalized(&mut self, finalization: Finalization<N>)
        requires
            old(self).mode is Running,
        ensures
            final(self).startup == old(self).startup,
            final(self).mode is Running,
            final(self).mode->databases == old(self).mode->databases,
            final(self).mode->finalized_digest == finalization.digest,
            final(self).mode.pending() == newer_entries(
                old(self).mode.pending(),
                finalization.round,
            ),
    {
        let (_, pending, finalized_digest) = self.mode.running();
        pending.retain_newer_than(finalization.round);
        *finalized_digest = finalization.digest;
    }

    /// Tests whether tips are of use: while syncing, the block of each tip is fetched
    /// and its targets are extracted.
    pub fn wants_tip(&self) -> (wanted: bool)
        ensures
            wanted == self.mode is Syncing,
    {
        matches!(&self.mode, Mode::Syncing { .. })
    }

    /// Handles a tip: what to forward, and where, given the targets of the tip's
    /// block, if it could be fetched. Nothing is forwarded once running.
    pub fn handle_tip(
        &self,
        height: u64,
        digest: Digest<N>,
        targets: Option<A::SyncTargets>,
    ) -> (forward: Option<(&A::TipSender, SyncTip<N, A::SyncTargets>)>)
        ensures
            forward == (match (self.mode, targets) {
                (Mode::Syncing { tip_sender, .. }, Some(targets)) => Some(
                    (&tip_sender, SyncTip { height, digest, targets }),
                ),
                _ => None,
            }),
    {
        match (&self.mode, targets) {
            (Mode::Syncing { tip_sender, .. }, Some(targets)) => Some(
                (tip_sender, SyncTip { height, digest, targets }),
            ),
            _ => None,
        }
    }

    /// The resolvers to attach the databases to.
    pub fn sync_resolvers(&self) -> (resolvers: &A::Resolvers)
        requires
            self.startup is Started,
        ensures
            *resolvers == self.startup.resolvers(),
    {
        match &self.startup {
            StartupState::Started { sync_resolvers } => sync_resolvers,
            _ => vstd::pervasive::unreached(),
        }
    }

    /// Handles the end of bootstrap: first of all, the databases are to be attached to the
    /// resolvers that are handed out with them. The wrapper is syncing until that is done.
    pub fn attach_resolvers(&mut self, databases: A::Databases) -> (attach: (
        &A::Resolvers,
        &A::Databases,
    ))
        requires
            old(self).mode is Syncing,
            old(self).startup is Started,
        ensures
            *attach.0 == old(self).startup.resolvers(),
            *attach.1 == databases,
            final(self).mode == old(self).mode,
            final(self).startup == (StartupState::<N, A>::Attached {
                sync_resolvers: old(self).startup.resolvers(),
                databases,
            }),
    {
        let mut startup = StartupState::Consumed;
        core::mem::swap(&mut startup, &mut self.startup);
        if let StartupState::Started { sync_resolvers } = startup {
            self.startup = StartupState::Attached { sync_resolvers, databases };
        }
        match &self.startup {
            StartupState::Attached { sync_resolvers, databases } => (sync_resolvers, databases),
            _ => vstd::pervasive::unreached(),
        }
    }

    /// Goes over to normal operation with the databases that have been attached to the
    /// resolvers. What was held is handed out to be dropped: no verify response is
    /// answered, and no acknowledgement is given.
    pub fn handle_sync_complete(&mut self, finalized_digest: Digest<N>) -> (held: Held<A>)
        requires
            old(self).mode is Syncing,
            old(self).startup is Attached,
        ensures
            final(self).startup == (StartupState::<N, A>::Complete {
                sync_resolvers: old(self).startup.resolvers(),
            }),
            final(self).mode is Running,
            final(self).mode->databases == old(self).startup->databases,
            final(self).mode->finalized_digest == finalized_digest,
            final(self).mode.pending() == Map::<Digest<N>, (Round, A::Merkleized)>::empty(),
            held.verify_responses == old(self).mode->held_verify_responses,
            held.acknowledgements == old(self).mode->held_acks,
    {
        let mut startup = StartupState::Consumed;
        core::mem::swap(&mut startup, &mut self.startup);
        match startup {
            StartupState::Attached { sync_resolvers, databases } => {
                self.startup = StartupState::Complete { sync_resolvers };
                let mut mode = Mode::Running {
                    databases,
                    pending: Pending::new(),
                    finalized_digest,
                };
                core::mem::swap(&mut mode, &mut self.mode);
                match mode {
                    Mode::Syncing { held_verify_responses, held_acks, .. } => Held {
                        verify_responses: held_verify_responses,
                        acknowledgements: held_acks,
                    },
                    Mode::Running { .. } => vstd::pervasive::unreached(),
                }
            },
            _ => vstd::pervasive::unreached(),
        }
    }
}

/// A finalization moves the anchor and prunes dead forks: the finalized block is known
/// and is no pending tip any more, so that its children are built on the committed
/// state. Of the other tips, those of later rounds stay as they are, and no others.
///
/// `before` is the state when the block is reported, `persisting` the state while its
/// batch is persisted, and `after` the state when the finalization is complete.
pub proof fn law_finalization<const N: usize, A: Application>(
    before: Mode<N, A>,
    persisting: Mode<N, A>,
    after: Mode<N, A>,
    finalization: Finalization<N>,
)
    requires
        persisting.pending() == before.pending().remove(finalization.digest),
        after.pending() == newer_entries(persisting.pending(), finalization.round),
        after->finalized_digest == finalization.digest,
    ensures
        after.knows(finalization.digest),
        !after.pending().contains_key(finalization.digest),
        forall|digest: Digest<N>| #[trigger]
            after.pending().contains_key(digest) <==> digest != finalization.digest
                && before.pending().contains_key(digest) && before.pending()[digest].0.newer_than(
                finalization.round,
            ),
        forall|digest: Digest<N>|
            after.pending().contains_key(digest) ==> #[trigger] after.pending()[digest]
                == before.pending()[digest],
{
}

} // verus!
