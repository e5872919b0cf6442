//! Laws of the messages that the actor handles.

use crate::stateful::actor::{
    open_responses, Config, FinalizeStep, Held, Startup, StartupState, Stateful, VerifyStep,
};
use crate::stateful::bootstrap::{self, BootstrapConfig, SyncTip};
use crate::stateful::job::{Action, Purpose, Stage, Step};
use crate::stateful::mailbox::{proposal, report, verdict, Message, Update};
use crate::stateful::mode::{Fork, Mode, PrepareBatchesError};
use crate::stateful::pending::Pending;
use crate::stateful::{Application, Block};
use crate::types::{Digest, Round};
use vstd::prelude::*;

verus! {

/// The actor is syncing at first, with nothing held, and keeps its configuration.
pub proof fn law_actor_starts_syncing<const N: usize, A: Application>(
    config: Config<N, A>,
    tip_sender: A::TipSender,
    tip_updates: A::TipReceiver,
    actor: Stateful<N, A>,
    wanted: bool,
    held: &[A::VerifyResponse],
)
    requires
        call_ensures(Stateful::<N, A>::init, (config, tip_sender, tip_updates), actor),
        call_ensures(Stateful::<N, A>::wants_tip, (&actor,), wanted),
        call_ensures(Stateful::<N, A>::held_verify_responses, (&actor,), held),
    ensures
        wanted,
        held@.len() == 0,
        actor.mode is Syncing,
        actor.mode->held_acks@.len() == 0,
        actor.mode->tip_sender == tip_sender,
        actor.startup == (StartupState::<N, A>::Pending {
            db_config: config.db_config,
            state_sync: config.state_sync,
            tip_updates,
        }),
        config.state_sync.sync_config.fetch_batch_size > 0
            && config.state_sync.sync_config.update_channel_size > 0 ==> call_requires(
            Stateful::<N, A>::init,
            (config, tip_sender, tip_updates),
        ),
{
}

/// A fresh startup hands out the configuration without a tip.
pub proof fn law_fresh_start<const N: usize, A: Application>(
    actor: &mut Stateful<N, A>,
    plan: BootstrapConfig<N, A>,
    block: Option<&Block<N, A::Body>>,
)
    requires
        old(actor).startup is Pending,
        old(actor).startup->state_sync.startup is Fresh,
        call_ensures(Stateful::<N, A>::sync_block, (old(actor),), block),
        call_ensures(Stateful::<N, A>::start, (actor, None), plan),
    ensures
        block is None,
        plan.startup is Fresh,
        plan.db_config == old(actor).startup->db_config,
        plan.sync_config == old(actor).startup->state_sync.sync_config,
        plan.metadata_partition@ == old(actor).startup->state_sync.partition_prefix@
            + "_state_sync_metadata"@,
        final(actor).mode == old(actor).mode,
        final(actor).startup == (StartupState::<N, A>::Started {
            sync_resolvers: old(actor).startup->state_sync.resolvers,
        }),
        call_requires(Stateful::<N, A>::start, (actor, None)),
{
}

/// A startup that begins with state sync hands out the tip of the configured block, with the
/// targets that were given.
pub proof fn law_sync_start<const N: usize, A: Application>(
    actor: &mut Stateful<N, A>,
    block: Block<N, A::Body>,
    asked: Option<&Block<N, A::Body>>,
    targets: A::SyncTargets,
    plan: BootstrapConfig<N, A>,
)
    requires
        old(actor).startup is Pending,
        old(actor).startup->state_sync.startup == (Startup::Sync { block }),
        call_ensures(Stateful::<N, A>::sync_block, (old(actor),), asked),
        call_ensures(Stateful::<N, A>::start, (actor, Some(targets)), plan),
    ensures
        asked == Some(&block),
        plan.startup matches bootstrap::Startup::Sync { initial_tip, tip_updates }
            && initial_tip.height == block.height && initial_tip.digest == block.digest
            && initial_tip.targets == targets && tip_updates == old(actor).startup->tip_updates,
        plan.db_config == old(actor).startup->db_config,
        plan.sync_config == old(actor).startup->state_sync.sync_config,
        plan.metadata_partition@ == old(actor).startup->state_sync.partition_prefix@
            + "_state_sync_metadata"@,
        final(actor).mode == old(actor).mode,
        final(actor).startup == (StartupState::<N, A>::Started {
            sync_resolvers: old(actor).startup->state_sync.resolvers,
        }),
        call_requires(Stateful::<N, A>::start, (actor, Some(targets))),
{
}

/// A proposal is built on the state of the parent that was asked for: its pending state if it
/// is pending, the committed state only if it is not and is the finalized block. Where neither
/// is at hand, the parent is fetched first.
pub proof fn law_proposal_is_built_on_its_parent<const N: usize, A: Application>(
    actor: Stateful<N, A>,
    parent: Digest<N>,
    round: Round,
    step: Step<N, A>,
    from: Digest<N>,
    fork: Result<Fork<'_, A>, PrepareBatchesError>,
)
    requires
        actor.mode is Running,
        call_ensures(Stateful::<N, A>::handle_propose, (&actor, Some(parent), round), step),
        step is Continue && step->action == (Action::<N>::Fork { parent: from })
            ==> call_ensures(Mode::<N, A>::fork_batches, (&actor.mode, &from), fork),
    ensures
        call_requires(Stateful::<N, A>::handle_propose, (&actor, Some(parent), round)),
        step is Continue,
        step->job.purpose is Propose,
        step->job.parent == parent,
        step->job.round == round,
        actor.mode->pending@.contains_key(parent) || actor.mode->finalized_digest == parent
            ==> step->action == (Action::<N>::Fork { parent }) && step->job.stage is Fork,
        !actor.mode->pending@.contains_key(parent) && actor.mode->finalized_digest != parent
            ==> step->action == (Action::<N>::Fetch { digest: parent }) && (
        step->job.stage matches Stage::Rebuild { rebuild } && rebuild.to_replay@.len() == 0),
        step->action == (Action::<N>::Fork { parent: from }) ==> fork == Ok::<
            Fork<A>,
            PrepareBatchesError,
        >(
            if actor.mode->pending@.contains_key(parent) {
                Fork::Pending(&actor.mode->pending@[parent].1)
            } else {
                Fork::Committed(&actor.mode->databases)
            },
        ),
{
}

/// A proposal is rejected while syncing, and without a parent.
pub proof fn law_proposal_is_rejected<const N: usize, A: Application>(
    actor: Stateful<N, A>,
    parent: Option<Digest<N>>,
    round: Round,
    step: Step<N, A>,
)
    requires
        actor.mode is Syncing || parent is None,
        call_ensures(Stateful::<N, A>::handle_propose, (&actor, parent, round), step),
    ensures
        step == (Step::<N, A>::Reply { accept: false }),
        call_requires(Stateful::<N, A>::handle_propose, (&actor, parent, round)),
{
}

/// A block is verified on the state of its parent: its pending state if it is pending, the
/// committed state only if it is not and is the finalized block. Where neither is at hand, the
/// parent is fetched first. The response is handed back, and nothing changes.
pub proof fn law_block_is_verified_on_its_parent<const N: usize, A: Application>(
    actor: &mut Stateful<N, A>,
    response: A::VerifyResponse,
    closed: Vec<bool>,
    block: Digest<N>,
    parent: Digest<N>,
    round: Round,
    begun: VerifyStep<N, A>,
    from: Digest<N>,
    fork: Result<Fork<'_, A>, PrepareBatchesError>,
)
    requires
        old(actor).mode is Running,
        call_ensures(
            Stateful::<N, A>::handle_verify,
            (actor, response, &closed, Some((block, parent)), round),
            begun,
        ),
        begun is Begun && begun->step is Continue && begun->step->action == (Action::<N>::Fork {
            parent: from,
        }) ==> call_ensures(Mode::<N, A>::fork_batches, (&old(actor).mode, &from), fork),
    ensures
        call_requires(
            Stateful::<N, A>::handle_verify,
            (actor, response, &closed, Some((block, parent)), round),
        ),
        *final(actor) == *old(actor),
        begun is Begun,
        begun->response == response,
        begun->step is Continue,
        begun->step->job.purpose == (Purpose::<N>::Verify { block }),
        begun->step->job.parent == parent,
        begun->step->job.round == round,
        ({
            let mode = old(actor).mode;
            let step = begun->step;
            &&& mode->pending@.contains_key(parent) || mode->finalized_digest == parent
                ==> step->action == (Action::<N>::Fork { parent }) && step->job.stage is Fork
            &&& !mode->pending@.contains_key(parent) && mode->finalized_digest != parent
                ==> step->action == (Action::<N>::Fetch { digest: parent }) && (
            step->job.stage matches Stage::Rebuild { rebuild } && rebuild.to_replay@.len() == 0)
            &&& step->action == (Action::<N>::Fork { parent: from }) ==> fork == Ok::<
                Fork<A>,
                PrepareBatchesError,
            >(
                if mode->pending@.contains_key(parent) {
                    Fork::Pending(&mode->pending@[parent].1)
                } else {
                    Fork::Committed(&mode->databases)
                },
            )
        }),
{
}

/// A verification without a block is answered negatively, and nothing changes.
pub proof fn law_verification_needs_a_block<const N: usize, A: Application>(
    actor: &mut Stateful<N, A>,
    response: A::VerifyResponse,
    closed: Vec<bool>,
    round: Round,
    begun: VerifyStep<N, A>,
)
    requires
        old(actor).mode is Running,
        call_ensures(
            Stateful::<N, A>::handle_verify,
            (actor, response, &closed, None, round),
            begun,
        ),
    ensures
        call_requires(
            Stateful::<N, A>::handle_verify,
            (actor, response, &closed, None, round),
        ),
        *final(actor) == *old(actor),
        begun is Begun,
        begun->response == response,
        begun->step == (Step::<N, A>::Reply { accept: false }),
{
}

/// The open responses are those that are left when the closed ones are filtered out.
proof fn lemma_open_responses<R>(responses: Seq<R>, closed: Seq<bool>)
    requires
        closed.len() == responses.len(),
    ensures
        open_responses(responses, closed) == Seq::new(
            responses.len(),
            |i: int| (responses[i], closed[i]),
        ).filter(|pair: (R, bool)| !pair.1).map_values(|pair: (R, bool)| pair.0),
    decreases responses.len(),
{
    reveal(Seq::filter);
    let is_open = |pair: (R, bool)| !pair.1;
    let pairs = Seq::new(responses.len(), |i: int| (responses[i], closed[i]));
    if responses.len() == 0 {
        assert(open_responses(responses, closed) =~= pairs.filter(is_open).map_values(
            |pair: (R, bool)| pair.0,
        ));
    } else {
        let rest = responses.drop_first();
        let rest_closed = closed.drop_first();
        let rest_pairs = Seq::new(rest.len(), |i: int| (rest[i], rest_closed[i]));
        lemma_open_responses(rest, rest_closed);
        let first = seq![pairs[0]];
        assert(pairs =~= first + rest_pairs);
        Seq::filter_distributes_over_add(first, rest_pairs, is_open);
        assert(first.drop_last() =~= Seq::empty());
        assert(first.drop_last().filter(is_open) =~= Seq::empty());
        assert(first.filter(is_open) =~= (if closed[0] {
            Seq::empty()
        } else {
            first
        }));
        assert(open_responses(responses, closed) =~= pairs.filter(is_open).map_values(
            |pair: (R, bool)| pair.0,
        ));
    }
}

/// While syncing, a verification is held without an answer, behind those held before that
/// somebody still waits for, in their order. Nothing else changes.
pub proof fn law_syncing_holds_verifications<const N: usize, A: Application>(
    actor: &mut Stateful<N, A>,
    response: A::VerifyResponse,
    closed: Vec<bool>,
    block: Option<(Digest<N>, Digest<N>)>,
    round: Round,
    step: VerifyStep<N, A>,
)
    requires
        old(actor).mode is Syncing,
        closed@.len() == old(actor).mode->held_verify_responses@.len(),
        call_ensures(
            Stateful::<N, A>::handle_verify,
            (actor, response, &closed, block, round),
            step,
        ),
    ensures
        call_requires(Stateful::<N, A>::handle_verify, (actor, response, &closed, block, round)),
        step is Held,
        final(actor).startup == old(actor).startup,
        final(actor).mode is Syncing,
        final(actor).mode->held_acks == old(actor).mode->held_acks,
        final(actor).mode->tip_sender == old(actor).mode->tip_sender,
        final(actor).mode->held_verify_responses@ == Seq::new(
            closed@.len(),
            |i: int| (old(actor).mode->held_verify_responses@[i], closed@[i]),
        ).filter(|pair: (A::VerifyResponse, bool)| !pair.1).map_values(
            |pair: (A::VerifyResponse, bool)| pair.0,
        ).push(response),
{
    lemma_open_responses(old(actor).mode->held_verify_responses@, closed@);
}

/// A finalized block is persisted with its pending state, if it has one, which is then no
/// pending tip any more. The other tips stay, and so do the anchor and the databases.
pub proof fn law_finalized_block_is_persisted<const N: usize, A: Application>(
    actor: &mut Stateful<N, A>,
    digest: Digest<N>,
    round: Round,
    acknowledgement: A::Acknowledgement,
    step: FinalizeStep<N, A>,
    state: Option<&A::Merkleized>,
    other: Digest<N>,
    before: Option<&A::Merkleized>,
    after: Option<&A::Merkleized>,
)
    requires
        old(actor).mode is Running,
        old(actor).mode->finalized_digest != digest,
        call_ensures(
            Stateful::<N, A>::handle_finalized,
            (actor, digest, round, acknowledgement),
            step,
        ),
        call_ensures(
            Pending::<N, A::Merkleized>::get_merkleized,
            (&old(actor).mode->pending, &digest),
            state,
        ),
        call_ensures(
            Pending::<N, A::Merkleized>::get_merkleized,
            (&old(actor).mode->pending, &other),
            before,
        ),
        call_ensures(
            Pending::<N, A::Merkleized>::get_merkleized,
            (&final(actor).mode->pending, &other),
            after,
        ),
    ensures
        call_requires(
            Stateful::<N, A>::handle_finalized,
            (actor, digest, round, acknowledgement),
        ),
        step is Persist,
        step->batch is Some <==> state is Some,
        state is Some ==> step->batch == Some(*state->0),
        step->finalization.digest == digest,
        step->finalization.round == round,
        step->Persist_acknowledgement == acknowledgement,
        final(actor).startup == old(actor).startup,
        final(actor).mode is Running,
        final(actor).mode->databases == old(actor).mode->databases,
        final(actor).mode->finalized_digest == old(actor).mode->finalized_digest,
        other == digest ==> after is None,
        other != digest ==> after == before,
{
}

/// A report of the block that was finalized last is acknowledged, and nothing changes.
pub proof fn law_duplicate_report_is_benign<const N: usize, A: Application>(
    actor: &mut Stateful<N, A>,
    digest: Digest<N>,
    round: Round,
    acknowledgement: A::Acknowledgement,
    step: FinalizeStep<N, A>,
)
    requires
        old(actor).mode is Running,
        old(actor).mode->finalized_digest == digest,
        call_ensures(
            Stateful::<N, A>::handle_finalized,
            (actor, digest, round, acknowledgement),
            step,
        ),
    ensures
        call_requires(
            Stateful::<N, A>::handle_finalized,
            (actor, digest, round, acknowledgement),
        ),
        *final(actor) == *old(actor),
        step == (FinalizeStep::<N, A>::Acknowledge { acknowledgement }),
{
}

/// After a finalization, a tip is pending, with its round and state, if and only if it was
/// before, is not the finalized block, and is of a later epoch, or of the same epoch with a
/// later view. The finalized block is the new anchor.
pub proof fn law_finalization_keeps_later_rounds<const N: usize, A: Application>(
    actor: &mut Stateful<N, A>,
    digest: Digest<N>,
    round: Round,
    acknowledgement: A::Acknowledgement,
    step: FinalizeStep<N, A>,
    persisted: &mut Stateful<N, A>,
    other: Digest<N>,
)
    requires
        old(actor).mode is Running,
        old(actor).mode->finalized_digest != digest,
        call_ensures(
            Stateful::<N, A>::handle_finalized,
            (actor, digest, round, acknowledgement),
            step,
        ),
        *old(persisted) == *final(actor),
        call_ensures(
            Stateful::<N, A>::complete_finalized,
            (persisted, step->finalization),
            (),
        ),
    ensures
        call_requires(Stateful::<N, A>::complete_finalized, (persisted, step->finalization)),
        ({
            let before = old(actor).mode->pending@;
            let after = final(persisted).mode->pending@;
            let (other_round, _) = before[other];
            let later = other_round.epoch > round.epoch || (other_round.epoch == round.epoch
                && other_round.view > round.view);
            &&& after.contains_key(other) <==> before.contains_key(other) && other != digest
                && later
            &&& after.contains_key(other) ==> after[other] == before[other]
            &&& final(persisted).mode is Running
            &&& final(persisted).mode->finalized_digest == digest
            &&& final(persisted).mode->databases == old(actor).mode->databases
            &&& final(persisted).startup == old(actor).startup
        }),
{
}

/// While syncing, a finalized block is held without an acknowledgement.
pub proof fn law_syncing_holds_acknowledgements<const N: usize, A: Application>(
    actor: &mut Stateful<N, A>,
    digest: Digest<N>,
    round: Round,
    acknowledgement: A::Acknowledgement,
    step: FinalizeStep<N, A>,
)
    requires
        old(actor).mode is Syncing,
        call_ensures(
            Stateful::<N, A>::handle_finalized,
            (actor, digest, round, acknowledgement),
            step,
        ),
    ensures
        call_requires(
            Stateful::<N, A>::handle_finalized,
            (actor, digest, round, acknowledgement),
        ),
        step is Held,
        final(actor).startup == old(actor).startup,
        final(actor).mode is Syncing,
        final(actor).mode->held_acks@ == old(actor).mode->held_acks@.push(acknowledgement),
        final(actor).mode->held_verify_responses == old(actor).mode->held_verify_responses,
        final(actor).mode->tip_sender == old(actor).mode->tip_sender,
{
}

/// A tip is forwarded, with its height, digest and targets, while syncing and if its block
/// could be fetched, and not otherwise.
pub proof fn law_tips_are_forwarded_while_syncing<const N: usize, A: Application>(
    actor: Stateful<N, A>,
    height: u64,
    digest: Digest<N>,
    targets: Option<A::SyncTargets>,
    wanted: bool,
    forward: Option<(&A::TipSender, SyncTip<N, A::SyncTargets>)>,
)
    requires
        call_ensures(Stateful::<N, A>::wants_tip, (&actor,), wanted),
        call_ensures(Stateful::<N, A>::handle_tip, (&actor, height, digest, targets), forward),
    ensures
        call_requires(Stateful::<N, A>::wants_tip, (&actor,)),
        call_requires(Stateful::<N, A>::handle_tip, (&actor, height, digest, targets)),
        wanted <==> actor.mode is Syncing,
        forward is Some <==> wanted && targets is Some,
        forward matches Some((sender, tip)) ==> *sender == actor.mode->tip_sender && tip.height
            == height && tip.digest == digest && tip.targets == targets->0,
{
}

/// When bootstrap has ended, the databases are attached to the configured resolvers while the
/// actor is still syncing, and only then does it run, with these databases, from the block that
/// it was given, and with no pending tips. What was held is handed out unanswered.
pub proof fn law_databases_are_attached_first<const N: usize, A: Application>(
    actor: &mut Stateful<N, A>,
    databases: A::Databases,
    attach: (&A::Resolvers, &A::Databases),
    attached: &mut Stateful<N, A>,
    finalized_digest: Digest<N>,
    held: Held<A>,
    digest: Digest<N>,
    resolvers: &A::Resolvers,
)
    requires
        old(actor).mode is Syncing,
        old(actor).startup is Started,
        call_ensures(Stateful::<N, A>::sync_resolvers, (old(actor),), resolvers),
        call_ensures(Stateful::<N, A>::attach_resolvers, (actor, databases), attach),
        *old(attached) == *final(actor),
        call_ensures(Stateful::<N, A>::handle_sync_complete, (attached, finalized_digest), held),
    ensures
        call_requires(Stateful::<N, A>::attach_resolvers, (actor, databases)),
        call_requires(Stateful::<N, A>::handle_sync_complete, (attached, finalized_digest)),
        old(actor).startup == (StartupState::<N, A>::Started { sync_resolvers: *resolvers }),
        *attach.0 == *resolvers,
        *attach.1 == databases,
        final(actor).mode == old(actor).mode,
        final(attached).startup == (StartupState::<N, A>::Complete { sync_resolvers: *resolvers }),
        final(attached).mode is Running,
        final(attached).mode->databases == databases,
        final(attached).mode->finalized_digest == finalized_digest,
        !final(attached).mode->pending@.contains_key(digest),
        held.verify_responses == old(actor).mode->held_verify_responses,
        held.acknowledgements == old(actor).mode->held_acks,
{
}

/// The held responses are those of a syncing actor; a running actor holds none.
pub proof fn law_held_responses_are_shown<const N: usize, A: Application>(
    actor: Stateful<N, A>,
    held: &[A::VerifyResponse],
)
    requires
        call_ensures(Stateful::<N, A>::held_verify_responses, (&actor,), held),
    ensures
        call_requires(Stateful::<N, A>::held_verify_responses, (&actor,)),
        actor.mode is Syncing ==> held@ == actor.mode->held_verify_responses@,
        actor.mode is Running ==> held@.len() == 0,
{
}

/// A report of a block passes the block and its acknowledgement on, and a report of a tip its
/// height and digest.
pub proof fn law_reports_are_passed_on<const N: usize, A: Application>(
    round: Round,
    height: u64,
    digest: Digest<N>,
    tip: Message<N, A>,
    block: Block<N, A::Body>,
    acknowledgement: A::Acknowledgement,
    finalized: Message<N, A>,
)
    requires
        call_ensures(report::<N, A>, (Update::Tip { round, height, digest },), tip),
        call_ensures(report::<N, A>, (Update::Block { block, acknowledgement },), finalized),
    ensures
        call_requires(report::<N, A>, (Update::Tip { round, height, digest },)),
        call_requires(report::<N, A>, (Update::Block { block, acknowledgement },)),
        tip == (Message::<N, A>::Tip { height, digest }),
        finalized == (Message::<N, A>::Finalized { block, acknowledgement }),
{
}

/// An answer is passed on, and no answer is a negative one.
pub proof fn law_no_answer_is_a_negative_answer<B>(
    built: Option<Option<B>>,
    block: Option<B>,
    answer: Option<bool>,
    valid: bool,
)
    requires
        call_ensures(proposal::<B>, (built,), block),
        call_ensures(verdict, (answer,), valid),
    ensures
        call_requires(proposal::<B>, (built,)),
        call_requires(verdict, (answer,)),
        built is None ==> block is None,
        built is Some ==> block == built->0,
        answer is None ==> !valid,
        answer is Some ==> valid == answer->0,
{
}

} // verus!
