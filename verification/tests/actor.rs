//! The actor: requests, reports and the end of state sync.

use commonware_cryptography::{Hasher, Sha256};
use stateful::db::SyncEngineConfig;
use stateful::stateful::actor::{
    Config, FinalizeStep, Held, Startup, StartupState, StateSyncConfig, Stateful, VerifyStep,
};
use stateful::stateful::bootstrap::{self, SyncTip};
use stateful::stateful::job::{Action, Event, Step};
use stateful::stateful::mailbox::{proposal, report, verdict, Message, Update};
use stateful::stateful::mode::{Fork, Mode};
use stateful::stateful::pending::Pending;
use stateful::stateful::{Application, Block};
use stateful::types::{Digest, Round};
use std::cell::Cell;
use std::ops::Range;
use std::rc::Rc;
use std::sync::mpsc::{sync_channel, Receiver, SyncSender};

type Targets = Vec<(Digest<32>, Range<u64>)>;

#[derive(Clone)]
struct LifecycleResolver {
    attached: Rc<Cell<bool>>,
}

impl LifecycleResolver {
    fn new() -> Self {
        Self { attached: Rc::new(Cell::new(false)) }
    }

    fn attach_databases(&self, _databases: &str) {
        self.attached.set(true);
    }

    fn get_operations(&self) -> Result<(), &'static str> {
        if self.attached.get() {
            Ok(())
        } else {
            Err("resolver not attached")
        }
    }
}

struct TestApp;

impl Application for TestApp {
    type Body = ();
    type Merkleized = u64;
    type Databases = &'static str;
    type DbConfig = &'static str;
    type SyncTargets = Targets;
    type Resolvers = LifecycleResolver;
    type VerifyResponse = u8;
    type Acknowledgement = u8;
    type TipSender = SyncSender<SyncTip<32, Targets>>;
    type TipReceiver = Receiver<SyncTip<32, Targets>>;
}

fn hash(bytes: &[u8]) -> Digest<32> {
    Digest { bytes: Sha256::hash(bytes).0 }
}

fn round(view: u64) -> Round {
    Round { epoch: 0, view }
}

fn make_block(height: u64, parent: Digest<32>) -> Block<32, ()> {
    let mut bytes = parent.bytes.to_vec();
    bytes.extend(height.to_be_bytes());
    Block { digest: hash(&bytes), parent, height, round: round(height), body: () }
}

fn sync_targets(block: &Block<32, ()>) -> Targets {
    vec![(block.digest, 0..100)]
}

fn sync_config() -> SyncEngineConfig {
    SyncEngineConfig {
        fetch_batch_size: 1,
        apply_batch_size: 1,
        max_outstanding_requests: 1,
        update_channel_size: 1,
    }
}

fn init_with(
    startup: Startup<Block<32, ()>>,
    resolver: LifecycleResolver,
) -> Stateful<32, TestApp> {
    let (tip_sender, tip_updates) = sync_channel(1);
    Stateful::init(
        Config {
            db_config: "config",
            state_sync: StateSyncConfig {
                partition_prefix: "test".to_string(),
                startup,
                resolvers: resolver,
                sync_config: sync_config(),
            },
        },
        tip_sender,
        tip_updates,
    )
}

fn init() -> Stateful<32, TestApp> {
    init_with(Startup::Fresh, LifecycleResolver::new())
}

fn running(pending: Pending<32, u64>, finalized_digest: Digest<32>) -> Stateful<32, TestApp> {
    let mut actor = init();
    actor.mode = Mode::Running { databases: "databases", pending, finalized_digest };
    actor
}

fn pending_of(actor: &Stateful<32, TestApp>) -> &Pending<32, u64> {
    match &actor.mode {
        Mode::Running { pending, .. } => pending,
        Mode::Syncing { .. } => panic!("syncing"),
    }
}

fn handle_tip(
    actor: &Stateful<32, TestApp>,
    height: u64,
    digest: Digest<32>,
    fetch_block: &dyn Fn(Digest<32>) -> Option<Block<32, ()>>,
) {
    if !actor.wants_tip() {
        return;
    }
    let targets = fetch_block(digest).map(|block| sync_targets(&block));
    if let Some((sender, tip)) = actor.handle_tip(height, digest, targets) {
        let _ = sender.try_send(tip);
    }
}

/// Performs the attach that the actor asks for, and then completes state sync.
fn sync_complete(
    actor: &mut Stateful<32, TestApp>,
    databases: &'static str,
    finalized_digest: Digest<32>,
) -> Held<TestApp> {
    let (resolvers, databases) = actor.attach_resolvers(databases);
    resolvers.attach_databases(databases);
    actor.handle_sync_complete(finalized_digest)
}

#[test]
fn tip_in_syncing_mode_forwards_targets() {
    let genesis_digest = hash(b"genesis");
    let block1 = make_block(1, genesis_digest);
    let (target_tx, target_rx) = sync_channel(1);

    let mut actor = init();
    if let Mode::Syncing { tip_sender, .. } = &mut actor.mode {
        *tip_sender = target_tx;
    }
    handle_tip(&actor, block1.height, block1.digest, &|digest| {
        assert_ne!(digest, genesis_digest);
        Some(make_block(1, genesis_digest))
    });

    let received = target_rx.try_recv().expect("tip should be forwarded");
    assert_eq!(received.height, block1.height);
    assert_eq!(received.digest, block1.digest);
    assert_eq!(received.targets.len(), 1);
    assert_eq!(received.targets[0].0, block1.digest);
    assert_eq!(received.targets[0].1, 0..100);
}

#[test]
fn tip_in_running_mode_is_noop() {
    let genesis_digest = hash(b"genesis");
    let block1 = make_block(1, genesis_digest);
    let (_target_tx, target_rx) = sync_channel::<SyncTip<32, Targets>>(1);

    let actor = running(Pending::new(), genesis_digest);
    handle_tip(&actor, block1.height, block1.digest, &|_| {
        panic!("provider should not be queried once running")
    });
    assert!(target_rx.try_recv().is_err(), "no target should be sent in running mode");
    assert!(actor.handle_tip(1, block1.digest, Some(sync_targets(&block1))).is_none());
}

#[test]
fn tip_without_its_block_is_skipped() {
    let actor = init();
    assert!(actor.wants_tip());
    assert!(actor.handle_tip(1, hash(b"block"), None).is_none());
}

#[test]
fn resolver_denies_pre_sync_complete() {
    let resolver = LifecycleResolver::new();
    let _actor = init_with(Startup::Fresh, resolver.clone());
    assert_eq!(resolver.get_operations(), Err("resolver not attached"));
}

#[test]
fn resolver_serves_post_sync_complete() {
    let resolver = LifecycleResolver::new();
    let mut actor = init_with(Startup::Fresh, resolver.clone());
    actor.startup = StartupState::Started { sync_resolvers: resolver.clone() };

    sync_complete(&mut actor, "databases", make_block(0, Digest { bytes: [0; 32] }).digest);
    assert_eq!(resolver.get_operations(), Ok(()));
}

#[test]
fn databases_are_attached_before_the_actor_runs() {
    let resolver = LifecycleResolver::new();
    let mut actor = init_with(Startup::Fresh, resolver.clone());
    actor.start(None);
    let (resolvers, databases) = actor.attach_resolvers("databases");
    assert_eq!(*databases, "databases");
    resolvers.attach_databases(databases);
    assert_eq!(resolver.get_operations(), Ok(()));
    assert!(matches!(actor.mode, Mode::Syncing { .. }));
    assert!(matches!(actor.startup, StartupState::Attached { databases: "databases", .. }));

    actor.handle_sync_complete(hash(b"tip"));
    assert!(matches!(actor.mode, Mode::Running { databases: "databases", .. }));
    assert!(matches!(actor.startup, StartupState::Complete { .. }));
}

#[test]
fn start_hands_out_the_bootstrap_inputs() {
    let mut actor = init();
    assert!(actor.sync_block().is_none());
    let config = actor.start(None);
    assert_eq!(config.db_config, "config");
    assert_eq!(config.metadata_partition, "test_state_sync_metadata");
    assert_eq!(config.sync_config.update_channel_size, 1);
    assert!(matches!(config.startup, bootstrap::Startup::Fresh));
    assert!(matches!(actor.startup, StartupState::Started { .. }));

    let block = make_block(9, hash(b"parent"));
    let digest = block.digest;
    let mut actor = init_with(Startup::Sync { block }, LifecycleResolver::new());
    let targets = sync_targets(actor.sync_block().unwrap());
    let config = actor.start(Some(targets));
    match config.startup {
        bootstrap::Startup::Sync { initial_tip, .. } => {
            assert_eq!(initial_tip.height, 9);
            assert_eq!(initial_tip.digest, digest);
            assert_eq!(initial_tip.targets, vec![(digest, 0..100)]);
        }
        bootstrap::Startup::Fresh => panic!("startup begins with state sync"),
    }
}

#[test]
fn syncing_rejects_proposals_and_holds_the_rest() {
    let mut actor = init();
    assert!(matches!(
        actor.handle_propose(Some(hash(b"parent")), round(1)),
        Step::Reply { accept: false }
    ));

    // Responses that nobody waits for are dropped as new ones come.
    for (response, closed) in [(1, vec![]), (2, vec![false]), (3, vec![false, false])] {
        assert!(matches!(
            actor.handle_verify(response, &closed, None, round(1)),
            VerifyStep::Held
        ));
    }
    assert_eq!(actor.held_verify_responses(), &[1, 2, 3]);
    let block = Some((hash(b"block"), hash(b"parent")));
    assert!(matches!(
        actor.handle_verify(4, &vec![true, false, true], block, round(1)),
        VerifyStep::Held
    ));
    assert_eq!(actor.held_verify_responses(), &[2, 4]);

    for acknowledgement in [10, 11] {
        assert!(matches!(
            actor.handle_finalized(hash(b"block"), round(1), acknowledgement),
            FinalizeStep::Held
        ));
    }

    actor.start(None);
    let held = sync_complete(&mut actor, "databases", hash(b"tip"));
    assert_eq!(held.verify_responses, vec![2, 4]);
    assert_eq!(held.acknowledgements, vec![10, 11]);
    assert!(actor.held_verify_responses().is_empty());
    assert!(matches!(actor.mode.fork_batches(&hash(b"tip")), Ok(Fork::Committed(&"databases"))));
    assert!(!actor.mode.is_known(&hash(b"block")));
}

#[test]
fn requests_without_ancestry_are_turned_down() {
    let mut actor = running(Pending::new(), hash(b"tip"));
    assert!(matches!(actor.handle_propose(None, round(1)), Step::Reply { accept: false }));
    assert!(matches!(
        actor.handle_verify(7, &vec![], None, round(1)),
        VerifyStep::Begun { response: 7, step: Step::Reply { accept: false } }
    ));
}

/// Runs a request to its end. The state of a replayed block is its height.
fn run(
    actor: &mut Stateful<32, TestApp>,
    step: Step<32, TestApp>,
    blocks: &[Block<32, ()>],
    executed: Option<Event<32, TestApp>>,
) -> Option<bool> {
    let mut step = step;
    let mut executed = executed;
    loop {
        let (job, action) = match step {
            Step::Continue { job, action } => (job, action),
            Step::Reply { accept } => return Some(accept),
            Step::Abandon => return None,
        };
        let event = match action {
            Action::Fetch { digest } => Event::Fetched {
                block: blocks.iter().find(|block| block.digest == digest).map(|block| Block {
                    digest,
                    parent: block.parent,
                    height: block.height,
                    round: block.round,
                    body: (),
                }),
            },
            Action::Fork { parent } => {
                assert!(actor.mode.fork_batches(&parent).is_ok());
                Event::Forked
            }
            Action::Apply => match &job.stage {
                stateful::stateful::job::Stage::Rebuild { rebuild } => {
                    Event::Applied { merkleized: rebuild.to_replay.last().unwrap().height }
                }
                _ => panic!("only a rebuild applies blocks"),
            },
            Action::Execute => match executed.take() {
                Some(event) => event,
                None => Event::Cancelled,
            },
        };
        step = actor.mode.resume(job, event);
    }
}

#[test]
fn proposed_block_becomes_a_pending_tip() {
    let tip = hash(b"tip");
    let built = hash(b"built");
    let mut actor = running(Pending::new(), tip);
    let step = actor.handle_propose(Some(tip), round(5));
    let event = Event::Proposed { built: Some((built, 50)) };
    assert_eq!(run(&mut actor, step, &[], Some(event)), Some(true));
    assert_eq!(pending_of(&actor).get_merkleized(&built), Some(&50));

    // A failed build leaves nothing behind.
    let step = actor.handle_propose(Some(built), round(6));
    assert_eq!(run(&mut actor, step, &[], Some(Event::Proposed { built: None })), Some(false));

    // So does a request whose caller is gone.
    let step = actor.handle_propose(Some(built), round(6));
    assert_eq!(run(&mut actor, step, &[], None), None);
}

#[test]
fn verified_block_becomes_a_pending_tip() {
    let tip = hash(b"tip");
    let block2 = make_block(2, tip);
    let block3 = make_block(3, block2.digest);
    let block4 = hash(b"block4");
    let blocks = [make_block(2, tip), make_block(3, block2.digest)];
    let mut actor = running(Pending::new(), tip);

    // The parent's state is missing, and is rebuilt first.
    let step = match actor.handle_verify(1, &vec![], Some((block4, block3.digest)), round(4)) {
        VerifyStep::Begun { response: 1, step } => step,
        _ => panic!("a running actor processes the request"),
    };
    let event = Event::Verified { valid: Some(40) };
    assert_eq!(run(&mut actor, step, &blocks, Some(event)), Some(true));
    assert_eq!(pending_of(&actor).get_merkleized(&block2.digest), Some(&2));
    assert_eq!(pending_of(&actor).get_merkleized(&block3.digest), Some(&3));
    assert_eq!(pending_of(&actor).get_merkleized(&block4), Some(&40));

    // An invalid block leaves nothing behind.
    let bad = hash(b"bad");
    let step = match actor.handle_verify(2, &vec![], Some((bad, block4)), round(5)) {
        VerifyStep::Begun { response: 2, step } => step,
        _ => panic!("a running actor processes the request"),
    };
    assert_eq!(run(&mut actor, step, &blocks, Some(Event::Verified { valid: None })), Some(false));
    assert!(!pending_of(&actor).contains(&bad));
}

#[test]
fn request_on_a_dead_fork_is_turned_down() {
    let block1 = make_block(1, hash(b"genesis"));
    let block2 = make_block(2, block1.digest);
    let parent = block2.digest;
    let mut actor = running(Pending::new(), hash(b"other"));
    let step = actor.handle_propose(Some(parent), round(3));
    assert_eq!(run(&mut actor, step, &[block1, block2], None), Some(false));
}

#[test]
fn finalization_persists_the_pending_tip_and_prunes() {
    let tip = hash(b"tip");
    let winner = hash(b"winner");
    let sibling = hash(b"sibling");
    let older = hash(b"older");
    let child = hash(b"child");
    let next_epoch = hash(b"next epoch");
    let mut pending = Pending::new();
    pending.insert(older, Round { epoch: 1, view: 9 }, 1);
    pending.insert(winner, Round { epoch: 2, view: 5 }, 2);
    pending.insert(sibling, Round { epoch: 2, view: 5 }, 3);
    pending.insert(child, Round { epoch: 2, view: 6 }, 4);
    pending.insert(next_epoch, Round { epoch: 3, view: 0 }, 5);
    let mut actor = running(pending, tip);

    let finalization = match actor.handle_finalized(winner, Round { epoch: 2, view: 5 }, 7) {
        FinalizeStep::Persist { batch: Some(2), finalization, acknowledgement: 7 } => finalization,
        _ => panic!("the pending batch is persisted"),
    };
    actor.complete_finalized(finalization);
    assert!(matches!(actor.mode.fork_batches(&winner), Ok(Fork::Committed(&"databases"))));
    assert!(!actor.mode.is_known(&tip));
    assert!(!actor.mode.is_known(&older));
    assert!(!actor.mode.is_known(&sibling));
    assert_eq!(pending_of(&actor).get_merkleized(&child), Some(&4));
    assert_eq!(pending_of(&actor).get_merkleized(&next_epoch), Some(&5));

    // A second report of the same block changes nothing.
    assert!(matches!(
        actor.handle_finalized(winner, Round { epoch: 9, view: 9 }, 8),
        FinalizeStep::Acknowledge { acknowledgement: 8 }
    ));
    assert_eq!(pending_of(&actor).get_merkleized(&child), Some(&4));
}

#[test]
fn finalization_without_pending_state_applies_the_block() {
    let tip = hash(b"tip");
    let block = hash(b"block");
    let mut actor = running(Pending::new(), tip);
    let finalization = match actor.handle_finalized(block, round(1), 7) {
        FinalizeStep::Persist { batch: None, finalization, .. } => finalization,
        _ => panic!("the block is applied on top of the committed state"),
    };
    assert!(actor.mode.is_known(&tip));
    actor.complete_finalized(finalization);
    assert!(actor.mode.is_known(&block));
    assert!(!actor.mode.is_known(&tip));
}

#[test]
fn pending_tips_are_replaced_and_removed() {
    let mut pending: Pending<32, u64> = Pending::new();
    let block = hash(b"block");
    assert!(!pending.contains(&block));
    assert!(pending.remove(&block).is_none());
    pending.insert(block, round(1), 1);
    pending.insert(block, round(2), 2);
    assert_eq!(pending.get_merkleized(&block), Some(&2));
    assert_eq!(pending.remove(&block), Some((round(2), 2)));
    assert!(!pending.contains(&block));
}

#[test]
fn pruning_for_an_earlier_round_first_makes_no_difference() {
    let blocks = [hash(b"a"), hash(b"b"), hash(b"c")];
    let mut once: Pending<32, u64> = Pending::new();
    let mut twice: Pending<32, u64> = Pending::new();
    for (i, block) in blocks.iter().enumerate() {
        once.insert(*block, round(i as u64), 0);
        twice.insert(*block, round(i as u64), 0);
    }
    once.retain_newer_than(round(1));
    twice.retain_newer_than(round(0));
    twice.retain_newer_than(round(1));
    for (block, kept) in blocks.iter().zip([false, false, true]) {
        assert_eq!(once.contains(block), kept);
        assert_eq!(twice.contains(block), kept);
    }
}

#[test]
fn rounds_are_ordered_by_epoch_then_view() {
    let at = |epoch, view| Round { epoch, view };
    assert!(at(1, 0).is_newer_than(&at(0, 9)));
    assert!(at(1, 2).is_newer_than(&at(1, 1)));
    assert!(!at(1, 1).is_newer_than(&at(1, 1)));
    assert!(!at(1, 1).is_newer_than(&at(1, 2)));
    assert!(!at(0, 9).is_newer_than(&at(1, 0)));
}

#[test]
fn reports_are_passed_on_without_acknowledgement() {
    let block = make_block(4, hash(b"parent"));
    let digest = block.digest;
    let update: Update<32, TestApp> = Update::Tip { round: round(9), height: 4, digest };
    assert!(matches!(report(update), Message::Tip { height: 4, digest: d } if d == digest));
    let update: Update<32, TestApp> = Update::Block { block, acknowledgement: 3 };
    match report(update) {
        Message::Finalized { block, acknowledgement } => {
            assert_eq!(block.digest, digest);
            assert_eq!(acknowledgement, 3);
        }
        Message::Tip { .. } => panic!("a block is reported as finalized"),
    }
}

#[test]
fn no_answer_is_a_negative_answer() {
    assert_eq!(proposal::<u8>(None), None);
    assert_eq!(proposal::<u8>(Some(None)), None);
    assert_eq!(proposal(Some(Some(1))), Some(1));
    assert!(!verdict(None));
    assert!(!verdict(Some(false)));
    assert!(verdict(Some(true)));
}
