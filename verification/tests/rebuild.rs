//! Lazy recovery of pending state.

use commonware_codec::Encode;
use commonware_consensus::simplex::types::Context as ConsensusContext;
use commonware_consensus::types::{Epoch, Round as ConsensusRound, View};
use commonware_cryptography::{ed25519, sha256, Hasher, Sha256, Signer};
use stateful::stateful::mode::{Fork, Mode, PrepareBatchesError};
use stateful::stateful::pending::Pending;
use stateful::stateful::rebuild::{Rebuild, RebuildEvent, RebuildStage, RebuildStep};
use stateful::stateful::{Application, Block};
use stateful::types::{Digest, Round};
use std::collections::BTreeMap;

struct TestApp;

impl Application for TestApp {
    type Body = &'static str;
    type Merkleized = u64;
    type Databases = &'static str;
    type DbConfig = ();
    type SyncTargets = ();
    type Resolvers = ();
    type VerifyResponse = ();
    type Acknowledgement = ();
    type TipSender = ();
    type TipReceiver = ();
}

type TestBlock = Block<32, &'static str>;
type Blocks = BTreeMap<[u8; 32], TestBlock>;

fn digest_of(digest: sha256::Digest) -> Digest<32> {
    Digest { bytes: digest.0 }
}

fn hash(bytes: &[u8]) -> Digest<32> {
    digest_of(Sha256::hash(bytes))
}

fn make_block(height: u64, parent: Digest<32>, view: u64) -> TestBlock {
    let parent_digest = sha256::Digest::from(parent.bytes);
    let context: ConsensusContext<sha256::Digest, ed25519::PublicKey> = ConsensusContext {
        round: ConsensusRound::new(Epoch::zero(), View::new(view)),
        leader: ed25519::PrivateKey::from_seed(0).public_key(),
        parent: (View::new(if view == 0 { 0 } else { view - 1 }), parent_digest),
    };
    let mut hasher = Sha256::new();
    hasher.update(&parent.bytes);
    hasher.update(&height.to_be_bytes());
    hasher.update(&context.encode());
    Block {
        digest: digest_of(hasher.finalize()),
        parent,
        height,
        round: Round { epoch: 0, view },
        body: "transactions",
    }
}

fn copy(block: &TestBlock) -> TestBlock {
    Block {
        digest: block.digest,
        parent: block.parent,
        height: block.height,
        round: block.round,
        body: block.body,
    }
}

fn store(blocks: &[&TestBlock]) -> Blocks {
    blocks.iter().map(|block| (block.digest.bytes, copy(block))).collect()
}

fn running(pending: Pending<32, u64>, finalized_digest: Digest<32>) -> Mode<32, TestApp> {
    Mode::Running { databases: "databases", pending, finalized_digest }
}

/// Runs a rebuild to its end. The state of a block is its height.
fn rebuild_pending(
    mode: &mut Mode<32, TestApp>,
    target: Digest<32>,
    fetch_block: &mut dyn FnMut(Digest<32>) -> Option<TestBlock>,
    is_cancelled: &mut dyn FnMut(&RebuildStep<32>) -> bool,
) -> Result<(), PrepareBatchesError> {
    let (mut rebuild, mut step) = Rebuild::start(target, mode);
    loop {
        if let RebuildStep::Done { result } = step {
            return result;
        }
        if is_cancelled(&step) {
            step = rebuild.resume(mode, RebuildEvent::Cancelled);
            continue;
        }
        let event = match step {
            RebuildStep::Fetch { digest } => RebuildEvent::Fetched { block: fetch_block(digest) },
            RebuildStep::Fork { parent } => {
                assert!(mode.fork_batches(&parent).is_ok());
                RebuildEvent::Forked
            }
            RebuildStep::Apply => RebuildEvent::Applied {
                merkleized: rebuild.to_replay.last().unwrap().height,
            },
            RebuildStep::Done { .. } => unreachable!(),
        };
        step = rebuild.resume(mode, event);
    }
}

fn pending_state(mode: &Mode<32, TestApp>, digest: Digest<32>) -> Option<u64> {
    match mode {
        Mode::Running { pending, .. } => pending.get_merkleized(&digest).copied(),
        Mode::Syncing { .. } => None,
    }
}

#[test]
fn rebuild_pending_never_requests_genesis_from_provider() {
    let genesis_digest = hash(b"genesis");
    let block1 = make_block(1, genesis_digest, 1);
    let block2 = make_block(2, block1.digest, 2);
    let blocks = store(&[&block1, &block2]);

    let mut mode = running(Pending::new(), hash(b"other-finalized-tip"));
    let rebuilt = rebuild_pending(
        &mut mode,
        block2.digest,
        &mut |digest| {
            assert_ne!(
                digest, genesis_digest,
                "stateful rebuild requested genesis digest from block provider"
            );
            blocks.get(&digest.bytes).map(copy)
        },
        &mut |_| false,
    );
    assert_eq!(
        rebuilt,
        Err(PrepareBatchesError::Invalid),
        "stale fork should fail to rebuild safely"
    );
}

#[test]
fn rebuild_pending_retries_transient_fetch_none() {
    let genesis_digest = hash(b"genesis");
    let block1 = make_block(1, genesis_digest, 1);
    let block2 = make_block(2, block1.digest, 2);
    let blocks = store(&[&block1, &block2]);
    let mut attempts = 0;
    let mut first_miss = true;

    let mut mode = running(Pending::new(), block1.digest);
    let rebuilt = rebuild_pending(
        &mut mode,
        block2.digest,
        &mut |digest| {
            if digest == block2.digest {
                attempts += 1;
                if first_miss {
                    first_miss = false;
                    return None;
                }
            }
            blocks.get(&digest.bytes).map(copy)
        },
        &mut |_| false,
    );
    assert_eq!(rebuilt, Ok(()), "rebuild should succeed after retrying transient miss");
    assert!(attempts >= 2, "expected at least two fetch attempts for flaky digest");
    assert_eq!(pending_state(&mode, block2.digest), Some(2));
}

#[test]
fn rebuild_pending_stops_on_cancellation() {
    let genesis_digest = hash(b"genesis");
    let block1 = make_block(1, genesis_digest, 1);
    let block2 = make_block(2, block1.digest, 2);

    let mut mode = running(Pending::new(), block1.digest);
    let rebuilt = rebuild_pending(&mut mode, block2.digest, &mut |_| None, &mut |_| true);
    assert_eq!(
        rebuilt,
        Err(PrepareBatchesError::Cancelled),
        "rebuild should stop when verification/proposal request is cancelled"
    );
}

#[test]
fn rebuild_pending_cancels_during_replay() {
    let genesis_digest = hash(b"genesis");
    let block1 = make_block(1, genesis_digest, 1);
    let block2 = make_block(2, block1.digest, 2);
    let blocks = store(&[&block1, &block2]);
    let mut started = false;

    let mut mode = running(Pending::new(), block1.digest);
    let rebuilt = rebuild_pending(
        &mut mode,
        block2.digest,
        &mut |digest| {
            assert_ne!(
                digest, genesis_digest,
                "stateful rebuild requested genesis digest from block provider"
            );
            blocks.get(&digest.bytes).map(copy)
        },
        &mut |step| {
            started = matches!(step, RebuildStep::Apply);
            started
        },
    );
    assert!(started);
    assert_eq!(
        rebuilt,
        Err(PrepareBatchesError::Cancelled),
        "rebuild should stop when cancelled mid-replay"
    );
    assert_eq!(pending_state(&mode, block2.digest), None);
}

#[test]
fn rebuild_pending_prefers_local_pending_anchor_before_fetch() {
    let genesis_digest = hash(b"genesis");
    let block1 = make_block(1, genesis_digest, 1);
    let block2 = make_block(2, block1.digest, 2);

    let mut pending = Pending::new();
    pending.insert(block2.digest, Round { epoch: 0, view: 2 }, 2);
    let mut mode = running(pending, block1.digest);
    let rebuilt = rebuild_pending(
        &mut mode,
        block2.digest,
        &mut |_| panic!("provider should not be queried when current digest is already pending"),
        &mut |_| false,
    );
    assert_eq!(
        rebuilt,
        Ok(()),
        "rebuild should anchor on existing pending state without provider fetch"
    );
}

#[test]
fn replay_fills_the_gap_in_ascending_order() {
    let block1 = make_block(1, hash(b"genesis"), 1);
    let block2 = make_block(2, block1.digest, 2);
    let block3 = make_block(3, block2.digest, 4);
    let block4 = make_block(4, block3.digest, 5);
    let blocks = store(&[&block2, &block3, &block4]);

    let mut mode = running(Pending::new(), block1.digest);
    let mut fetched = Vec::new();
    let mut steps = Vec::new();
    let rebuilt = rebuild_pending(
        &mut mode,
        block4.digest,
        &mut |digest| {
            fetched.push(digest);
            blocks.get(&digest.bytes).map(copy)
        },
        &mut |step| {
            if let RebuildStep::Fork { parent } = step {
                steps.push(*parent);
            }
            false
        },
    );
    assert_eq!(rebuilt, Ok(()));
    assert_eq!(fetched, vec![block4.digest, block3.digest, block2.digest]);
    assert_eq!(steps, vec![block1.digest, block2.digest, block3.digest]);
    assert_eq!(pending_state(&mode, block2.digest), Some(2));
    assert_eq!(pending_state(&mode, block3.digest), Some(3));
    assert_eq!(pending_state(&mode, block4.digest), Some(4));
}

#[test]
fn partial_progress_survives_a_cancellation() {
    let block1 = make_block(1, hash(b"genesis"), 1);
    let block2 = make_block(2, block1.digest, 2);
    let block3 = make_block(3, block2.digest, 3);
    let blocks = store(&[&block2, &block3]);

    let mut mode = running(Pending::new(), block1.digest);
    let mut applies = 0;
    let first = rebuild_pending(
        &mut mode,
        block3.digest,
        &mut |digest| blocks.get(&digest.bytes).map(copy),
        &mut |step| {
            if matches!(step, RebuildStep::Apply) {
                applies += 1;
            }
            applies == 2
        },
    );
    assert_eq!(first, Err(PrepareBatchesError::Cancelled));
    assert_eq!(pending_state(&mode, block2.digest), Some(2));
    assert_eq!(pending_state(&mode, block3.digest), None);

    let mut fetched = Vec::new();
    let second = rebuild_pending(
        &mut mode,
        block3.digest,
        &mut |digest| {
            fetched.push(digest);
            blocks.get(&digest.bytes).map(copy)
        },
        &mut |_| false,
    );
    assert_eq!(second, Ok(()));
    assert_eq!(fetched, vec![block3.digest]);
    assert_eq!(pending_state(&mode, block3.digest), Some(3));
}

#[test]
fn replay_stops_at_a_block_whose_parent_is_unknown() {
    let block1 = make_block(1, hash(b"genesis"), 1);
    let block2 = make_block(2, block1.digest, 2);
    let other = make_block(2, block1.digest, 3);
    let block3 = make_block(3, block2.digest, 4);

    // The provider answers the request for the second block with another child of
    // the first one.
    let mut mode = running(Pending::new(), block1.digest);
    let rebuilt = rebuild_pending(
        &mut mode,
        block3.digest,
        &mut |digest| Some(copy(if digest == block3.digest { &block3 } else { &other })),
        &mut |_| false,
    );
    assert_eq!(rebuilt, Err(PrepareBatchesError::Invalid));
    assert_eq!(pending_state(&mode, other.digest), Some(2));
    assert_eq!(pending_state(&mode, block3.digest), None);
}

#[test]
fn the_walk_ends_at_height_one() {
    let block1 = make_block(1, hash(b"genesis"), 1);
    let mut mode = running(Pending::new(), hash(b"other"));
    let (mut rebuild, step) = Rebuild::start(block1.digest, &mode);
    assert!(matches!(step, RebuildStep::Fetch { digest } if digest == block1.digest));
    let step = rebuild.resume(&mut mode, RebuildEvent::Fetched { block: Some(block1) });
    assert!(matches!(step, RebuildStep::Done { result: Err(PrepareBatchesError::Invalid) }));
    assert_eq!(rebuild.stage, RebuildStage::Walk);

    // A block of height two whose parent is the anchor is replayed.
    let anchor = hash(b"other");
    let block2 = make_block(2, anchor, 2);
    let (mut rebuild, _) = Rebuild::start(block2.digest, &mode);
    let step = rebuild.resume(&mut mode, RebuildEvent::Fetched { block: Some(block2) });
    assert!(matches!(step, RebuildStep::Fork { parent } if parent == anchor));
    assert_eq!(rebuild.stage, RebuildStage::Fork);
}

#[test]
fn first_block_on_a_finalized_genesis_is_replayed() {
    let genesis = hash(b"genesis");
    let block1 = make_block(1, genesis, 1);
    let block2 = make_block(2, block1.digest, 2);
    let blocks = store(&[&block1, &block2]);

    let mut mode = running(Pending::new(), genesis);
    let rebuilt = rebuild_pending(
        &mut mode,
        block1.digest,
        &mut |digest| blocks.get(&digest.bytes).map(copy),
        &mut |_| false,
    );
    assert_eq!(rebuilt, Ok(()));
    assert_eq!(pending_state(&mode, block1.digest), Some(1));

    // So is a longer chain, without a request for genesis.
    let mut mode = running(Pending::new(), genesis);
    let mut asked = Vec::new();
    let rebuilt = rebuild_pending(
        &mut mode,
        block2.digest,
        &mut |digest| {
            asked.push(digest);
            blocks.get(&digest.bytes).map(copy)
        },
        &mut |_| false,
    );
    assert_eq!(rebuilt, Ok(()));
    assert_eq!(asked, vec![block2.digest, block1.digest]);
    assert_eq!(pending_state(&mode, block1.digest), Some(1));
    assert_eq!(pending_state(&mode, block2.digest), Some(2));
}

#[test]
fn batches_fork_from_pending_before_committed_state() {
    let tip = hash(b"tip");
    let mode = running(Pending::new(), tip);
    assert!(matches!(mode.fork_batches(&tip), Ok(Fork::Committed(&"databases"))));
    assert!(matches!(mode.fork_batches(&hash(b"other")), Err(PrepareBatchesError::Invalid)));

    let mut pending = Pending::new();
    pending.insert(tip, Round { epoch: 0, view: 1 }, 7);
    let mode = running(pending, tip);
    assert!(matches!(mode.fork_batches(&tip), Ok(Fork::Pending(7))));
}
