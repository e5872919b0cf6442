//! One-time startup.

use stateful::db::{finalize_failure, sync_failure};
use stateful::message::decimal;
use stateful::stateful::bootstrap::{
    bootstrap, Action, Anchor, Bootstrap, BootstrapError, Event, Follower, Startup, SyncTip,
};
use stateful::stateful::Application;
use stateful::types::Digest;

struct TestApp;

impl Application for TestApp {
    type Body = ();
    type Merkleized = ();
    type Databases = &'static str;
    type DbConfig = ();
    type SyncTargets = u64;
    type Resolvers = ();
    type VerifyResponse = ();
    type Acknowledgement = ();
    type TipSender = ();
    type TipReceiver = &'static str;
}

fn digest(byte: u8) -> Digest<1> {
    Digest { bytes: [byte] }
}

fn sync_from(height: u64) -> Startup<1, TestApp> {
    Startup::Sync {
        initial_tip: SyncTip { height, digest: digest(1), targets: 77 },
        tip_updates: "tips",
    }
}

fn step(
    state: (Bootstrap<1, TestApp>, Action<1, TestApp>),
    event: Event<1, TestApp>,
) -> (Bootstrap<1, TestApp>, Action<1, TestApp>) {
    state.0.resume(event)
}

#[test]
fn fresh_startup_marks_and_starts_at_genesis() {
    let state = bootstrap(false, Startup::Fresh);
    assert!(matches!(state.1, Action::OpenDatabases));
    let state = step(state, Event::Opened { databases: "fresh" });
    assert!(matches!(state.1, Action::MarkDone));
    assert!(!state.0.sync_done);
    let state = step(state, Event::Marked);
    assert!(matches!(state.1, Action::AskGenesis));
    assert!(state.0.sync_done);
    let state = step(state, Event::Genesis { digest: digest(9) });
    assert!(
        matches!(state.1, Action::Complete { databases: "fresh", digest: d } if d == digest(9))
    );
}

#[test]
fn restart_anchors_at_the_processed_block() {
    let state = bootstrap(true, Startup::Fresh);
    assert!(matches!(state.1, Action::OpenDatabases));
    let state = step(state, Event::Opened { databases: "old" });
    assert!(matches!(state.1, Action::AskProcessedHeight));
    let state = step(state, Event::Processed { height: Some(12) });
    assert!(matches!(state.1, Action::AskDigest { height: 12 }));
    let state = step(state, Event::Found { found: Some(digest(3)) });
    assert!(matches!(state.1, Action::Complete { databases: "old", digest: d } if d == digest(3)));
}

#[test]
fn restart_anchors_at_genesis_if_nothing_is_processed() {
    let state = bootstrap(true, Startup::Fresh);
    let state = step(state, Event::Opened { databases: "old" });
    let state = step(state, Event::Processed { height: Some(0) });
    assert!(matches!(state.1, Action::AskGenesis));
    let state = step(state, Event::Genesis { digest: digest(4) });
    assert!(matches!(state.1, Action::Complete { databases: "old", digest: d } if d == digest(4)));
}

#[test]
fn restart_fails_without_an_anchor() {
    let state = bootstrap(true, Startup::Fresh);
    let state = step(state, Event::Opened { databases: "old" });
    let state = step(state, Event::Processed { height: None });
    assert!(matches!(state.1, Action::Fail { error: BootstrapError::NoProcessedHeight }));

    let state = bootstrap(true, Startup::Fresh);
    let state = step(state, Event::Opened { databases: "old" });
    let state = step(state, Event::Processed { height: Some(7) });
    let state = step(state, Event::Found { found: None });
    assert!(matches!(
        state.1,
        Action::Fail { error: BootstrapError::MissingDigest { height: 7 } }
    ));
}

fn synced(tips: &[(u64, u8, bool)]) -> (Bootstrap<1, TestApp>, Action<1, TestApp>) {
    let (state, action) = bootstrap(false, sync_from(5));
    assert!(matches!(action, Action::SetFloor { height: 5 }));
    let (state, action) = state.resume(Event::FloorSet);
    let mut follower = match action {
        Action::RunSync { initial, targets: 77, tip_updates: "tips" } => Follower::new(initial),
        _ => panic!("state sync runs from the initial tip"),
    };
    for (height, byte, sent) in tips {
        follower.follow(*height, digest(*byte), *sent);
    }
    let latest = follower.latest();
    let (state, action) = state.resume(Event::Synced { databases: "synced", follower });
    assert!(matches!(action, Action::MarkDone));
    assert!(!state.sync_done);
    let (state, action) = state.resume(Event::Marked);
    assert!(matches!(action, Action::SetFloor { height } if height == latest.height));
    assert!(state.sync_done);
    let (state, action) = state.resume(Event::FloorSet);
    assert!(matches!(action, Action::AskProcessedHeight));
    (state, action)
}

#[test]
fn sync_startup_starts_at_the_tip_that_was_synced() {
    for height in [8, 9] {
        let state = step(
            synced(&[(7, 7, true), (8, 2, true), (10, 3, false)]),
            Event::Processed { height: Some(height) },
        );
        assert!(matches!(
            state.1,
            Action::Complete { databases: "synced", digest: d } if d == digest(2)
        ));
    }

    // Where no tip was followed, that is the initial one.
    let state = step(synced(&[(8, 2, false)]), Event::Processed { height: Some(5) });
    assert!(matches!(
        state.1,
        Action::Complete { databases: "synced", digest: d } if d == digest(1)
    ));
}

#[test]
fn sync_startup_fails_unless_the_floor_is_applied() {
    let state = step(synced(&[(8, 2, true)]), Event::Processed { height: Some(7) });
    assert!(matches!(state.1, Action::Fail { error: BootstrapError::FloorNotApplied }));
    let state = step(synced(&[(8, 2, true)]), Event::Processed { height: None });
    assert!(matches!(
        state.1,
        Action::Fail { error: BootstrapError::NoProcessedHeightAfterFloor }
    ));
}

#[test]
fn state_sync_runs_once() {
    let state = bootstrap(true, sync_from(5));
    assert!(matches!(state.1, Action::Fail { error: BootstrapError::AlreadySynced }));
}

#[test]
fn follower_stays_at_the_last_tip_that_was_sent() {
    let mut follower = Follower::new(Anchor { height: 1, digest: digest(1) });
    assert_eq!((follower.latest().height, follower.latest().digest), (1, digest(1)));
    follower.follow(2, digest(2), false);
    assert_eq!((follower.latest().height, follower.latest().digest), (1, digest(1)));
    follower.follow(3, digest(3), true);
    follower.follow(4, digest(4), false);
    assert_eq!((follower.latest().height, follower.latest().digest), (3, digest(3)));
}

#[test]
fn errors_in_words() {
    assert_eq!(
        BootstrapError::AlreadySynced.message(),
        "state sync bootstrap received a sync startup target after state sync was already marked complete"
    );
    assert_eq!(
        BootstrapError::NoProcessedHeight.message(),
        "state sync bootstrap failed to fetch marshal processed height"
    );
    assert_eq!(
        BootstrapError::MissingDigest { height: 120 }.message(),
        "state sync bootstrap missing processed block digest at height 120"
    );
    assert_eq!(
        BootstrapError::NoProcessedHeightAfterFloor.message(),
        "marshal must respond with processed height after set_floor"
    );
    assert_eq!(
        BootstrapError::FloorNotApplied.message(),
        "marshal floor must be applied before sync_complete"
    );
}

#[test]
fn numbers_in_decimal() {
    for n in [0, 1, 9, 10, 99, 100, 1234567890, u64::MAX] {
        assert_eq!(decimal(n), n.to_string());
    }
}

#[test]
fn tuple_finalize_panic_identifies_failing_database() {
    let panic = finalize_failure(Some(1), "FailingFinalizeDb", "TestFinalizeError");
    assert!(
        panic.contains("index 1"),
        "panic should identify the failing database index: {panic}"
    );
    assert!(
        panic.contains("FailingFinalizeDb"),
        "panic should identify the failing database type: {panic}"
    );
    assert_eq!(
        panic,
        "database finalize failed (index 1, type FailingFinalizeDb): TestFinalizeError"
    );
}

#[test]
fn failures_name_the_database() {
    assert_eq!(
        finalize_failure(None, "Db", "Corrupted"),
        "database finalize failed (type Db): Corrupted"
    );
    assert_eq!(
        sync_failure(7, "Db", "Timeout"),
        "state sync failed (index 7, db Db): Timeout"
    );
}
