//! The resolver service.

use commonware_codec::Encode;
use commonware_cryptography::{sha256, Sha256};
use commonware_runtime::{buffer::paged::CacheRef, deterministic, Metrics, Runner};
use commonware_storage::journal::contiguous::fixed::Config as JournalConfig;
use commonware_storage::merkle::{journaled::Config as MerkleConfig, mmr};
use commonware_storage::qmdb::any::{unordered::fixed, FixedConfig};
use commonware_storage::qmdb::sync::resolver::Resolver;
use commonware_storage::translator::TwoCap;
use commonware_utils::channel::oneshot;
use commonware_utils::sync::AsyncRwLock;
use stateful::db::resolver::{
    delivery_verdict, fetch_result, serve_status, Actor, HandlerMessage, Reaction, Request,
    ResponseDropped, ServeStatus, State,
};
use std::num::{NonZeroU16, NonZeroU64, NonZeroUsize};
use std::sync::Arc;

type TestDb =
    fixed::Db<mmr::Family, deterministic::Context, sha256::Digest, sha256::Digest, Sha256, TwoCap>;
type Database = Arc<AsyncRwLock<TestDb>>;

/// A fetch that waits: where the value goes, and where the verdict comes from.
struct Waiting {
    response_tx: oneshot::Sender<&'static [u8]>,
    success_rx: oneshot::Receiver<bool>,
}

fn first_operation() -> Request {
    Request { op_count: 1, start_loc: 0, max_ops: 1, include_pinned_nodes: false }
}

async fn init_db(context: deterministic::Context, suffix: &str) -> Database {
    let page_cache =
        CacheRef::from_pooler(&context, NonZeroU16::new(101).unwrap(), NonZeroUsize::new(11).unwrap());
    let db = TestDb::init(
        context.with_label("db"),
        FixedConfig {
            merkle_config: MerkleConfig {
                journal_partition: format!("{suffix}-mmr-journal"),
                metadata_partition: format!("{suffix}-mmr-metadata"),
                items_per_blob: NonZeroU64::new(11).unwrap(),
                write_buffer: NonZeroUsize::new(1024).unwrap(),
                thread_pool: None,
                page_cache: page_cache.clone(),
            },
            journal_config: JournalConfig {
                partition: format!("{suffix}-log-journal"),
                items_per_blob: NonZeroU64::new(7).unwrap(),
                write_buffer: NonZeroUsize::new(1024).unwrap(),
                page_cache,
            },
            translator: TwoCap,
        },
    )
    .await
    .expect("db init should succeed");
    Arc::new(AsyncRwLock::new(db))
}

/// Answers a request of a peer, as far as the resolver lets it through.
async fn produce(
    actor: &mut Actor<Database, Waiting>,
    key: Request,
    response: oneshot::Sender<Vec<u8>>,
) -> ServeStatus {
    match actor.handle_message::<&[u8]>(HandlerMessage::Produce { key }) {
        Reaction::Serve { database, key } => {
            let (_cancel_tx, cancel_rx) = oneshot::channel();
            let result = database
                .get_operations(
                    mmr::Location::new(key.op_count),
                    mmr::Location::new(key.start_loc),
                    NonZeroU64::new(key.max_ops).unwrap(),
                    key.include_pinned_nodes,
                    cancel_rx,
                )
                .await;
            match result {
                Ok(fetch) => {
                    let _ = response.send(fetch.proof.encode().to_vec());
                    serve_status(Some(true))
                }
                Err(_) => serve_status(Some(false)),
            }
        }
        Reaction::Deny => serve_status(None),
        _ => unreachable!("a request is served or denied"),
    }
}

/// Handles a delivery, and returns the verdict.
async fn deliver(
    actor: &mut Actor<Database, Waiting>,
    key: Request,
    value: &'static [u8],
) -> bool {
    match actor.handle_message(HandlerMessage::Deliver { key, value }) {
        Reaction::Forward { pending, value } => {
            let handed_over = pending.response_tx.send(value).is_ok();
            let success = if handed_over { pending.success_rx.await.ok() } else { None };
            delivery_verdict(handed_over, success)
        }
        Reaction::Accept => true,
        _ => unreachable!("a delivery is forwarded or accepted"),
    }
}

#[test]
fn produce_denied_before_attach() {
    deterministic::Runner::default().start(|_| async move {
        let mut actor = Actor::new(None);
        let (response_tx, response_rx) = oneshot::channel();
        let status = produce(&mut actor, first_operation(), response_tx).await;
        assert!(response_rx.await.is_err());
        assert_eq!(status, ServeStatus::Dropped);
    });
}

#[test]
fn same_request_served_after_attach() {
    deterministic::Runner::default().start(|context| async move {
        let mut actor = Actor::new(None);
        let db = init_db(context.clone(), "resolver-after-attach").await;
        let op_count = *db.read().await.bounds().await.end;
        let request =
            Request { op_count, start_loc: 0, max_ops: 1, include_pinned_nodes: false };
        assert!(!actor.handle_attach_message(db));

        let (response_tx, response_rx) = oneshot::channel();
        let status = produce(&mut actor, request, response_tx).await;
        let payload = response_rx.await.expect("response should be available after attach");
        assert!(!payload.is_empty());
        assert_eq!(status, ServeStatus::Success);
    });
}

#[test]
fn request_beyond_the_log_fails() {
    deterministic::Runner::default().start(|context| async move {
        let db = init_db(context.clone(), "resolver-failure").await;
        let op_count = *db.read().await.bounds().await.end;
        let mut actor = Actor::new(Some(db));
        let request = Request {
            op_count: op_count + 1,
            start_loc: op_count,
            max_ops: 1,
            include_pinned_nodes: false,
        };
        let (response_tx, response_rx) = oneshot::channel();
        let status = produce(&mut actor, request, response_tx).await;
        assert!(response_rx.await.is_err());
        assert_eq!(status, ServeStatus::Failure);
    });
}

#[test]
fn deliver_with_dropped_response_receiver_is_treated_as_valid() {
    deterministic::Runner::default().start(|_| async move {
        let mut actor = Actor::new(None);
        let (response_tx, response_rx) = oneshot::channel();
        drop(response_rx);
        let (success_tx, success_rx) = oneshot::channel();
        actor.pending.insert(first_operation(), Waiting { response_tx, success_rx });
        drop(success_tx);

        assert!(deliver(&mut actor, first_operation(), b"payload").await);
    });
}

#[test]
fn failed_then_deliver_clears_pending_and_allows_retry() {
    deterministic::Runner::default().start(|_| async move {
        let mut actor = Actor::new(None);
        let (response_tx, _response_rx) = oneshot::channel();
        let (_success_tx, success_rx) = oneshot::channel();
        actor.pending.insert(first_operation(), Waiting { response_tx, success_rx });
        let reaction = actor.handle_message::<&[u8]>(HandlerMessage::Failed {
            key: first_operation(),
        });
        assert!(matches!(reaction, Reaction::Ignore));
        assert!(actor.pending.get(&first_operation()).is_none());

        assert!(deliver(&mut actor, first_operation(), b"late-response").await);
    });
}

#[test]
fn failed_fetch_can_be_tried_again() {
    let mut actor: Actor<(), &str> = Actor::new(None);
    actor.pending.insert(first_operation(), "first");
    actor.handle_message::<u8>(HandlerMessage::Failed { key: first_operation() });
    actor.pending.insert(first_operation(), "retry");
    assert!(matches!(
        actor.handle_message(HandlerMessage::Deliver { key: first_operation(), value: 5 }),
        Reaction::Forward { pending: "retry", value: 5 }
    ));
    assert!(matches!(
        actor.handle_message(HandlerMessage::Deliver { key: first_operation(), value: 6 }),
        Reaction::Accept
    ));
}

#[test]
fn delivery_reaches_the_fetch_that_waits_for_it() {
    deterministic::Runner::default().start(|_| async move {
        for verdict in [true, false] {
            let mut actor = Actor::new(None);
            let (response_tx, response_rx) = oneshot::channel();
            let (success_tx, success_rx) = oneshot::channel();
            actor.pending.insert(first_operation(), Waiting { response_tx, success_rx });
            let other = Request { start_loc: 1, ..first_operation() };
            assert!(deliver(&mut actor, other, b"other").await);
            assert!(actor.pending.contains_key(&first_operation()));

            assert!(success_tx.send(verdict).is_ok());
            assert_eq!(deliver(&mut actor, first_operation(), b"value").await, verdict);
            assert_eq!(response_rx.await.unwrap(), b"value");
            assert!(!actor.pending.contains_key(&first_operation()));
        }
    });
}

#[test]
fn requests_are_told_apart_by_every_field() {
    let mut actor: Actor<(), u8> = Actor::new(None);
    let keys = [
        first_operation(),
        Request { op_count: 2, ..first_operation() },
        Request { start_loc: 1, ..first_operation() },
        Request { max_ops: 2, ..first_operation() },
        Request { include_pinned_nodes: true, ..first_operation() },
    ];
    for (i, key) in keys.iter().enumerate() {
        actor.pending.insert(*key, i as u8);
    }
    for (i, key) in keys.iter().enumerate() {
        let reaction = actor.handle_message(HandlerMessage::Deliver { key: *key, value: "value" });
        assert!(
            matches!(reaction, Reaction::Forward { pending, value: "value" } if pending == i as u8)
        );
    }
}

#[test]
fn attach_replaces_the_database() {
    let mut actor: Actor<u8, ()> = Actor::new(None);
    assert!(matches!(actor.state, State::NoDb));
    assert!(!actor.handle_attach_message(1));
    assert!(actor.handle_attach_message(2));
    assert!(matches!(actor.state, State::HasDb(2)));
    let mut actor: Actor<u8, ()> = Actor::new(Some(3));
    assert!(matches!(
        actor.handle_message::<()>(HandlerMessage::Produce { key: first_operation() }),
        Reaction::Serve { database: 3, key } if key == first_operation()
    ));
}

#[test]
fn verdict_on_a_delivery() {
    assert!(delivery_verdict(false, None));
    assert!(delivery_verdict(false, Some(false)));
    assert!(delivery_verdict(true, Some(true)));
    assert!(!delivery_verdict(true, Some(false)));
    assert!(!delivery_verdict(true, None));
}

#[test]
fn fetch_without_an_answer_is_an_error() {
    assert_eq!(fetch_result::<u8>(None), Err(ResponseDropped));
    assert_eq!(fetch_result::<u8>(Some(Err(ResponseDropped))), Err(ResponseDropped));
    assert_eq!(fetch_result(Some(Ok(7))), Ok(7));
}
