//! A service that fetches sync operations from peers and serves them to peers.
//!
//! There is one resolver for each database. It can start before its database
//! exists: without one, requests of peers are denied, while fetches from peers work.

use crate::map::{Key, UniqueMap};
use vstd::prelude::*;

verus! {

/// A request for operations.
#[derive(Clone, Copy, Debug, PartialEq, Eq, Structural)]
pub struct Request {
    /// The number of operations of the log that the proof is for.
    pub op_count: u64,
    /// The location of the first operation.
    pub start_loc: u64,
    /// The maximum number of operations: at least one.
    pub max_ops: u64,
    pub include_pinned_nodes: bool,
}

impl Key for Request {
    fn same(&self, other: &Self) -> bool {
        self.op_count == other.op_count && self.start_loc == other.start_loc && self.max_ops
            == other.max_ops && self.include_pinned_nodes == other.include_pinned_nodes
    }
}

/// The resolver dropped the response before completion.
#[derive(Clone, Copy, Debug, PartialEq, Eq, Structural)]
pub struct ResponseDropped;

/// Runtime serving state of a resolver.
pub enum State<DB> {
    /// The database is not attached yet.
    NoDb,
    /// The database is attached and can serve incoming requests.
    HasDb(DB),
}

/// What the network reports to a resolver.
pub enum HandlerMessage<V> {
    /// A peer answered a fetch.
    Deliver { key: Request, value: V },
    /// A fetch failed.
    Failed { key: Request },
    /// A peer asks for operations.
    Produce { key: Request },
}

/// What a resolver does about a report.
pub enum Reaction<'a, DB, P, V> {
    /// Forward the value to the fetch that waits for it, and judge by what comes back.
    Forward { pending: P, value: V },
    /// Tell the network that the value is valid: nobody waits for it.
    Accept,
    /// There is nothing to do.
    Ignore,
    /// Serve the request from the database.
    Serve { database: &'a DB, key: Request },
    /// Drop the request without a response.
    Deny,
}

/// How a request of a peer was served.
#[derive(Clone, Copy, Debug, PartialEq, Eq, Structural)]
pub enum ServeStatus {
    /// The operations were sent.
    Success,
    /// The database could not serve the request.
    Failure,
    /// There was no database.
    Dropped,
}

/// How a resolver reacts to a report, and which fetches wait for an answer after it.
pub open spec fn reacts<'a, DB, P, V>(
    state: State<DB>,
    pending: Map<Request, P>,
    message: HandlerMessage<V>,
    next: Map<Request, P>,
    reaction: Reaction<'a, DB, P, V>,
) -> bool {
    match message {
        HandlerMessage::Deliver { key, value } => {
            &&& next == pending.remove(key)
            &&& if pending.contains_key(key) {
                &&& reaction is Forward
                &&& reaction->pending == pending[key]
                &&& reaction->value == value
            } else {
                reaction is Accept
            }
        },
        HandlerMessage::Failed { key } => {
            &&& next == pending.remove(key)
            &&& reaction is Ignore
        },
        HandlerMessage::Produce { key } => {
            &&& next == pending
            &&& match state {
                State::HasDb(database) => {
                    &&& reaction is Serve
                    &&& *reaction->database == database
                    &&& reaction->key == key
                },
                State::NoDb => reaction is Deny,
            }
        },
    }
}

/// A resolver: its database, and the fetches that wait for an answer.
pub struct Actor<DB, P> {
    pub state: State<DB>,
    pub pending: UniqueMap<Request, P>,
}

impl<DB, P> Actor<DB, P> {
    /// Creates a resolver, with its database if there is one already.
    pub fn new(database: Option<DB>) -> (actor: Self)
        ensures
            actor.state == (match database {
                Some(database) => State::HasDb(database),
                None => State::NoDb,
            }),
            actor.pending@ == Map::<Request, P>::empty(),
    {
        Actor {
            state: match database {
                Some(database) => State::HasDb(database),
                None => State::NoDb,
            },
            pending: UniqueMap::new(),
        }
    }

    /// Attaches a database. Tells whether it replaces another one.
    pub fn handle_attach_message(&mut self, database: DB) -> (replacing_existing: bool)
        ensures
            replacing_existing == old(self).state is HasDb,
            final(self).state == State::HasDb(database),
            final(self).pending == old(self).pending,
    {
        let replacing_existing = matches!(&self.state, State::HasDb(_));
        self.state = State::HasDb(database);
        replacing_existing
    }

    /// Handles a report of the network.
    ///
    /// A delivery and a failure each end the fetch that waits for the key, with or
    /// without a database. A delivery that nobody waits for is valid.
    pub fn handle_message<V>(&mut self, message: HandlerMessage<V>) -> (reaction: Reaction<
        '_,
        DB,
        P,
        V,
    >)
        ensures
            final(self).state == old(self).state,
            reacts(old(self).state, old(self).pending@, message, final(self).pending@, reaction),
            message is Produce ==> final(self).pending == old(self).pending,
    {
        match message {
            HandlerMessage::Deliver { key, value } => match self.pending.remove(&key) {
                Some(pending) => Reaction::Forward { pending, value },
                None => Reaction::Accept,
            },
            HandlerMessage::Failed { key } => {
                self.pending.remove(&key);
                Reaction::Ignore
            },
            HandlerMessage::Produce { key } => match &self.state {
                State::HasDb(database) => Reaction::Serve { database, key },
                State::NoDb => Reaction::Deny,
            },
        }
    }
}

/// Judges a value that was forwarded to the fetch that waited for it. A value that
/// could not be handed over, because the fetch was given up, is valid. Otherwise the
/// fetch decides, and if it gives no answer, the value is invalid.
pub fn delivery_verdict(handed_over: bool, success: Option<bool>) -> (valid: bool)
    ensures
        valid == (!handed_over || success == Some(true)),
{
    if !handed_over {
        return true;
    }
    match success {
        Some(success) => success,
        None => false,
    }
}

/// The status of a request of a peer, given whether there was a database and, if so,
/// whether it could serve the request. Only a success is answered.
pub fn serve_status(served: Option<bool>) -> (status: ServeStatus)
    ensures
        status == (match served {
            None => ServeStatus::Dropped,
            Some(true) => ServeStatus::Success,
            Some(false) => ServeStatus::Failure,
        }),
{
    match served {
        None => ServeStatus::Dropped,
        Some(served) => if served {
            ServeStatus::Success
        } else {
            ServeStatus::Failure
        },
    }
}

/// The result of a fetch: the answer of the resolver, or an error if there is none.
pub fn fetch_result<F>(answer: Option<Result<F, ResponseDropped>>) -> (result: Result<
    F,
    ResponseDropped,
>)
    ensures
        result == (match answer {
            Some(result) => result,
            None => Err(ResponseDropped),
        }),
{
    match answer {
        Some(result) => result,
        None => Err(ResponseDropped),
    }
}

/// A fetch that failed is forgotten: a delivery that comes late is accepted and changes
/// nothing.
pub proof fn law_late_delivery_is_accepted<'a, 'b, DB, P, V>(
    state: State<DB>,
    before: Map<Request, P>,
    key: Request,
    failed: Map<Request, P>,
    first: Reaction<'a, DB, P, V>,
    value: V,
    after: Map<Request, P>,
    second: Reaction<'b, DB, P, V>,
)
    requires
        reacts(state, before, HandlerMessage::Failed { key }, failed, first),
        reacts(state, failed, HandlerMessage::Deliver { key, value }, after, second),
    ensures
        first is Ignore,
        second is Accept,
        after == failed,
{
    assert(after =~= failed);
}

/// A fetch that failed can be tried again: what is then delivered goes to the new fetch,
/// and the fetches of other requests wait on throughout.
pub proof fn law_failed_fetch_allows_retry<'a, 'b, DB, P, V>(
    state: State<DB>,
    before: Map<Request, P>,
    key: Request,
    failed: Map<Request, P>,
    first: Reaction<'a, DB, P, V>,
    retry: P,
    value: V,
    after: Map<Request, P>,
    second: Reaction<'b, DB, P, V>,
)
    requires
        reacts(state, before, HandlerMessage::Failed { key }, failed, first),
        reacts(
            state,
            failed.insert(key, retry),
            HandlerMessage::Deliver { key, value },
            after,
            second,
        ),
    ensures
        second is Forward,
        second->pending == retry,
        second->value == value,
        after == before.remove(key),
{
    assert(after =~= before.remove(key));
}

} // verus!
