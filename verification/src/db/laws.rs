//! Laws of the calls of this module, each given by its contract (`call_ensures`). A call that
//! changes a value is given by the mutable reference that it takes.

use crate::db::resolver::{
    delivery_verdict, fetch_result, serve_status, Actor, HandlerMessage, Reaction, Request,
    ResponseDropped, ServeStatus, State,
};
use crate::db::{finalize_failure, sync_failure};
use crate::map::UniqueMap;
use crate::message::decimal;
use vstd::prelude::*;

verus! {

/// A failure to finalize names the database, by its index if it has one, and the error.
pub proof fn law_finalize_failure_names_the_database(
    index: u64,
    digits: String,
    name: &str,
    error: &str,
    of_set: String,
    alone: String,
)
    requires
        call_ensures(decimal, (index,), digits),
        call_ensures(finalize_failure, (Some(index), name, error), of_set),
        call_ensures(finalize_failure, (None, name, error), alone),
    ensures
        call_requires(finalize_failure, (Some(index), name, error)),
        call_requires(finalize_failure, (None, name, error)),
        of_set@ == "database finalize failed ("@ + "index "@ + digits@ + ", "@ + "type "@ + name@
            + "): "@ + error@,
        alone@ == "database finalize failed ("@ + "type "@ + name@ + "): "@ + error@,
{
    assert(of_set@ =~= "database finalize failed ("@ + "index "@ + digits@ + ", "@ + "type "@
        + name@ + "): "@ + error@);
    assert(alone@ =~= "database finalize failed ("@ + "type "@ + name@ + "): "@ + error@);
}

/// A failure to sync names the database by its index and type, and the error.
pub proof fn law_sync_failure_names_the_database(
    index: u64,
    digits: String,
    name: &str,
    error: &str,
    message: String,
)
    requires
        call_ensures(decimal, (index,), digits),
        call_ensures(sync_failure, (index, name, error), message),
    ensures
        call_requires(sync_failure, (index, name, error)),
        message@ == "state sync failed (index "@ + digits@ + ", db "@ + name@ + "): "@ + error@,
{
}

/// A resolver is made with the database that it is given, if any, and with no fetch waiting.
pub proof fn law_resolver_starts_without_fetches<DB, P>(
    database: Option<DB>,
    actor: Actor<DB, P>,
    key: Request,
    waiting: Option<&P>,
)
    requires
        call_ensures(Actor::<DB, P>::new, (database,), actor),
        call_ensures(UniqueMap::<Request, P>::get, (&actor.pending, &key), waiting),
    ensures
        call_requires(Actor::<DB, P>::new, (database,)),
        database is None ==> actor.state is NoDb,
        database is Some ==> actor.state == State::HasDb(database->0),
        waiting is None,
{
}

/// An attached database serves from then on, in place of another one, and the fetches that
/// wait stay.
pub proof fn law_attached_database_serves<DB, P>(
    actor: &mut Actor<DB, P>,
    database: DB,
    replacing: bool,
)
    requires
        call_ensures(Actor::<DB, P>::handle_attach_message, (actor, database), replacing),
    ensures
        call_requires(Actor::<DB, P>::handle_attach_message, (actor, database)),
        final(actor).state == State::HasDb(database),
        final(actor).pending == old(actor).pending,
        replacing <==> old(actor).state is HasDb,
{
}

/// With a database attached, a request of a peer is handed to that database as it was asked, in
/// every field. Without one, it is denied. Nothing changes.
pub proof fn law_request_is_served_as_asked<DB, P, V>(
    actor: &mut Actor<DB, P>,
    key: Request,
    reaction: Reaction<'_, DB, P, V>,
)
    requires
        call_ensures(
            Actor::<DB, P>::handle_message::<V>,
            (actor, HandlerMessage::Produce { key }),
            reaction,
        ),
    ensures
        call_requires(
            Actor::<DB, P>::handle_message::<V>,
            (actor, HandlerMessage::Produce { key }),
        ),
        old(actor).state matches State::HasDb(database) ==> {
            &&& reaction is Serve
            &&& *reaction->database == database
            &&& reaction->key.op_count == key.op_count
            &&& reaction->key.start_loc == key.start_loc
            &&& reaction->key.max_ops == key.max_ops
            &&& reaction->key.include_pinned_nodes == key.include_pinned_nodes
        },
        old(actor).state is NoDb ==> reaction is Deny,
        *final(actor) == *old(actor),
{
}

/// What a peer delivers goes, unchanged, to the fetch that waits for it, which then waits no
/// more. Where none waits, it is accepted. The fetches of other requests wait on, and the
/// database stays.
pub proof fn law_delivery_goes_to_its_fetch<DB, P, V>(
    actor: &mut Actor<DB, P>,
    key: Request,
    value: V,
    reaction: Reaction<'_, DB, P, V>,
    waiting: Option<&P>,
    other: Request,
    before: Option<&P>,
    after: Option<&P>,
)
    requires
        call_ensures(
            Actor::<DB, P>::handle_message::<V>,
            (actor, HandlerMessage::Deliver { key, value }),
            reaction,
        ),
        call_ensures(UniqueMap::<Request, P>::get, (&old(actor).pending, &key), waiting),
        call_ensures(UniqueMap::<Request, P>::get, (&old(actor).pending, &other), before),
        call_ensures(UniqueMap::<Request, P>::get, (&final(actor).pending, &other), after),
    ensures
        call_requires(
            Actor::<DB, P>::handle_message::<V>,
            (actor, HandlerMessage::Deliver { key, value }),
        ),
        waiting matches Some(pending) ==> reaction is Forward && reaction->pending == *pending
            && reaction->value == value,
        waiting is None ==> reaction is Accept,
        other == key ==> after is None,
        other != key ==> after == before,
        final(actor).state == old(actor).state,
{
}

/// A fetch that failed waits no more. The fetches of other requests wait on, and the database
/// stays.
pub proof fn law_failed_fetch_waits_no_more<DB, P, V>(
    actor: &mut Actor<DB, P>,
    key: Request,
    reaction: Reaction<'_, DB, P, V>,
    other: Request,
    before: Option<&P>,
    after: Option<&P>,
)
    requires
        call_ensures(
            Actor::<DB, P>::handle_message::<V>,
            (actor, HandlerMessage::Failed { key }),
            reaction,
        ),
        call_ensures(UniqueMap::<Request, P>::get, (&old(actor).pending, &other), before),
        call_ensures(UniqueMap::<Request, P>::get, (&final(actor).pending, &other), after),
    ensures
        call_requires(
            Actor::<DB, P>::handle_message::<V>,
            (actor, HandlerMessage::Failed { key }),
        ),
        reaction is Ignore,
        other == key ==> after is None,
        other != key ==> after == before,
        final(actor).state == old(actor).state,
{
}

/// A fetch that waits is found under its request and no other, in place of one that waited for
/// the same request.
pub proof fn law_fetch_is_found_under_its_request<P>(
    fetches: &mut UniqueMap<Request, P>,
    key: Request,
    fetch: P,
    other: Request,
    before: Option<&P>,
    after: Option<&P>,
    found: bool,
)
    requires
        call_ensures(UniqueMap::<Request, P>::insert, (fetches, key, fetch), ()),
        call_ensures(UniqueMap::<Request, P>::get, (old(fetches), &other), before),
        call_ensures(UniqueMap::<Request, P>::get, (final(fetches), &other), after),
        call_ensures(UniqueMap::<Request, P>::contains_key, (final(fetches), &other), found),
    ensures
        call_requires(UniqueMap::<Request, P>::insert, (fetches, key, fetch)),
        other == key ==> after == Some(&fetch),
        other != key ==> after == before,
        found <==> after is Some,
{
}

/// A fetch that is taken out is the one that was found, and leaves the others alone.
pub proof fn law_fetch_is_taken_out<P>(
    fetches: &mut UniqueMap<Request, P>,
    key: Request,
    waiting: Option<&P>,
    removed: Option<P>,
    other: Request,
    before: Option<&P>,
    after: Option<&P>,
)
    requires
        call_ensures(UniqueMap::<Request, P>::get, (old(fetches), &key), waiting),
        call_ensures(UniqueMap::<Request, P>::remove, (fetches, &key), removed),
        call_ensures(UniqueMap::<Request, P>::get, (old(fetches), &other), before),
        call_ensures(UniqueMap::<Request, P>::get, (final(fetches), &other), after),
    ensures
        removed is Some <==> waiting is Some,
        waiting matches Some(fetch) ==> removed == Some(*fetch),
        other == key ==> after is None,
        other != key ==> after == before,
{
}

/// What could not be handed over is valid. What was handed over is valid if the fetch says so,
/// and not if it says otherwise or nothing.
pub proof fn law_fetch_decides_on_what_it_got(
    success: Option<bool>,
    answer: bool,
    given_up: bool,
    answered: bool,
    silent: bool,
)
    requires
        call_ensures(delivery_verdict, (false, success), given_up),
        call_ensures(delivery_verdict, (true, Some(answer)), answered),
        call_ensures(delivery_verdict, (true, None), silent),
    ensures
        call_requires(delivery_verdict, (false, success)),
        call_requires(delivery_verdict, (true, success)),
        given_up,
        answered == answer,
        !silent,
{
}

/// A request is counted as dropped without a database, and otherwise by whether the database
/// could serve it.
pub proof fn law_requests_are_counted_by_their_end(
    dropped: ServeStatus,
    success: ServeStatus,
    failure: ServeStatus,
)
    requires
        call_ensures(serve_status, (None,), dropped),
        call_ensures(serve_status, (Some(true),), success),
        call_ensures(serve_status, (Some(false),), failure),
    ensures
        forall|served: Option<bool>| #[trigger] call_requires(serve_status, (served,)),
        dropped is Dropped,
        success is Success,
        failure is Failure,
{
}

/// The answer of the resolver is the result of a fetch, and no answer is an error.
pub proof fn law_no_answer_is_an_error<F>(
    answer: Result<F, ResponseDropped>,
    answered: Result<F, ResponseDropped>,
    silent: Result<F, ResponseDropped>,
)
    requires
        call_ensures(fetch_result::<F>, (Some(answer),), answered),
        call_ensures(fetch_result::<F>, (None,), silent),
    ensures
        call_requires(fetch_result::<F>, (Some(answer),)),
        call_requires(fetch_result::<F>, (None,)),
        answered == answer,
        silent is Err,
{
}

} // verus!
