//! Laws of the one-time startup.

use crate::message::decimal;
use crate::stateful::bootstrap::{
    bootstrap, Action, Anchor, Bootstrap, BootstrapError, Event, Follower, Startup, SyncTip,
};
use crate::stateful::Application;
use crate::types::Digest;
use vstd::prelude::*;

verus! {

/// A fresh startup opens new databases, marks state sync as done, and completes with these
/// databases at genesis.
pub proof fn law_fresh_run<const N: usize, A: Application>(
    databases: A::Databases,
    genesis: Digest<N>,
    begun: (Bootstrap<N, A>, Action<N, A>),
    opened: (Bootstrap<N, A>, Action<N, A>),
    marked: (Bootstrap<N, A>, Action<N, A>),
    ended: (Bootstrap<N, A>, Action<N, A>),
)
    requires
        call_ensures(bootstrap::<N, A>, (false, Startup::Fresh), begun),
        call_ensures(Bootstrap::<N, A>::resume, (begun.0, Event::Opened { databases }), opened),
        call_ensures(Bootstrap::<N, A>::resume, (opened.0, Event::Marked), marked),
        call_ensures(
            Bootstrap::<N, A>::resume,
            (marked.0, Event::Genesis { digest: genesis }),
            ended,
        ),
    ensures
        begun.1 is OpenDatabases,
        opened.1 is MarkDone,
        !opened.0.sync_done,
        marked.1 is AskGenesis,
        marked.0.sync_done,
        ended.1 == (Action::<N, A>::Complete { databases, digest: genesis }),
        call_requires(bootstrap::<N, A>, (false, Startup::Fresh)),
        call_requires(Bootstrap::<N, A>::resume, (begun.0, Event::Opened { databases })),
        call_requires(Bootstrap::<N, A>::resume, (opened.0, Event::Marked)),
        call_requires(
            Bootstrap::<N, A>::resume,
            (marked.0, Event::Genesis { digest: genesis }),
        ),
{
}

/// When state sync was done before, startup opens the databases and asks how far marshal has
/// come. It completes with these databases at genesis if nothing has been processed, and at
/// the block of the height that marshal gave otherwise.
pub proof fn law_restart_run<const N: usize, A: Application>(
    databases: A::Databases,
    height: u64,
    digest: Digest<N>,
    begun: (Bootstrap<N, A>, Action<N, A>),
    opened: (Bootstrap<N, A>, Action<N, A>),
    asked: (Bootstrap<N, A>, Action<N, A>),
    found: Event<N, A>,
    ended: (Bootstrap<N, A>, Action<N, A>),
)
    requires
        found == (if height == 0 {
            Event::<N, A>::Genesis { digest }
        } else {
            Event::<N, A>::Found { found: Some(digest) }
        }),
        call_ensures(bootstrap::<N, A>, (true, Startup::Fresh), begun),
        call_ensures(Bootstrap::<N, A>::resume, (begun.0, Event::Opened { databases }), opened),
        call_ensures(
            Bootstrap::<N, A>::resume,
            (opened.0, Event::Processed { height: Some(height) }),
            asked,
        ),
        call_ensures(Bootstrap::<N, A>::resume, (asked.0, found), ended),
    ensures
        begun.1 is OpenDatabases,
        opened.1 is AskProcessedHeight,
        height == 0 ==> asked.1 is AskGenesis,
        height > 0 ==> asked.1 == (Action::<N, A>::AskDigest { height }),
        ended.1 == (Action::<N, A>::Complete { databases, digest }),
        ended.0.sync_done,
        call_requires(bootstrap::<N, A>, (true, Startup::Fresh)),
        call_requires(Bootstrap::<N, A>::resume, (begun.0, Event::Opened { databases })),
        call_requires(
            Bootstrap::<N, A>::resume,
            (opened.0, Event::Processed { height: Some(height) }),
        ),
        call_requires(Bootstrap::<N, A>::resume, (asked.0, found)),
{
}

/// A restart fails if marshal does not tell its height, or does not know the block there.
pub proof fn law_restart_needs_an_anchor<const N: usize, A: Application>(
    databases: A::Databases,
    height: u64,
    begun: (Bootstrap<N, A>, Action<N, A>),
    opened: (Bootstrap<N, A>, Action<N, A>),
    silent: (Bootstrap<N, A>, Action<N, A>),
    asked: (Bootstrap<N, A>, Action<N, A>),
    missing: (Bootstrap<N, A>, Action<N, A>),
)
    requires
        height > 0,
        call_ensures(bootstrap::<N, A>, (true, Startup::Fresh), begun),
        call_ensures(Bootstrap::<N, A>::resume, (begun.0, Event::Opened { databases }), opened),
        call_ensures(
            Bootstrap::<N, A>::resume,
            (opened.0, Event::Processed { height: None }),
            silent,
        ),
        call_ensures(
            Bootstrap::<N, A>::resume,
            (opened.0, Event::Processed { height: Some(height) }),
            asked,
        ),
        call_ensures(Bootstrap::<N, A>::resume, (asked.0, Event::Found { found: None }), missing),
    ensures
        silent.1 == (Action::<N, A>::Fail { error: BootstrapError::NoProcessedHeight }),
        missing.1 == (Action::<N, A>::Fail { error: BootstrapError::MissingDigest { height } }),
        call_requires(
            Bootstrap::<N, A>::resume,
            (opened.0, Event::Processed { height: None }),
        ),
        call_requires(Bootstrap::<N, A>::resume, (asked.0, Event::Found { found: None })),
{
}

/// A startup with state sync sets the floor to the initial tip, runs state sync from its
/// targets, marks it as done, and raises the floor to the block that was followed. It completes
/// at that block, with the databases that were synced, if and only if marshal has processed at
/// least its height.
pub proof fn law_sync_run<const N: usize, A: Application>(
    initial_tip: SyncTip<N, A::SyncTargets>,
    tip_updates: A::TipReceiver,
    databases: A::Databases,
    follower: Follower<N>,
    latest: Anchor<N>,
    height: Option<u64>,
    begun: (Bootstrap<N, A>, Action<N, A>),
    floored: (Bootstrap<N, A>, Action<N, A>),
    synced: (Bootstrap<N, A>, Action<N, A>),
    marked: (Bootstrap<N, A>, Action<N, A>),
    raised: (Bootstrap<N, A>, Action<N, A>),
    ended: (Bootstrap<N, A>, Action<N, A>),
)
    requires
        follower.initial() == (Anchor { height: initial_tip.height, digest: initial_tip.digest }),
        call_ensures(Follower::<N>::latest, (&follower,), latest),
        call_ensures(
            bootstrap::<N, A>,
            (false, Startup::Sync { initial_tip, tip_updates }),
            begun,
        ),
        call_ensures(Bootstrap::<N, A>::resume, (begun.0, Event::FloorSet), floored),
        call_ensures(
            Bootstrap::<N, A>::resume,
            (floored.0, Event::Synced { databases, follower }),
            synced,
        ),
        call_ensures(Bootstrap::<N, A>::resume, (synced.0, Event::Marked), marked),
        call_ensures(Bootstrap::<N, A>::resume, (marked.0, Event::FloorSet), raised),
        call_ensures(Bootstrap::<N, A>::resume, (raised.0, Event::Processed { height }), ended),
    ensures
        begun.1 == (Action::<N, A>::SetFloor { height: initial_tip.height }),
        floored.1 == (Action::<N, A>::RunSync {
            initial: Anchor { height: initial_tip.height, digest: initial_tip.digest },
            targets: initial_tip.targets,
            tip_updates,
        }),
        !floored.0.sync_done,
        synced.1 is MarkDone,
        !synced.0.sync_done,
        marked.1 == (Action::<N, A>::SetFloor { height: latest.height }),
        marked.0.sync_done,
        raised.1 is AskProcessedHeight,
        height matches Some(processed) && processed >= latest.height ==> ended.1 == (Action::<
            N,
            A,
        >::Complete { databases, digest: latest.digest }),
        height matches Some(processed) && processed < latest.height ==> ended.1 == (Action::<
            N,
            A,
        >::Fail { error: BootstrapError::FloorNotApplied }),
        height is None ==> ended.1 == (Action::<N, A>::Fail {
            error: BootstrapError::NoProcessedHeightAfterFloor,
        }),
        call_requires(bootstrap::<N, A>, (false, Startup::Sync { initial_tip, tip_updates })),
        call_requires(Bootstrap::<N, A>::resume, (begun.0, Event::FloorSet)),
        call_requires(
            Bootstrap::<N, A>::resume,
            (floored.0, Event::Synced { databases, follower }),
        ),
        call_requires(Bootstrap::<N, A>::resume, (synced.0, Event::Marked)),
        call_requires(Bootstrap::<N, A>::resume, (marked.0, Event::FloorSet)),
        call_requires(Bootstrap::<N, A>::resume, (raised.0, Event::Processed { height })),
{
}

/// State sync is not started again once it is done.
pub proof fn law_done_state_sync_is_refused<const N: usize, A: Application>(
    initial_tip: SyncTip<N, A::SyncTargets>,
    tip_updates: A::TipReceiver,
    begun: (Bootstrap<N, A>, Action<N, A>),
)
    requires
        call_ensures(
            bootstrap::<N, A>,
            (true, Startup::Sync { initial_tip, tip_updates }),
            begun,
        ),
    ensures
        call_requires(bootstrap::<N, A>, (true, Startup::Sync { initial_tip, tip_updates })),
        begun.1 == (Action::<N, A>::Fail { error: BootstrapError::AlreadySynced }),
{
}

/// A follower begins at the initial tip, goes on to each tip whose targets were sent, and stays
/// where it is at each one whose targets were not.
pub proof fn law_follower_goes_to_tips_that_were_sent<const N: usize>(
    initial: Anchor<N>,
    first: Follower<N>,
    start: Anchor<N>,
    follower: &mut Follower<N>,
    height: u64,
    digest: Digest<N>,
    sent: bool,
    before: Anchor<N>,
    after: Anchor<N>,
)
    requires
        call_ensures(Follower::<N>::new, (initial,), first),
        call_ensures(Follower::<N>::latest, (&first,), start),
        call_ensures(Follower::<N>::latest, (old(follower),), before),
        call_ensures(Follower::<N>::follow, (follower, height, digest, sent), ()),
        call_ensures(Follower::<N>::latest, (final(follower),), after),
    ensures
        call_requires(Follower::<N>::new, (initial,)),
        call_requires(Follower::<N>::latest, (&first,)),
        call_requires(Follower::<N>::follow, (follower, height, digest, sent)),
        first.initial() == initial,
        start == initial,
        sent ==> after.height == height && after.digest == digest,
        !sent ==> after == before,
        final(follower).initial() == old(follower).initial(),
{
}

/// Every error says in words what is wrong, and a missing block is named by its height.
pub proof fn law_errors_say_what_is_wrong(
    height: u64,
    digits: String,
    missing: String,
    already_synced: String,
    no_height: String,
    no_height_after_floor: String,
    not_applied: String,
)
    requires
        call_ensures(decimal, (height,), digits),
        call_ensures(
            BootstrapError::message,
            (&BootstrapError::MissingDigest { height },),
            missing,
        ),
        call_ensures(BootstrapError::message, (&BootstrapError::AlreadySynced,), already_synced),
        call_ensures(BootstrapError::message, (&BootstrapError::NoProcessedHeight,), no_height),
        call_ensures(
            BootstrapError::message,
            (&BootstrapError::NoProcessedHeightAfterFloor,),
            no_height_after_floor,
        ),
        call_ensures(BootstrapError::message, (&BootstrapError::FloorNotApplied,), not_applied),
    ensures
        missing@ == "state sync bootstrap missing processed block digest at height "@ + digits@,
        already_synced@
            == "state sync bootstrap received a sync startup target after state sync was already marked complete"@,
        no_height@ == "state sync bootstrap failed to fetch marshal processed height"@,
        no_height_after_floor@ == "marshal must respond with processed height after set_floor"@,
        not_applied@ == "marshal floor must be applied before sync_complete"@,
{
}

} // verus!
