//! One-time startup: how the databases come about, and where the actor starts.
//!
//! There are three startup states.
//! 1. State sync is done: the databases are opened, and the actor starts at the
//!    block that marshal has processed last.
//! 2. State sync is not done, and startup is fresh: new databases are opened, state
//!    sync is marked as done, and marshal backfills from genesis.
//! 3. State sync is not done, and startup begins with it: it runs once, is marked as
//!    done, and the actor starts at the tip that was synced.
//!
//! [`Bootstrap`] says what to do next, and is told what came of it.

use crate::db::SyncEngineConfig;
use crate::message::{decimal, decimal_digits};
use crate::stateful::Application;
use crate::types::Digest;
use vstd::prelude::*;
use vstd::string::StringExecFns;

verus! {

/// A finalized tip, forwarded to the background sync task during state sync.
pub struct SyncTip<const N: usize, T> {
    /// The height of the finalized block that gave these targets.
    pub height: u64,
    /// The digest of the finalized block.
    pub digest: Digest<N>,
    /// Per-database sync targets extracted from the block.
    pub targets: T,
}

/// Startup inputs for bootstrap.
pub enum Startup<const N: usize, A: Application> {
    /// Initialize databases without running startup state sync.
    Fresh,
    /// Run startup state sync from an initial tip and follow tip updates.
    Sync { initial_tip: SyncTip<N, A::SyncTargets>, tip_updates: A::TipReceiver },
}

/// Configuration for the one-time startup.
pub struct BootstrapConfig<const N: usize, A: Application> {
    /// Configuration for the managed set of databases.
    pub db_config: A::DbConfig,
    /// Metadata partition that stores the durable "state sync done" bit.
    pub metadata_partition: String,
    /// Per-database sync engine parameters.
    pub sync_config: SyncEngineConfig,
    /// Startup mode and the inputs for that mode.
    pub startup: Startup<N, A>,
}

/// A block by its height and digest.
#[derive(Clone, Copy, Debug)]
pub struct Anchor<const N: usize> {
    pub height: u64,
    pub digest: Digest<N>,
}

/// The anchor after a sequence of tips, each with whether its targets were sent.
pub open spec fn followed<const N: usize>(
    initial: Anchor<N>,
    tips: Seq<(Anchor<N>, bool)>,
) -> Anchor<N>
    decreases tips.len(),
{
    if tips.len() == 0 {
        initial
    } else if tips.last().1 {
        tips.last().0
    } else {
        followed(initial, tips.drop_last())
    }
}

/// Follows the tips that come while state sync is running, from the initial one on.
pub struct Follower<const N: usize> {
    initial: Ghost<Anchor<N>>,
    tips: Ghost<Seq<(Anchor<N>, bool)>>,
    latest: Anchor<N>,
}

impl<const N: usize> Follower<N> {
    #[verifier::type_invariant]
    spec fn follows(self) -> bool {
        self.latest == followed(self.initial@, self.tips@)
    }

    /// The tip that state sync started from.
    pub closed spec fn initial(self) -> Anchor<N> {
        self.initial@
    }

    /// The tips that came, each with whether its targets were sent.
    pub closed spec fn tips(self) -> Seq<(Anchor<N>, bool)> {
        self.tips@
    }

    /// The block that the databases are synced to once state sync ends.
    pub open spec fn reached(self) -> Anchor<N> {
        followed(self.initial(), self.tips())
    }

    /// Begins with the initial tip.
    pub fn new(initial: Anchor<N>) -> (follower: Self)
        ensures
            follower.initial() == initial,
            follower.tips() == Seq::<(Anchor<N>, bool)>::empty(),
    {
        Follower { initial: Ghost(initial), tips: Ghost(Seq::empty()), latest: initial }
    }

    /// Takes in a tip, given whether its targets were handed to the sync engine. Where
    /// they could not be handed over, the databases do not get there.
    pub fn follow(&mut self, height: u64, digest: Digest<N>, sent: bool)
        ensures
            final(self).initial() == old(self).initial(),
            final(self).tips() == old(self).tips().push((Anchor { height, digest }, sent)),
            final(self).reached() == (if sent {
                Anchor { height, digest }
            } else {
                old(self).reached()
            }),
    {
        proof {
            use_type_invariant(&*self);
            let tips = self.tips@.push((Anchor { height, digest }, sent));
            assert(tips.drop_last() =~= self.tips@);
        }
        let latest = if sent {
            Anchor { height, digest }
        } else {
            self.latest
        };
        *self = Follower {
            initial: Ghost(self.initial@),
            tips: Ghost(self.tips@.push((Anchor { height, digest }, sent))),
            latest,
        };
    }

    /// The block that the databases are synced to once state sync ends.
    pub fn latest(&self) -> (latest: Anchor<N>)
        ensures
            latest == self.reached(),
    {
        proof {
            use_type_invariant(self);
        }
        self.latest
    }
}

/// How far startup has come.
pub enum Phase<const N: usize, A: Application> {
    /// State sync was done before: the databases are being opened.
    Reopening,
    /// Marshal has been asked for the height that it has processed.
    Anchoring { databases: A::Databases },
    /// Marshal has been asked for the digest of the block at this height.
    AnchoringAt { databases: A::Databases, height: u64 },
    /// The application has been asked for the genesis block.
    AnchoringAtGenesis { databases: A::Databases },
    /// Fresh databases are being opened.
    Opening,
    /// Fresh databases are open: state sync is being marked as done.
    MarkingFresh { databases: A::Databases },
    /// The floor of marshal is being set to the initial tip.
    SettingFloor { initial: Anchor<N>, targets: A::SyncTargets, tip_updates: A::TipReceiver },
    /// State sync is running, from the initial tip on.
    Syncing { initial: Anchor<N> },
    /// The databases are synced to this block: state sync is being marked as done.
    MarkingSynced { databases: A::Databases, latest: Anchor<N> },
    /// The floor of marshal is being set to the block that was synced.
    RaisingFloor { databases: A::Databases, latest: Anchor<N> },
    /// Marshal has been asked for the height that it has processed, to confirm the floor.
    Confirming { databases: A::Databases, latest: Anchor<N> },
    /// Startup has ended.
    Ended,
}

/// Why startup cannot go on.
#[derive(Clone, Copy, Debug, PartialEq, Eq, Structural)]
pub enum BootstrapError {
    /// Startup is to begin with state sync, which has been done before.
    AlreadySynced,
    /// Marshal did not tell which height it has processed.
    NoProcessedHeight,
    /// Marshal does not know the block at the height that it has processed.
    MissingDigest { height: u64 },
    /// Marshal did not tell which height it has processed after its floor was set.
    NoProcessedHeightAfterFloor,
    /// The floor of marshal has not taken effect.
    FloorNotApplied,
}

/// What startup needs next.
pub enum Action<const N: usize, A: Application> {
    /// Open the databases.
    OpenDatabases,
    /// Store durably that state sync is done.
    MarkDone,
    /// Ask the application for the genesis block.
    AskGenesis,
    /// Ask marshal for the height that it has processed.
    AskProcessedHeight,
    /// Ask marshal for the digest of the block at this height.
    AskDigest { height: u64 },
    /// Set the floor of marshal.
    SetFloor { height: u64 },
    /// Run state sync from the targets of the initial tip, and follow the tips that come.
    RunSync { initial: Anchor<N>, targets: A::SyncTargets, tip_updates: A::TipReceiver },
    /// Hand the databases to the actor, which starts at this block.
    Complete { databases: A::Databases, digest: Digest<N> },
    /// Give up.
    Fail { error: BootstrapError },
}

/// What came of the last action.
pub enum Event<const N: usize, A: Application> {
    /// The databases are open.
    Opened { databases: A::Databases },
    /// It is stored durably that state sync is done.
    Marked,
    /// The digest of the genesis block.
    Genesis { digest: Digest<N> },
    /// The height that marshal has processed, if it answered.
    Processed { height: Option<u64> },
    /// The digest of the block at the height asked for, if marshal knows it.
    Found { found: Option<Digest<N>> },
    /// The floor of marshal is set.
    FloorSet,
    /// State sync has ended: the databases are synced to the block that was followed.
    Synced { databases: A::Databases, follower: Follower<N> },
}

impl<const N: usize, A: Application> Event<N, A> {
    /// The event answers the action that this phase waits for.
    pub open spec fn answers(self, phase: Phase<N, A>) -> bool {
        match self {
            Event::Opened { .. } => phase is Reopening || phase is Opening,
            Event::Marked => phase is MarkingFresh || phase is MarkingSynced,
            Event::Genesis { .. } => phase is AnchoringAtGenesis,
            Event::Processed { .. } => phase is Anchoring || phase is Confirming,
            Event::Found { .. } => phase is AnchoringAt,
            Event::FloorSet => phase is SettingFloor || phase is RaisingFloor,
            Event::Synced { follower, .. } => phase matches Phase::Syncing { initial }
                && follower.initial() == initial,
        }
    }
}

/// The first phase and action, given whether state sync was done before.
pub open spec fn first<const N: usize, A: Application>(
    sync_done: bool,
    startup: Startup<N, A>,
) -> (Phase<N, A>, Action<N, A>) {
    match startup {
        Startup::Fresh => if sync_done {
            (Phase::Reopening, Action::OpenDatabases)
        } else {
            (Phase::Opening, Action::OpenDatabases)
        },
        Startup::Sync { initial_tip, tip_updates } => if sync_done {
            (Phase::Ended, Action::Fail { error: BootstrapError::AlreadySynced })
        } else {
            (
                Phase::SettingFloor {
                    initial: Anchor { height: initial_tip.height, digest: initial_tip.digest },
                    targets: initial_tip.targets,
                    tip_updates,
                },
                Action::SetFloor { height: initial_tip.height },
            )
        },
    }
}

/// The phase and action that follow an event.
pub open spec fn next<const N: usize, A: Application>(
    phase: Phase<N, A>,
    event: Event<N, A>,
) -> (Phase<N, A>, Action<N, A>) {
    match (phase, event) {
        (Phase::Reopening, Event::Opened { databases }) => (
            Phase::Anchoring { databases },
            Action::AskProcessedHeight,
        ),
        (Phase::Anchoring { databases }, Event::Processed { height: Some(height) }) => if height
            == 0 {
            (Phase::AnchoringAtGenesis { databases }, Action::AskGenesis)
        } else {
            (Phase::AnchoringAt { databases, height }, Action::AskDigest { height })
        },
        (Phase::Anchoring { .. }, Event::Processed { height: None }) => (
            Phase::Ended,
            Action::Fail { error: BootstrapError::NoProcessedHeight },
        ),
        (Phase::AnchoringAt { databases, .. }, Event::Found { found: Some(digest) }) => (
            Phase::Ended,
            Action::Complete { databases, digest },
        ),
        (Phase::AnchoringAt { height, .. }, Event::Found { found: None }) => (
            Phase::Ended,
            Action::Fail { error: BootstrapError::MissingDigest { height } },
        ),
        (Phase::AnchoringAtGenesis { databases }, Event::Genesis { digest }) => (
            Phase::Ended,
            Action::Complete { databases, digest },
        ),
        (Phase::Opening, Event::Opened { databases }) => (
            Phase::MarkingFresh { databases },
            Action::MarkDone,
        ),
        (Phase::MarkingFresh { databases }, Event::Marked) => (
            Phase::AnchoringAtGenesis { databases },
            Action::AskGenesis,
        ),
        (Phase::SettingFloor { initial, targets, tip_updates }, Event::FloorSet) => (
            Phase::Syncing { initial },
            Action::RunSync { initial, targets, tip_updates },
        ),
        (Phase::Syncing { .. }, Event::Synced { databases, follower }) => (
            Phase::MarkingSynced { databases, latest: follower.reached() },
            Action::MarkDone,
        ),
        (Phase::MarkingSynced { databases, latest }, Event::Marked) => (
            Phase::RaisingFloor { databases, latest },
            Action::SetFloor { height: latest.height },
        ),
        (Phase::RaisingFloor { databases, latest }, Event::FloorSet) => (
            Phase::Confirming { databases, latest },
            Action::AskProcessedHeight,
        ),
        (
            Phase::Confirming { databases, latest },
            Event::Processed { height: Some(height) },
        ) => if height >= latest.height {
            (Phase::Ended, Action::Complete { databases, digest: latest.digest })
        } else {
            (Phase::Ended, Action::Fail { error: BootstrapError::FloorNotApplied })
        },
        (Phase::Confirming { .. }, Event::Processed { height: None }) => (
            Phase::Ended,
            Action::Fail { error: BootstrapError::NoProcessedHeightAfterFloor },
        ),
        _ => arbitrary(),
    }
}

/// A startup in progress.
pub struct Bootstrap<const N: usize, A: Application> {
    pub phase: Phase<N, A>,
    /// It is stored durably that state sync is done.
    pub sync_done: bool,
}

/// Begins startup. `sync_done` tells what was stored by an earlier startup.
pub fn bootstrap<const N: usize, A: Application>(sync_done: bool, startup: Startup<N, A>) -> (begun: (
    Bootstrap<N, A>,
    Action<N, A>,
))
    ensures
        begun.0.wf(),
        begun.0.sync_done == sync_done,
        (begun.0.phase, begun.1) == first(sync_done, startup),
{
    let (phase, action) = match startup {
        Startup::Fresh => if sync_done {
            (Phase::Reopening, Action::OpenDatabases)
        } else {
            (Phase::Opening, Action::OpenDatabases)
        },
        Startup::Sync { initial_tip, tip_updates } => if sync_done {
            (Phase::Ended, Action::Fail { error: BootstrapError::AlreadySynced })
        } else {
            (
                Phase::SettingFloor {
                    initial: Anchor { height: initial_tip.height, digest: initial_tip.digest },
                    targets: initial_tip.targets,
                    tip_updates,
                },
                Action::SetFloor { height: initial_tip.height },
            )
        },
    };
    (Bootstrap { phase, sync_done }, action)
}

impl<const N: usize, A: Application> Bootstrap<N, A> {
    /// The phase goes with what is stored.
    pub open spec fn wf(self) -> bool {
        match self.phase {
            Phase::Ended => true,
            Phase::Opening => !self.sync_done,
            Phase::MarkingFresh { .. } => !self.sync_done,
            Phase::SettingFloor { .. } => !self.sync_done,
            Phase::Syncing { .. } => !self.sync_done,
            Phase::MarkingSynced { .. } => !self.sync_done,
            _ => self.sync_done,
        }
    }

    /// Takes in what came of the last action, and says what to do next.
    ///
    /// State sync runs only while it is not marked as done, and the actor starts only
    /// once it is.
    pub fn resume(self, event: Event<N, A>) -> (resumed: (Self, Action<N, A>))
        requires
            self.wf(),
            event.answers(self.phase),
        ensures
            resumed.0.wf(),
            resumed.0.sync_done == (self.sync_done || event is Marked),
            (resumed.0.phase, resumed.1) == next(self.phase, event),
            resumed.1 is RunSync ==> !resumed.0.sync_done,
            resumed.1 is Complete ==> resumed.0.sync_done,
    {
        let sync_done = self.sync_done || matches!(&event, Event::Marked);
        let (phase, action) = match (self.phase, event) {
            (Phase::Reopening, Event::Opened { databases }) => (
                Phase::Anchoring { databases },
                Action::AskProcessedHeight,
            ),
            (Phase::Anchoring { databases }, Event::Processed { height }) => match height {
                Some(height) => if height == 0 {
                    (Phase::AnchoringAtGenesis { databases }, Action::AskGenesis)
                } else {
                    (Phase::AnchoringAt { databases, height }, Action::AskDigest { height })
                },
                None => (Phase::Ended, Action::Fail { error: BootstrapError::NoProcessedHeight }),
            },
            (Phase::AnchoringAt { databases, height }, Event::Found { found }) => match found {
                Some(digest) => (Phase::Ended, Action::Complete { databases, digest }),
                None => (
                    Phase::Ended,
                    Action::Fail { error: BootstrapError::MissingDigest { height } },
                ),
            },
            (Phase::AnchoringAtGenesis { databases }, Event::Genesis { digest }) => (
                Phase::Ended,
                Action::Complete { databases, digest },
            ),
            (Phase::Opening, Event::Opened { databases }) => (
                Phase::MarkingFresh { databases },
                Action::MarkDone,
            ),
            (Phase::MarkingFresh { databases }, Event::Marked) => (
                Phase::AnchoringAtGenesis { databases },
                Action::AskGenesis,
            ),
            (Phase::SettingFloor { initial, targets, tip_updates }, Event::FloorSet) => (
                Phase::Syncing { initial },
                Action::RunSync { initial, targets, tip_updates },
            ),
            (Phase::Syncing { .. }, Event::Synced { databases, follower }) => (
                Phase::MarkingSynced { databases, latest: follower.latest() },
                Action::MarkDone,
            ),
            (Phase::MarkingSynced { databases, latest }, Event::Marked) => (
                Phase::RaisingFloor { databases, latest },
                Action::SetFloor { height: latest.height },
            ),
            (Phase::RaisingFloor { databases, latest }, Event::FloorSet) => (
                Phase::Confirming { databases, latest },
                Action::AskProcessedHeight,
            ),
            (Phase::Confirming { databases, latest }, Event::Processed { height }) => match height {
                Some(height) => if height >= latest.height {
                    (Phase::Ended, Action::Complete { databases, digest: latest.digest })
                } else {
                    (Phase::Ended, Action::Fail { error: BootstrapError::FloorNotApplied })
                },
                None => (
                    Phase::Ended,
                    Action::Fail { error: BootstrapError::NoProcessedHeightAfterFloor },
                ),
            },
            _ => vstd::pervasive::unreached(),
        };
        (Bootstrap { phase, sync_done }, action)
    }
}

impl BootstrapError {
    /// The text of the error.
    pub open spec fn text(self) -> Seq<char> {
        match self {
            BootstrapError::AlreadySynced
                => "state sync bootstrap received a sync startup target after state sync was already marked complete"@,
            BootstrapError::NoProcessedHeight
                => "state sync bootstrap failed to fetch marshal processed height"@,
            BootstrapError::MissingDigest { height }
                => "state sync bootstrap missing processed block digest at height "@
                + decimal_digits(height as nat),
            BootstrapError::NoProcessedHeightAfterFloor
                => "marshal must respond with processed height after set_floor"@,
            BootstrapError::FloorNotApplied
                => "marshal floor must be applied before sync_complete"@,
        }
    }

    /// Says in words what went wrong.
    pub fn message(&self) -> (message: String)
        ensures
            message@ == self.text(),
    {
        match self {
            BootstrapError::AlreadySynced => String::from_str(
                "state sync bootstrap received a sync startup target after state sync was already marked complete",
            ),
            BootstrapError::NoProcessedHeight => String::from_str(
                "state sync bootstrap failed to fetch marshal processed height",
            ),
            BootstrapError::MissingDigest { height } => String::from_str(
                "state sync bootstrap missing processed block digest at height ",
            ).concat(decimal(*height).as_str()),
            BootstrapError::NoProcessedHeightAfterFloor => String::from_str(
                "marshal must respond with processed height after set_floor",
            ),
            BootstrapError::FloorNotApplied => String::from_str(
                "marshal floor must be applied before sync_complete",
            ),
        }
    }
}

/// The phase and action after a sequence of events.
pub open spec fn run<const N: usize, A: Application>(
    from: (Phase<N, A>, Action<N, A>),
    events: Seq<Event<N, A>>,
) -> (Phase<N, A>, Action<N, A>)
    decreases events.len(),
{
    if events.len() == 0 {
        from
    } else {
        next(run(from, events.drop_last()).0, events.last())
    }
}

/// Every event of the sequence answers the action before it.
pub open spec fn answered<const N: usize, A: Application>(
    from: (Phase<N, A>, Action<N, A>),
    events: Seq<Event<N, A>>,
) -> bool
    decreases events.len(),
{
    events.len() > 0 ==> answered(from, events.drop_last()) && events.last().answers(
        run(from, events.drop_last()).0,
    )
}

/// State sync is once only: when it was done before, startup never runs it, sets no
/// floor and marks nothing, whatever happens.
pub proof fn law_state_sync_is_once_only<const N: usize, A: Application>(
    startup: Startup<N, A>,
    events: Seq<Event<N, A>>,
)
    requires
        answered(first(true, startup), events),
    ensures
        ({
            let (phase, action) = run(first(true, startup), events);
            &&& phase is Reopening || phase is Anchoring || phase is AnchoringAt
                || phase is AnchoringAtGenesis || phase is Ended
            &&& !(action is RunSync) && !(action is SetFloor) && !(action is MarkDone)
        }),
    decreases events.len(),
{
    if events.len() > 0 {
        law_state_sync_is_once_only(startup, events.drop_last());
    }
}

/// When state sync was done before, the actor starts with the databases that were
/// opened: at genesis if marshal has processed nothing, and at the block that it has
/// processed last otherwise.
pub proof fn law_restart<const N: usize, A: Application>(
    databases: A::Databases,
    height: u64,
    digest: Digest<N>,
)
    ensures
        ({
            let opened = next(
                first::<N, A>(true, Startup::Fresh).0,
                Event::Opened { databases },
            );
            let asked = next(opened.0, Event::Processed { height: Some(height) });
            let found = next(
                asked.0,
                if height == 0 {
                    Event::Genesis { digest }
                } else {
                    Event::Found { found: Some(digest) }
                },
            );
            &&& first::<N, A>(true, Startup::Fresh).1 is OpenDatabases
            &&& opened.1 is AskProcessedHeight
            &&& asked.1 == if height == 0 {
                Action::<N, A>::AskGenesis
            } else {
                Action::<N, A>::AskDigest { height }
            }
            &&& found == (Phase::<N, A>::Ended, Action::<N, A>::Complete { databases, digest })
        }),
{
}

/// A fresh startup marks state sync as done before it completes, and the actor starts
/// with new databases at genesis.
pub proof fn law_fresh_startup<const N: usize, A: Application>(
    databases: A::Databases,
    digest: Digest<N>,
)
    ensures
        ({
            let opened = next(
                first::<N, A>(false, Startup::Fresh).0,
                Event::Opened { databases },
            );
            let marked = next(opened.0, Event::Marked);
            let asked = next(marked.0, Event::Genesis { digest });
            &&& first::<N, A>(false, Startup::Fresh).1 is OpenDatabases
            &&& opened.1 is MarkDone
            &&& marked.1 is AskGenesis
            &&& asked == (Phase::<N, A>::Ended, Action::<N, A>::Complete { databases, digest })
        }),
{
}

/// State sync runs from the initial tip, above its floor. It is marked as done before
/// the floor is raised to the last tip whose targets were sent, or to the initial one, and
/// the actor starts at that block if marshal confirms the floor, and only then.
pub proof fn law_sync_startup<const N: usize, A: Application>(
    initial_tip: SyncTip<N, A::SyncTargets>,
    tip_updates: A::TipReceiver,
    databases: A::Databases,
    follower: Follower<N>,
    height: Option<u64>,
)
    requires
        follower.initial() == (Anchor { height: initial_tip.height, digest: initial_tip.digest }),
    ensures
        ({
            let initial = Anchor { height: initial_tip.height, digest: initial_tip.digest };
            let latest = followed(initial, follower.tips());
            let begun = first::<N, A>(false, Startup::Sync { initial_tip, tip_updates });
            let floored = next(begun.0, Event::FloorSet);
            let synced = next(floored.0, Event::Synced { databases, follower });
            let marked = next(synced.0, Event::Marked);
            let raised = next(marked.0, Event::FloorSet);
            let confirmed = next(raised.0, Event::Processed { height });
            &&& begun.1 == (Action::<N, A>::SetFloor { height: initial_tip.height })
            &&& floored.1 == (Action::<N, A>::RunSync {
                initial,
                targets: initial_tip.targets,
                tip_updates,
            })
            &&& (Event::<N, A>::Synced { databases, follower }).answers(floored.0)
            &&& synced.1 is MarkDone
            &&& marked.1 == (Action::<N, A>::SetFloor { height: latest.height })
            &&& raised.1 is AskProcessedHeight
            &&& confirmed.0 is Ended
            &&& if height is Some && height->0 >= latest.height {
                confirmed.1 == (Action::<N, A>::Complete { databases, digest: latest.digest })
            } else {
                confirmed.1 is Fail
            }
        }),
{
}

/// The anchor is the last tip whose targets were sent, and the initial tip if none was.
pub proof fn law_anchor_is_last_sent<const N: usize>(
    initial: Anchor<N>,
    tips: Seq<(Anchor<N>, bool)>,
)
    ensures
        (forall|i: int| 0 <= i < tips.len() ==> !(#[trigger] tips[i]).1) ==> followed(initial, tips)
            == initial,
        forall|i: int|
            0 <= i < tips.len() && (#[trigger] tips[i]).1 && (forall|j: int|
                i < j < tips.len() ==> !(#[trigger] tips[j]).1) ==> followed(initial, tips)
                == tips[i].0,
    decreases tips.len(),
{
    if tips.len() > 0 {
        let rest = tips.drop_last();
        law_anchor_is_last_sent(initial, rest);
        assert forall|i: int|
            0 <= i < tips.len() && (#[trigger] tips[i]).1 && (forall|j: int|
                i < j < tips.len() ==> !(#[trigger] tips[j]).1) implies followed(initial, tips)
            == tips[i].0 by {
            if i < rest.len() {
                assert(rest[i] == tips[i]);
                assert(!tips[tips.len() - 1].1);
                assert forall|j: int| i < j < rest.len() implies !(#[trigger] rest[j]).1 by {
                    assert(rest[j] == tips[j]);
                }
            }
        }
        if forall|i: int| 0 <= i < tips.len() ==> !(#[trigger] tips[i]).1 {
            assert forall|i: int| 0 <= i < rest.len() implies !(#[trigger] rest[i]).1 by {
                assert(rest[i] == tips[i]);
            }
            assert(!tips[tips.len() - 1].1);
        }
    }
}

} // verus!
