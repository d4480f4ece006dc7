//! One tick of the leaderboard poll, as a state machine.
//!
//! A tick goes from idle through fetching, diffing, publishing and
//! persisting back to idle; any failure leads to the error state, which is
//! left for idle once the failure is logged. The machine decides; the work
//! that reaches outside (reading and writing the store, fetching, publishing)
//! is done by whoever drives it, who reports each outcome as an event and
//! gets the next thing to do as an action.

use vstd::prelude::*;
use crate::diff::{diff, diff_changes, distinct_identities};
use crate::ident::is_id;
use crate::models::{RepData, RepDataQueueItem};
use crate::polls::TickError;
use crate::publisher::batch;

verus! {

/// What the store held when the tick began.
pub struct Stored {
    /// The time of the last completed tick, if there was one.
    pub last_run: Option<i64>,
    /// The snapshot of the last completed tick, if the store holds one.
    pub previous: Option<Vec<RepData>>,
}

impl Stored {
    /// A first run: no tick was completed before, or no snapshot is stored.
    pub open spec fn first_run(self) -> bool {
        self.last_run is None || self.previous is None
    }

    /// What the store held, from what was read of it: the time of the last
    /// run, and the entries of the stored snapshot. A store without entries
    /// holds no snapshot.
    pub fn from_store(last_run: Option<i64>, entries: Vec<RepData>) -> (stored: Stored)
        ensures
            stored.last_run == last_run,
            entries@.len() == 0 ==> stored.previous is None,
            entries@.len() > 0 ==> stored.previous == Some(entries),
    {
        if entries.len() == 0 {
            Stored { last_run, previous: None }
        } else {
            Stored { last_run, previous: Some(entries) }
        }
    }
}

/// Where a tick stands.
pub enum Tick {
    /// No tick is under way.
    Idle,
    /// The current list is being fetched.
    Fetching { stored: Stored, include_team_handle: bool },
    /// Both snapshots are at hand and are to be compared.
    Diffing { previous: Vec<RepData>, current: Vec<RepData>, include_team_handle: bool },
    /// The batch is being published: first on the live channel, then, once
    /// `live_done`, to the backlog.
    Publishing { item: RepDataQueueItem, snapshot: Vec<RepData>, live_done: bool },
    /// The new snapshot is being stored: first the snapshot, then, once
    /// `snapshot_saved`, the time of the run.
    Persisting { snapshot: Vec<RepData>, snapshot_saved: bool },
    /// The tick has failed.
    Error(TickError),
}

/// What the driver reports.
pub enum Event {
    /// A tick is due; the store was read.
    Due { stored: Stored, include_team_handle: bool },
    /// The complete current list was fetched.
    Fetched(Vec<RepData>),
    /// Nothing had to be done outside; the time is `now`, in milliseconds
    /// since the Unix epoch.
    Proceed { now: i64 },
    /// The action was carried out.
    Done,
    /// The action failed.
    Failed(TickError),
    /// The failure was logged.
    Logged,
}

/// What the driver is to do next.
#[derive(Debug, Clone, Copy, PartialEq, Eq, Structural)]
pub enum Action {
    /// Fetch the complete current list and report `Fetched` or `Failed`.
    Fetch,
    /// Report `Proceed` with the current time.
    Proceed,
    /// Publish the batch of the state on the live channel.
    PublishLive,
    /// Append the batch of the state to the backlog.
    AppendBacklog,
    /// Replace the stored snapshot by the snapshot of the state.
    SaveSnapshot,
    /// Store the current time as the time of the last run.
    SaveMarker,
    /// Log the error of the state and report `Logged`.
    Log,
    /// The tick is over; wait for the next one.
    Rest,
}

/// What follows when the fetched list `current` arrives.
///
/// On a first run the list is stored as it is and nothing is compared or
/// published. Otherwise an empty list against a snapshot that is not empty
/// fails the tick, and any other list goes on to be compared.
pub open spec fn after_fetch(
    stored: Stored,
    include_team_handle: bool,
    current: Vec<RepData>,
    after: Tick,
    action: Action,
) -> bool {
    if stored.first_run() {
        after == (Tick::Persisting { snapshot: current, snapshot_saved: false }) && action
            == Action::SaveSnapshot
    } else if stored.previous->0@.len() > 0 && current@.len() == 0 {
        after == Tick::Error(TickError::EmptySnapshotGuard) && action == Action::Log
    } else {
        after == (Tick::Diffing { previous: stored.previous->0, current, include_team_handle })
            && action == Action::Proceed
    }
}

/// What follows when the two snapshots are compared at time `now`.
///
/// Two entries of one participant in the current list fail the tick. Where
/// nothing changed the snapshot is stored at once. Otherwise the changes are
/// published first, as a batch made at `now` with a new identifier.
pub open spec fn after_diff(
    previous: Vec<RepData>,
    current: Vec<RepData>,
    include_team_handle: bool,
    now: i64,
    after: Tick,
    action: Action,
) -> bool {
    let changes = diff_changes(previous.deep_view(), current.deep_view());
    if !distinct_identities(current.deep_view()) {
        after == Tick::Error(TickError::DuplicateIdentity) && action == Action::Log
    } else if changes.len() == 0 {
        after == (Tick::Persisting { snapshot: current, snapshot_saved: false }) && action
            == Action::SaveSnapshot
    } else {
        &&& action == Action::PublishLive
        &&& after matches Tick::Publishing { item, snapshot, live_done }
        &&& snapshot == current
        &&& !live_done
        &&& item.diff.deep_view() == changes
        &&& item.include_team_handle == include_team_handle
        &&& item.created_at == now
        &&& item.id matches Some(id) && is_id(id@)
    }
}

/// The transition relation: from the state `before`, the event `event` leads
/// to the state `after` and the action `action`.
///
/// In the error state every event leads back to idle. In every other state a
/// reported failure leads to the error state with that failure, and an event
/// that the state does not wait for leads to the error state with
/// `UnexpectedEvent`; both are to be logged.
pub open spec fn follows(before: Tick, event: Event, after: Tick, action: Action) -> bool {
    match (before, event) {
        (Tick::Error(_), _) => after == Tick::Idle && action == Action::Rest,
        (_, Event::Failed(error)) => after == Tick::Error(error) && action == Action::Log,
        (Tick::Idle, Event::Due { stored, include_team_handle }) => after == (Tick::Fetching {
            stored,
            include_team_handle,
        }) && action == Action::Fetch,
        (Tick::Fetching { stored, include_team_handle }, Event::Fetched(current)) => after_fetch(
            stored,
            include_team_handle,
            current,
            after,
            action,
        ),
        (Tick::Diffing { previous, current, include_team_handle }, Event::Proceed { now }) => after_diff(
            previous,
            current,
            include_team_handle,
            now,
            after,
            action,
        ),
        (Tick::Publishing { item, snapshot, live_done }, Event::Done) => if live_done {
            after == (Tick::Persisting { snapshot, snapshot_saved: false }) && action
                == Action::SaveSnapshot
        } else {
            after == (Tick::Publishing { item, snapshot, live_done: true }) && action
                == Action::AppendBacklog
        },
        (Tick::Persisting { snapshot, snapshot_saved }, Event::Done) => if snapshot_saved {
            after == Tick::Idle && action == Action::Rest
        } else {
            after == (Tick::Persisting { snapshot, snapshot_saved: true }) && action
                == Action::SaveMarker
        },
        _ => after == Tick::Error(TickError::UnexpectedEvent) && action == Action::Log,
    }
}

fn unexpected() -> (r: (Tick, Action))
    ensures
        r.0 == Tick::Error(TickError::UnexpectedEvent),
        r.1 == Action::Log,
{
    (Tick::Error(TickError::UnexpectedEvent), Action::Log)
}

impl Tick {
    /// A machine at rest.
    pub fn new() -> (tick: Tick)
        ensures
            tick == Tick::Idle,
    {
        Tick::Idle
    }

    /// Takes an event and says what state follows and what is to be done.
    pub fn step(self, event: Event) -> (r: (Tick, Action))
        ensures
            follows(self, event, r.0, r.1),
    {
        match self {
            Tick::Error(_) => (Tick::Idle, Action::Rest),
            Tick::Idle => match event {
                Event::Failed(error) => (Tick::Error(error), Action::Log),
                Event::Due { stored, include_team_handle } => (
                    Tick::Fetching { stored, include_team_handle },
                    Action::Fetch,
                ),
                _ => unexpected(),
            },
            Tick::Fetching { stored, include_team_handle } => match event {
                Event::Failed(error) => (Tick::Error(error), Action::Log),
                Event::Fetched(current) => {
                    let Stored { last_run, previous } = stored;
                    match previous {
                        Some(previous) => {
                            if last_run.is_none() {
                                (
                                    Tick::Persisting { snapshot: current, snapshot_saved: false },
                                    Action::SaveSnapshot,
                                )
                            } else if previous.len() > 0 && current.len() == 0 {
                                (Tick::Error(TickError::EmptySnapshotGuard), Action::Log)
                            } else {
                                (
                                    Tick::Diffing { previous, current, include_team_handle },
                                    Action::Proceed,
                                )
                            }
                        },
                        None => (
                            Tick::Persisting { snapshot: current, snapshot_saved: false },
                            Action::SaveSnapshot,
                        ),
                    }
                },
                _ => unexpected(),
            },
            Tick::Diffing { previous, current, include_team_handle } => match event {
                Event::Failed(error) => (Tick::Error(error), Action::Log),
                Event::Proceed { now } => match diff(&previous, &current) {
                    Err(_) => (Tick::Error(TickError::DuplicateIdentity), Action::Log),
                    Ok(changes) => match batch(changes, include_team_handle, now) {
                        None => (
                            Tick::Persisting { snapshot: current, snapshot_saved: false },
                            Action::SaveSnapshot,
                        ),
                        Some(item) => (
                            Tick::Publishing { item, snapshot: current, live_done: false },
                            Action::PublishLive,
                        ),
                    },
                },
                _ => unexpected(),
            },
            Tick::Publishing { item, snapshot, live_done } => match event {
                Event::Failed(error) => (Tick::Error(error), Action::Log),
                Event::Done => if live_done {
                    (Tick::Persisting { snapshot, snapshot_saved: false }, Action::SaveSnapshot)
                } else {
                    (Tick::Publishing { item, snapshot, live_done: true }, Action::AppendBacklog)
                },
                _ => unexpected(),
            },
            Tick::Persisting { snapshot, snapshot_saved } => match event {
                Event::Failed(error) => (Tick::Error(error), Action::Log),
                Event::Done => if snapshot_saved {
                    (Tick::Idle, Action::Rest)
                } else {
                    (Tick::Persisting { snapshot, snapshot_saved: true }, Action::SaveMarker)
                },
                _ => unexpected(),
            },
        }
    }

    /// The batch that is being published, while the tick is publishing.
    pub fn batch(&self) -> (r: Option<&RepDataQueueItem>)
        ensures
            match *self {
                Tick::Publishing { item, .. } => r == Some(&item),
                _ => r is None,
            },
    {
        match self {
            Tick::Publishing { item, .. } => Some(item),
            _ => None,
        }
    }

    /// The snapshot that is to replace the stored one, once the tick has one.
    pub fn snapshot(&self) -> (r: Option<&Vec<RepData>>)
        ensures
            match *self {
                Tick::Publishing { snapshot, .. } => r == Some(&snapshot),
                Tick::Persisting { snapshot, .. } => r == Some(&snapshot),
                _ => r is None,
            },
    {
        match self {
            Tick::Publishing { snapshot, .. } => Some(snapshot),
            Tick::Persisting { snapshot, .. } => Some(snapshot),
            _ => None,
        }
    }

    /// The failure, while the tick is in the error state.
    pub fn error(&self) -> (r: Option<TickError>)
        ensures
            match *self {
                Tick::Error(error) => r == Some(error),
                _ => r is None,
            },
    {
        match self {
            Tick::Error(error) => Some(*error),
            _ => None,
        }
    }
}

/// Whether an action sends changes anywhere.
pub open spec fn publishes(action: Action) -> bool {
    action == Action::PublishLive || action == Action::AppendBacklog
}

/// First-run idempotence. Where no run is recorded or no snapshot is stored,
/// the fetched list, whatever it holds, is stored as it is: the tick goes
/// from fetching straight to persisting, stores the snapshot, then the time
/// of the run, and rests, and none of its actions publishes anything.
pub proof fn lemma_first_run(
    stored: Stored,
    include_team_handle: bool,
    current: Vec<RepData>,
    first: (Tick, Action),
    second: (Tick, Action),
    third: (Tick, Action),
)
    requires
        stored.first_run(),
        follows(
            Tick::Fetching { stored, include_team_handle },
            Event::Fetched(current),
            first.0,
            first.1,
        ),
        follows(first.0, Event::Done, second.0, second.1),
        follows(second.0, Event::Done, third.0, third.1),
    ensures
        first.0 == (Tick::Persisting { snapshot: current, snapshot_saved: false }),
        first.1 == Action::SaveSnapshot,
        second.0 == (Tick::Persisting { snapshot: current, snapshot_saved: true }),
        second.1 == Action::SaveMarker,
        third.0 == Tick::Idle,
        third.1 == Action::Rest,
        !publishes(first.1) && !publishes(second.1) && !publishes(third.1),
{
}

/// Empty-snapshot guard. After a recorded run with a snapshot that is not
/// empty, an empty fetched list fails the tick: the machine goes to the error
/// state with `EmptySnapshotGuard`, asks for the failure to be logged, and
/// then rests. It never asks for the snapshot to be stored.
pub proof fn lemma_empty_snapshot_guard(
    stored: Stored,
    include_team_handle: bool,
    current: Vec<RepData>,
    event: Event,
    first: (Tick, Action),
    second: (Tick, Action),
)
    requires
        stored.last_run is Some,
        stored.previous matches Some(previous) && previous@.len() > 0,
        current@.len() == 0,
        follows(
            Tick::Fetching { stored, include_team_handle },
            Event::Fetched(current),
            first.0,
            first.1,
        ),
        follows(first.0, event, second.0, second.1),
    ensures
        first.0 == Tick::Error(TickError::EmptySnapshotGuard),
        first.1 == Action::Log,
        second.0 == Tick::Idle,
        second.1 == Action::Rest,
{
}

/// A failed publication stores nothing. A failure reported while the batch
/// is being published, on the live channel or to the backlog, leads to the
/// error state and from there to idle: the snapshot is never asked to be
/// stored, so the next tick compares against the old one again.
pub proof fn lemma_failed_publication_stores_nothing(
    item: RepDataQueueItem,
    snapshot: Vec<RepData>,
    live_done: bool,
    error: TickError,
    event: Event,
    first: (Tick, Action),
    second: (Tick, Action),
)
    requires
        follows(
            Tick::Publishing { item, snapshot, live_done },
            Event::Failed(error),
            first.0,
            first.1,
        ),
        follows(first.0, event, second.0, second.1),
    ensures
        first.0 == Tick::Error(error),
        first.1 == Action::Log,
        second.0 == Tick::Idle,
        second.1 == Action::Rest,
{
}

} // verus!
