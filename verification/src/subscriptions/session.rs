//! Delivering the changes of the leaderboard, one notification after the
//! other: the replay of the backlog when a consumer starts, and the delivery
//! of a batch that arrives on the live channel.
//!
//! A session decides; the sending and the clearing of the stored backlog are
//! done by whoever drives it, who reports each outcome and gets the next
//! thing to do. Only a replay, and only one whose notifications have all
//! arrived, ends with the clearing of the backlog. A live session never
//! touches it.

use vstd::prelude::*;
use crate::backlog::{bounded, Backlog};
use crate::models::{RepChange, RepDataQueueItem};
use crate::ranking::{sort_ranked, sorted_of};
use crate::subscriptions::reputation::{build_embed_data, programme_of, team_handle_of, told_of};
use crate::subscriptions::{Notification, NotificationView};

verus! {

/// A change that waits to be told.
pub struct Pending {
    pub change: RepChange,
    /// Whether the notification is to name the programme.
    pub include_team_handle: bool,
    /// The time of the batch, in milliseconds since the Unix epoch, where the
    /// notification is to carry it.
    pub timestamp: Option<i64>,
}

/// A notification to send, with the time it is to carry.
#[derive(Debug)]
pub struct Message {
    pub notification: Notification,
    pub timestamp: Option<i64>,
}

/// Why a session stopped.
#[derive(Debug, Clone, Copy, PartialEq, Eq, Structural)]
pub enum SessionError {
    /// A change names no programme on either side.
    NoProgramme,
    /// The work that was ordered last has failed.
    Failed,
    /// Something was reported that the session was not waiting for.
    UnexpectedReport,
}

/// Where a session stands.
#[derive(Debug, Clone, Copy, PartialEq, Eq, Structural)]
pub enum Phase {
    /// Nothing was ordered yet.
    Ready,
    /// A notification is being sent.
    Delivering,
    /// The stored backlog is being cleared.
    Clearing,
    /// Everything is done.
    Finished,
    /// The session was given up.
    Stopped(SessionError),
}

/// What the driver reports.
#[derive(Debug, Clone, Copy, PartialEq, Eq, Structural)]
pub enum Report {
    /// The session is to begin.
    Begin,
    /// The notification has arrived.
    Delivered,
    /// The stored backlog is cleared.
    Cleared,
    /// The work that was ordered last has failed.
    Failed,
}

/// What the driver is to do next.
#[derive(Debug)]
pub enum Order {
    /// Send this notification and report `Delivered` or `Failed`.
    Deliver(Message),
    /// Clear the stored backlog and report `Cleared` or `Failed`.
    ClearBacklog,
    /// The session is over.
    Finish,
    /// The session is given up; the stored backlog stays as it is.
    Stop(SessionError),
}

/// An order as a mathematical value.
pub enum OrderView {
    Deliver { notification: NotificationView, timestamp: Option<i64> },
    ClearBacklog,
    Finish,
    Stop(SessionError),
}

impl View for Order {
    type V = OrderView;

    open spec fn view(&self) -> OrderView {
        match self {
            Order::Deliver(message) => OrderView::Deliver {
                notification: message.notification@,
                timestamp: message.timestamp,
            },
            Order::ClearBacklog => OrderView::ClearBacklog,
            Order::Finish => OrderView::Finish,
            Order::Stop(error) => OrderView::Stop(*error),
        }
    }
}

/// A session: the changes that wait, in the order of their delivery; whether
/// it ends with the clearing of the backlog; and where it stands.
pub struct Session {
    waiting: Vec<Pending>,
    clears: bool,
    phase: Phase,
}

/// A session as a mathematical value.
pub struct SessionView {
    pub waiting: Seq<Pending>,
    pub clears: bool,
    pub phase: Phase,
}

impl View for Session {
    type V = SessionView;

    closed spec fn view(&self) -> SessionView {
        SessionView { waiting: self.waiting@, clears: self.clears, phase: self.phase }
    }
}

/// The changes of a batch as they wait: in the order of their delivery, by
/// the rank of the participant, each with the batch's word on naming the
/// programme, and with the batch's time where they are to carry it.
pub open spec fn item_queue(item: RepDataQueueItem, stamped: bool) -> Seq<Pending> {
    let sorted = sorted_of(item.diff@);
    Seq::new(
        sorted.len(),
        |i: int|
            Pending {
                change: sorted[i],
                include_team_handle: item.include_team_handle,
                timestamp: if stamped {
                    Some(item.created_at)
                } else {
                    None
                },
            },
    )
}

/// The changes of the batches of a replay as they wait: batch after batch,
/// each carrying the time of its batch.
pub open spec fn batch_queue(batch: Seq<RepDataQueueItem>) -> Seq<Pending>
    decreases batch.len(),
{
    if batch.len() == 0 {
        Seq::empty()
    } else {
        batch_queue(batch.drop_last()) + item_queue(batch.last(), true)
    }
}

/// What is told of a waiting change, if anything. Nothing is told of a
/// change whose reputation is the same on both sides.
#[verifier::opaque]
pub open spec fn to_tell(pending: Pending) -> Option<NotificationView> {
    match programme_of(pending.change@) {
        Some(handle) => told_of(pending.change@, handle, pending.include_team_handle),
        None => None,
    }
}

/// What comes next when `waiting` is what waits: the first change of which
/// something is told is delivered, and those before it are passed over; a
/// change that names no programme stops the session; where nothing is left,
/// a replay goes on to clear the backlog and a live session is over.
pub open spec fn advance(waiting: Seq<Pending>, clears: bool) -> (SessionView, OrderView)
    decreases waiting.len(),
{
    if waiting.len() == 0 {
        if clears {
            (SessionView { waiting, clears, phase: Phase::Clearing }, OrderView::ClearBacklog)
        } else {
            (SessionView { waiting, clears, phase: Phase::Finished }, OrderView::Finish)
        }
    } else {
        let head = waiting.first();
        let rest = waiting.drop_first();
        if programme_of(head.change@) is None {
            (
                SessionView {
                    waiting: rest,
                    clears,
                    phase: Phase::Stopped(SessionError::NoProgramme),
                },
                OrderView::Stop(SessionError::NoProgramme),
            )
        } else {
            match to_tell(head) {
                Some(notification) => (
                    SessionView { waiting: rest, clears, phase: Phase::Delivering },
                    OrderView::Deliver { notification, timestamp: head.timestamp },
                ),
                None => advance(rest, clears),
            }
        }
    }
}

/// The transition relation: from the session `before`, the report `report`
/// leads to the session `after` and the order `order`.
///
/// A session that is finished or stopped stays so, whatever is reported. In
/// every other phase a reported failure stops the session. The session
/// advances when it begins and whenever a notification has arrived. A report
/// that the phase does not wait for stops the session.
pub open spec fn follows(before: SessionView, report: Report, after: SessionView, order: OrderView)
    -> bool {
    match (before.phase, report) {
        (Phase::Finished, _) => after == before && order == OrderView::Finish,
        (Phase::Stopped(error), _) => after == before && order == OrderView::Stop(error),
        (_, Report::Failed) => after == (SessionView {
            phase: Phase::Stopped(SessionError::Failed),
            ..before
        }) && order == OrderView::Stop(SessionError::Failed),
        (Phase::Ready, Report::Begin) => (after, order) == advance(before.waiting, before.clears),
        (Phase::Delivering, Report::Delivered) => (after, order) == advance(
            before.waiting,
            before.clears,
        ),
        (Phase::Clearing, Report::Cleared) => after == (SessionView {
            phase: Phase::Finished,
            ..before
        }) && order == OrderView::Finish,
        _ => after == (SessionView {
            phase: Phase::Stopped(SessionError::UnexpectedReport),
            ..before
        }) && order == OrderView::Stop(SessionError::UnexpectedReport),
    }
}

fn queue_item(out: &mut Vec<Pending>, item: RepDataQueueItem, stamped: bool)
    ensures
        final(out)@ == old(out)@ + item_queue(item, stamped),
{
    let include_team_handle = item.include_team_handle;
    let timestamp = if stamped {
        Some(item.created_at)
    } else {
        None
    };
    let mut sorted = sort_ranked(item.diff);
    let ghost all = sorted@;
    let ghost queue = item_queue(item, stamped);
    let ghost start = out@;
    let mut i: usize = 0;
    let n = sorted.len();
    assert(out@ =~= start + queue.take(0));
    while i < n
        invariant
            i <= n,
            n == all.len(),
            all == sorted_of(item.diff@),
            queue == item_queue(item, stamped),
            include_team_handle == item.include_team_handle,
            timestamp == (if stamped {
                Some(item.created_at)
            } else {
                None
            }),
            sorted@.len() == n - i,
            forall|k: int| 0 <= k < sorted@.len() ==> sorted@[k] == all[i + k],
            out@ == start + queue.take(i as int),
        decreases n - i,
    {
        let change = sorted.remove(0);
        out.push(Pending { change, include_team_handle, timestamp });
        proof {
            assert(change == all[i as int]);
            assert(queue.take(i + 1) =~= queue.take(i as int).push(queue[i as int]));
            assert(out@ =~= start + queue.take(i + 1));
        }
        i += 1;
    }
    assert(queue.take(n as int) =~= queue);
}

fn advance_from(queue: Vec<Pending>, clears: bool) -> (r: (Session, Order))
    ensures
        (r.0@, r.1@) == advance(queue@, clears),
        r.1 matches Order::Deliver(message) ==> is_plain(message.notification),
{
    let mut waiting = queue;
    while waiting.len() > 0
        invariant
            advance(queue@, clears) == advance(waiting@, clears),
        decreases waiting.len(),
    {
        let ghost before = waiting@;
        let head = waiting.remove(0);
        proof {
            reveal(to_tell);
            assert(head == before.first());
            assert(waiting@ =~= before.drop_first());
        }
        match team_handle_of(&head.change) {
            None => {
                return (
                    Session { waiting, clears, phase: Phase::Stopped(SessionError::NoProgramme) },
                    Order::Stop(SessionError::NoProgramme),
                );
            },
            Some(handle) => {
                match build_embed_data(&head.change, handle.as_str(), head.include_team_handle) {
                    Some(notification) => {
                        return (
                            Session { waiting, clears, phase: Phase::Delivering },
                            Order::Deliver(Message { notification, timestamp: head.timestamp }),
                        );
                    },
                    None => {},
                }
            },
        }
    }
    assert(waiting@ =~= Seq::empty());
    if clears {
        (Session { waiting, clears, phase: Phase::Clearing }, Order::ClearBacklog)
    } else {
        (Session { waiting, clears, phase: Phase::Finished }, Order::Finish)
    }
}

/// A notification of the leaderboard has a description and nothing that a
/// view leaves out: no title, no address, no named values.
pub open spec fn is_plain(notification: Notification) -> bool {
    &&& notification.title is None
    &&& notification.url is None
    &&& notification.description is Some
    &&& notification.fields@.len() == 0
}

impl Session {
    /// The replay of a backlog: of at most `bound` batches, the oldest
    /// first, each change carrying the time of its batch. A replay that is
    /// not stopped ends with the clearing of the stored backlog.
    pub fn replay(backlog: Backlog, bound: usize) -> (session: Session)
        ensures
            session@ == (SessionView {
                waiting: batch_queue(
                    backlog@.take(bounded(bound as int, backlog@.len() as int)),
                ),
                clears: true,
                phase: Phase::Ready,
            }),
    {
        let mut batch = backlog.oldest(bound);
        let ghost all = batch@;
        let mut waiting: Vec<Pending> = Vec::new();
        let n = batch.len();
        let mut i: usize = 0;
        assert(all.take(0) =~= Seq::empty());
        while i < n
            invariant
                i <= n,
                n == all.len(),
                batch@.len() == n - i,
                forall|k: int| 0 <= k < batch@.len() ==> batch@[k] == all[i + k],
                waiting@ == batch_queue(all.take(i as int)),
            decreases n - i,
        {
            let item = batch.remove(0);
            proof {
                assert(all.take(i + 1).drop_last() =~= all.take(i as int));
                assert(all.take(i + 1).last() == item);
            }
            queue_item(&mut waiting, item, true);
            i += 1;
        }
        assert(all.take(n as int) =~= all);
        Session { waiting, clears: true, phase: Phase::Ready }
    }

    /// The delivery of a batch that arrived on the live channel. Its
    /// notifications carry no time, and it never clears the stored backlog.
    pub fn live(item: RepDataQueueItem) -> (session: Session)
        ensures
            session@ == (SessionView {
                waiting: item_queue(item, false),
                clears: false,
                phase: Phase::Ready,
            }),
    {
        let mut waiting: Vec<Pending> = Vec::new();
        queue_item(&mut waiting, item, false);
        assert(waiting@ =~= item_queue(item, false));
        Session { waiting, clears: false, phase: Phase::Ready }
    }

    /// Takes a report and says what follows and what is to be done.
    pub fn step(self, report: Report) -> (r: (Session, Order))
        ensures
            follows(self@, report, r.0@, r.1@),
            r.1 matches Order::Deliver(message) ==> is_plain(message.notification),
    {
        let Session { waiting, clears, phase } = self;
        match phase {
            Phase::Finished => (Session { waiting, clears, phase }, Order::Finish),
            Phase::Stopped(error) => (Session { waiting, clears, phase }, Order::Stop(error)),
            Phase::Ready => match report {
                Report::Failed => (
                    Session { waiting, clears, phase: Phase::Stopped(SessionError::Failed) },
                    Order::Stop(SessionError::Failed),
                ),
                Report::Begin => advance_from(waiting, clears),
                _ => (
                    Session {
                        waiting,
                        clears,
                        phase: Phase::Stopped(SessionError::UnexpectedReport),
                    },
                    Order::Stop(SessionError::UnexpectedReport),
                ),
            },
            Phase::Delivering => match report {
                Report::Failed => (
                    Session { waiting, clears, phase: Phase::Stopped(SessionError::Failed) },
                    Order::Stop(SessionError::Failed),
                ),
                Report::Delivered => advance_from(waiting, clears),
                _ => (
                    Session {
                        waiting,
                        clears,
                        phase: Phase::Stopped(SessionError::UnexpectedReport),
                    },
                    Order::Stop(SessionError::UnexpectedReport),
                ),
            },
            Phase::Clearing => match report {
                Report::Failed => (
                    Session { waiting, clears, phase: Phase::Stopped(SessionError::Failed) },
                    Order::Stop(SessionError::Failed),
                ),
                Report::Cleared => (Session { waiting, clears, phase: Phase::Finished }, Order::Finish),
                _ => (
                    Session {
                        waiting,
                        clears,
                        phase: Phase::Stopped(SessionError::UnexpectedReport),
                    },
                    Order::Stop(SessionError::UnexpectedReport),
                ),
            },
        }
    }
}

/// What an advance leads to, by its order. A delivery tells of the first
/// waiting change of which something is told, carries that change's time,
/// and leaves waiting what stands behind it. The clearing of the backlog is
/// ordered only in a replay, and only when nothing is left of which anything
/// is told. Whether a session clears never changes.
pub proof fn lemma_advance(waiting: Seq<Pending>, clears: bool) -> (k: int)
    ensures
        0 <= k <= waiting.len(),
        forall|i: int| 0 <= i < k ==> to_tell(#[trigger] waiting[i]) is None,
        advance(waiting, clears).0.clears == clears,
        match advance(waiting, clears).1 {
            OrderView::Deliver { notification, timestamp } => {
                &&& k < waiting.len()
                &&& to_tell(waiting[k]) == Some(notification)
                &&& timestamp == waiting[k].timestamp
                &&& advance(waiting, clears).0.waiting == waiting.skip(k + 1)
                &&& advance(waiting, clears).0.phase == Phase::Delivering
            },
            OrderView::ClearBacklog => {
                &&& clears
                &&& k == waiting.len()
                &&& advance(waiting, clears).0.waiting.len() == 0
                &&& advance(waiting, clears).0.phase == Phase::Clearing
            },
            OrderView::Finish => {
                &&& !clears
                &&& k == waiting.len()
                &&& advance(waiting, clears).0.phase == Phase::Finished
            },
            OrderView::Stop(error) => {
                &&& error == SessionError::NoProgramme
                &&& k < waiting.len()
                &&& programme_of(waiting[k].change@) is None
                &&& advance(waiting, clears).0.phase == Phase::Stopped(error)
            },
        },
    decreases waiting.len(),
{
    if waiting.len() == 0 {
        0
    } else {
        let head = waiting.first();
        let rest = waiting.drop_first();
        if programme_of(head.change@) is Some && to_tell(head) is None {
            let k = lemma_advance(rest, clears);
            assert(advance(waiting, clears) == advance(rest, clears));
            assert forall|i: int| 0 <= i < k + 1 implies to_tell(#[trigger] waiting[i]) is None by {
                if i > 0 {
                    assert(waiting[i] == rest[i - 1]);
                }
            }
            if k < rest.len() {
                assert(rest[k] == waiting[k + 1]);
                assert(rest.skip(k + 1) =~= waiting.skip(k + 2));
            }
            k + 1
        } else {
            assert(rest =~= waiting.skip(1));
            0
        }
    }
}

/// The live path leaves the backlog alone. A session that does not clear
/// never orders the clearing of the backlog, whatever is reported, and stays
/// a session that does not clear.
pub proof fn lemma_live_never_clears(
    before: SessionView,
    report: Report,
    after: SessionView,
    order: OrderView,
)
    requires
        !before.clears,
        follows(before, report, after, order),
    ensures
        !after.clears,
        order != OrderView::ClearBacklog,
{
    lemma_advance(before.waiting, before.clears);
}

/// A failure never leads to a clearing. Whenever a failure is reported to a
/// session that is not finished, the session stops, and whatever is reported
/// after that, it stays stopped and orders nothing but to stop.
pub proof fn lemma_failure_never_clears(
    before: SessionView,
    stopped: SessionView,
    first: OrderView,
    report: Report,
    after: SessionView,
    second: OrderView,
)
    requires
        before.phase != Phase::Finished,
        follows(before, Report::Failed, stopped, first),
        follows(stopped, report, after, second),
    ensures
        stopped.phase is Stopped,
        first is Stop,
        after == stopped,
        second is Stop,
{
}

/// The backlog is cleared only after a full replay. The clearing is ordered
/// only to a replay, only after it began or a notification arrived, and only
/// when none of the waiting changes is left to be told.
pub proof fn lemma_clears_only_when_all_are_told(
    before: SessionView,
    report: Report,
    after: SessionView,
    order: OrderView,
)
    requires
        follows(before, report, after, order),
        order == OrderView::ClearBacklog,
    ensures
        before.clears,
        report == Report::Begin || report == Report::Delivered,
        forall|i: int| 0 <= i < before.waiting.len() ==> to_tell(#[trigger] before.waiting[i]) is None,
        after.waiting.len() == 0,
{
    lemma_advance(before.waiting, before.clears);
}

} // verus!
