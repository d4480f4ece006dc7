//! One tick of the poll of disclosed reports.
//!
//! Reports are matched by their number. A report not seen before is news, and
//! so is one that was seen undisclosed and is disclosed now; nothing else is.
//! Reports never leave the list: a report that is no longer among the latest
//! yields nothing.

use vstd::prelude::*;
use crate::ident::is_id;
use crate::models::{ReportChange, ReportChangeView, ReportData, ReportDataView, ReportsDataQueueItem};
use crate::polls::TickError;

verus! {

/// The index of the first entry with the number `id`, or -1 where there is
/// none.
pub open spec fn first_index(entries: Seq<ReportDataView>, id: Seq<char>) -> int
    decreases entries.len(),
{
    if entries.len() == 0 {
        -1
    } else if entries.first().identity() == id {
        0
    } else {
        let rest = first_index(entries.drop_first(), id);
        if rest < 0 {
            -1
        } else {
            rest + 1
        }
    }
}

/// `first_index` is the least index with the number, or -1.
pub proof fn lemma_first_index(entries: Seq<ReportDataView>, id: Seq<char>)
    ensures
        -1 <= first_index(entries, id) < entries.len(),
        first_index(entries, id) >= 0 ==> entries[first_index(entries, id)].identity() == id,
        forall|j: int|
            0 <= j < entries.len() && (first_index(entries, id) < 0 || j < first_index(entries, id))
                ==> (#[trigger] entries[j]).identity() != id,
    decreases entries.len(),
{
    if entries.len() > 0 && entries.first().identity() != id {
        let rest = entries.drop_first();
        lemma_first_index(rest, id);
        assert forall|j: int|
            0 <= j < entries.len() && (first_index(entries, id) < 0 || j < first_index(
                entries,
                id,
            )) implies (#[trigger] entries[j]).identity() != id by {
            if j > 0 {
                assert(rest[j - 1] == entries[j]);
            }
        }
    }
}

/// What a report of the current list yields: news with the sentinel before
/// it where the previous list has no report of that number, news with the
/// earlier entry before it where that was undisclosed and the report is
/// disclosed now, nothing otherwise.
pub open spec fn report_change_for(previous: Seq<ReportDataView>, report: ReportDataView)
    -> Option<ReportChangeView> {
    let at = first_index(previous, report.identity());
    if at < 0 {
        Some(ReportChangeView { before: ReportDataView::sentinel(), after: report })
    } else if !previous[at].disclosed && report.disclosed {
        Some(ReportChangeView { before: previous[at], after: report })
    } else {
        None
    }
}

/// The news from `previous` to `current`, in the order of `current`.
pub open spec fn report_changes(previous: Seq<ReportDataView>, current: Seq<ReportDataView>)
    -> Seq<ReportChangeView>
    decreases current.len(),
{
    if current.len() == 0 {
        Seq::empty()
    } else {
        let rest = report_changes(previous, current.drop_last());
        match report_change_for(previous, current.last()) {
            Some(change) => rest.push(change),
            None => rest,
        }
    }
}

fn find_first(entries: &Vec<ReportData>, probe: &ReportData) -> (r: Option<usize>)
    ensures
        match r {
            Some(i) => i < entries.len() && i as int == first_index(
                entries.deep_view(),
                probe@.identity(),
            ),
            None => first_index(entries.deep_view(), probe@.identity()) == -1,
        },
{
    let ghost views = entries.deep_view();
    let ghost id = probe@.identity();
    proof {
        lemma_first_index(views, id);
    }
    let mut i: usize = 0;
    while i < entries.len()
        invariant
            i <= entries.len(),
            views == entries.deep_view(),
            id == probe@.identity(),
            forall|j: int| 0 <= j < i ==> (#[trigger] views[j]).identity() != id,
            -1 <= first_index(views, id) < views.len(),
            first_index(views, id) >= 0 ==> views[first_index(views, id)].identity() == id,
            forall|j: int|
                0 <= j < views.len() && (first_index(views, id) < 0 || j < first_index(views, id))
                    ==> (#[trigger] views[j]).identity() != id,
        decreases entries.len() - i,
    {
        assert(views[i as int] == entries[i as int]@);
        if entries[i].same_identity(probe) {
            return Some(i);
        }
        i += 1;
    }
    None
}

/// The news from `previous` to `current`.
pub fn diff_reports(previous: &Vec<ReportData>, current: &Vec<ReportData>) -> (changes: Vec<
    ReportChange,
>)
    ensures
        changes.deep_view() == report_changes(previous.deep_view(), current.deep_view()),
{
    let ghost prev = previous.deep_view();
    let ghost cur = current.deep_view();
    let mut changes: Vec<ReportChange> = Vec::new();
    let mut k: usize = 0;
    assert(cur.take(0) =~= Seq::empty());
    assert(changes.deep_view() =~= Seq::empty());
    while k < current.len()
        invariant
            k <= current.len(),
            prev == previous.deep_view(),
            cur == current.deep_view(),
            changes.deep_view() == report_changes(prev, cur.take(k as int)),
        decreases current.len() - k,
    {
        let report = &current[k];
        assert(cur[k as int] == report@);
        assert(cur.take(k + 1).drop_last() =~= cur.take(k as int));
        assert(cur.take(k + 1).last() == cur[k as int]);
        let ghost before = changes.deep_view();
        match find_first(previous, report) {
            Some(at) => {
                assert(prev[at as int] == previous[at as int]@);
                if !previous[at].disclosed && report.disclosed {
                    changes.push(
                        ReportChange { before: previous[at].duplicate(), after: report.duplicate() },
                    );
                    assert(changes.deep_view() =~= before.push(
                        ReportChangeView { before: prev[at as int], after: cur[k as int] },
                    ));
                }
            },
            None => {
                changes.push(ReportChange { before: ReportData::default(), after: report.duplicate() });
                assert(changes.deep_view() =~= before.push(
                    ReportChangeView { before: ReportDataView::sentinel(), after: cur[k as int] },
                ));
            },
        }
        k += 1;
    }
    assert(cur.take(current.len() as int) =~= cur);
    changes
}

/// The stored list of reports, from the entries read of the store. A store
/// without entries holds no list.
pub fn stored_list(entries: Vec<ReportData>) -> (stored: Option<Vec<ReportData>>)
    ensures
        entries@.len() == 0 ==> stored is None,
        entries@.len() > 0 ==> stored == Some(entries),
{
    if entries.len() == 0 {
        None
    } else {
        Some(entries)
    }
}

/// What a tick of the reports poll does with a fetched list.
pub enum ReportsPlan {
    /// A first run: the list is stored, the run is recorded, nothing is
    /// published.
    FirstRun,
    /// A later run: the news is published, if there is any; then the list is
    /// added to the stored ones and the run is recorded.
    Steady { changes: Vec<ReportChange> },
}

/// Decides what a tick does with the fetched list `current`.
///
/// A first run is one without a recorded run or without a stored list. On a
/// later run an empty list against a stored list that is not empty fails the
/// tick with `EmptySnapshotGuard`: nothing is published or stored.
pub fn plan(last_run: Option<i64>, previous: Option<&Vec<ReportData>>, current: &Vec<ReportData>) -> (r:
    Result<ReportsPlan, TickError>)
    ensures
        (last_run is None || previous is None) ==> r matches Ok(ReportsPlan::FirstRun),
        (last_run is Some && previous is Some) ==> {
            let stored = previous->0;
            if stored@.len() > 0 && current@.len() == 0 {
                r == Err::<ReportsPlan, TickError>(TickError::EmptySnapshotGuard)
            } else {
                r matches Ok(ReportsPlan::Steady { changes }) && changes.deep_view()
                    == report_changes(stored.deep_view(), current.deep_view())
            }
        },
{
    match previous {
        None => Ok(ReportsPlan::FirstRun),
        Some(stored) => {
            if last_run.is_none() {
                Ok(ReportsPlan::FirstRun)
            } else if stored.len() > 0 && current.len() == 0 {
                Err(TickError::EmptySnapshotGuard)
            } else {
                Ok(ReportsPlan::Steady { changes: diff_reports(stored, current) })
            }
        },
    }
}

/// The batch to publish for `changes`, with a new identifier, or nothing
/// where there are no changes.
pub fn batch(changes: Vec<ReportChange>, team_handle: Option<String>, created_at: i64) -> (r: Option<
    ReportsDataQueueItem,
>)
    ensures
        r is None <==> changes@.len() == 0,
        r matches Some(item) ==> {
            &&& item.diff == changes
            &&& item.team_handle == team_handle
            &&& item.created_at == created_at
            &&& item.id matches Some(id) && is_id(id@)
        },
{
    if changes.len() == 0 {
        None
    } else {
        let mut item = ReportsDataQueueItem { id: None, team_handle, diff: changes, created_at };
        item.create_id();
        Some(item)
    }
}

} // verus!
