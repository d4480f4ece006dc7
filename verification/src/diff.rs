//! The diff engine: what changed between the previous snapshot of a
//! leaderboard and the current one.
//!
//! Entries are matched by identity (user and programme). The previous
//! snapshot is read as a mapping from identity to entry, in which the last
//! entry of an identity is the one that counts. The tracked attribute is the
//! reputation: an entry whose reputation is unchanged yields nothing, whatever
//! else differs.

use vstd::prelude::*;
use crate::models::{ChangeKind, RepChange, RepChangeView, RepData, RepDataView, RepIdentity};

verus! {

/// Why two snapshots cannot be compared.
#[derive(Debug, Clone, Copy, PartialEq, Eq, Structural)]
pub enum DiffError {
    /// Two entries of the current snapshot are the same participant.
    DuplicateIdentity,
}

/// The index of the last entry with identity `id`, or -1 where there is none.
pub open spec fn last_index(entries: Seq<RepDataView>, id: RepIdentity) -> int
    decreases entries.len(),
{
    if entries.len() == 0 {
        -1
    } else if entries.last().identity() == id {
        entries.len() - 1
    } else {
        last_index(entries.drop_last(), id)
    }
}

/// Whether some entry has identity `id`.
pub open spec fn present(entries: Seq<RepDataView>, id: RepIdentity) -> bool {
    last_index(entries, id) >= 0
}

/// The entry that a snapshot, read as a mapping, holds for `id`.
pub open spec fn lookup(entries: Seq<RepDataView>, id: RepIdentity) -> Option<RepDataView> {
    if present(entries, id) {
        Some(entries[last_index(entries, id)])
    } else {
        None
    }
}

/// No two entries are the same participant.
pub open spec fn distinct_identities(entries: Seq<RepDataView>) -> bool {
    forall|i: int, j: int|
        0 <= i < j < entries.len() ==> (#[trigger] entries[i]).identity() != (
        #[trigger] entries[j]).identity()
}

/// What an entry of the current snapshot yields: an addition where the
/// previous snapshot has no such participant, an update where it has one with
/// another reputation, nothing otherwise.
pub open spec fn change_for(previous: Seq<RepDataView>, entity: RepDataView) -> Option<
    RepChangeView,
> {
    match lookup(previous, entity.identity()) {
        None => Some(RepChangeView { before: RepDataView::sentinel(), after: entity }),
        Some(old) => if old.reputation != entity.reputation {
            Some(RepChangeView { before: old, after: entity })
        } else {
            None
        },
    }
}

/// The additions and updates, in the order of the current snapshot.
pub open spec fn arrivals(previous: Seq<RepDataView>, current: Seq<RepDataView>) -> Seq<
    RepChangeView,
>
    decreases current.len(),
{
    if current.len() == 0 {
        Seq::empty()
    } else {
        let rest = arrivals(previous, current.drop_last());
        match change_for(previous, current.last()) {
            Some(change) => rest.push(change),
            None => rest,
        }
    }
}

/// Whether entry `i` of the previous snapshot is a participant that the
/// current snapshot lacks, and is the entry that counts for that participant.
pub open spec fn departs(previous: Seq<RepDataView>, current: Seq<RepDataView>, i: int) -> bool {
    &&& last_index(previous, previous[i].identity()) == i
    &&& !present(current, previous[i].identity())
}

/// The removals among the first `n` entries of the previous snapshot, in
/// their order.
pub open spec fn departures(previous: Seq<RepDataView>, current: Seq<RepDataView>, n: nat) -> Seq<
    RepChangeView,
>
    decreases n,
{
    if n == 0 {
        Seq::empty()
    } else {
        let rest = departures(previous, current, (n - 1) as nat);
        if departs(previous, current, n - 1) {
            rest.push(RepChangeView { before: previous[n - 1], after: RepDataView::sentinel() })
        } else {
            rest
        }
    }
}

/// The changes from `previous` to `current`: additions and updates in the
/// order of `current`, then removals in the order of `previous`.
pub open spec fn diff_changes(previous: Seq<RepDataView>, current: Seq<RepDataView>) -> Seq<
    RepChangeView,
> {
    arrivals(previous, current) + departures(previous, current, previous.len())
}

/// `last_index` is the greatest index with the identity, or -1.
pub proof fn lemma_last_index(entries: Seq<RepDataView>, id: RepIdentity)
    ensures
        -1 <= last_index(entries, id) < entries.len(),
        last_index(entries, id) >= 0 ==> entries[last_index(entries, id)].identity() == id,
        forall|j: int|
            last_index(entries, id) < j < entries.len() ==> (#[trigger] entries[j]).identity()
                != id,
    decreases entries.len(),
{
    if entries.len() > 0 && entries.last().identity() != id {
        let shorter = entries.drop_last();
        lemma_last_index(shorter, id);
        assert forall|j: int| last_index(entries, id) < j < entries.len() implies (
        #[trigger] entries[j]).identity() != id by {
            if j < shorter.len() {
                assert(shorter[j] == entries[j]);
            }
        }
    }
}

/// An index with the identity and none after it is the `last_index`.
pub proof fn lemma_last_index_is(entries: Seq<RepDataView>, id: RepIdentity, i: int)
    requires
        0 <= i < entries.len(),
        entries[i].identity() == id,
        forall|j: int| i < j < entries.len() ==> (#[trigger] entries[j]).identity() != id,
    ensures
        last_index(entries, id) == i,
{
    lemma_last_index(entries, id);
}

/// Where no entry has the identity, `last_index` is -1.
pub proof fn lemma_last_index_none(entries: Seq<RepDataView>, id: RepIdentity)
    requires
        forall|j: int| 0 <= j < entries.len() ==> (#[trigger] entries[j]).identity() != id,
    ensures
        last_index(entries, id) == -1,
{
    lemma_last_index(entries, id);
}

fn find_last(entries: &Vec<RepData>, probe: &RepData) -> (r: Option<usize>)
    ensures
        match r {
            Some(i) => i < entries.len() && i as int == last_index(
                entries.deep_view(),
                probe@.identity(),
            ),
            None => last_index(entries.deep_view(), probe@.identity()) == -1,
        },
{
    let ghost views = entries.deep_view();
    let ghost id = probe@.identity();
    let mut i: usize = entries.len();
    while i > 0
        invariant
            i <= entries.len(),
            views == entries.deep_view(),
            id == probe@.identity(),
            forall|j: int| i <= j < entries.len() ==> (#[trigger] views[j]).identity() != id,
        decreases i,
    {
        i -= 1;
        assert(views[i as int] == entries[i as int]@);
        if entries[i].same_identity(probe) {
            proof {
                lemma_last_index_is(views, id, i as int);
            }
            return Some(i);
        }
    }
    proof {
        lemma_last_index_none(views, id);
    }
    None
}

fn has_duplicate(entries: &Vec<RepData>) -> (r: bool)
    ensures
        r == !distinct_identities(entries.deep_view()),
{
    let ghost views = entries.deep_view();
    let mut j: usize = 0;
    while j < entries.len()
        invariant
            j <= entries.len(),
            views == entries.deep_view(),
            forall|a: int, b: int|
                0 <= a < b < j ==> (#[trigger] views[a]).identity() != (
                #[trigger] views[b]).identity(),
        decreases entries.len() - j,
    {
        let mut i: usize = 0;
        while i < j
            invariant
                i <= j < entries.len(),
                views == entries.deep_view(),
                forall|a: int| 0 <= a < i ==> (#[trigger] views[a]).identity() != views[j as int].identity(),
            decreases j - i,
        {
            assert(views[i as int] == entries[i as int]@);
            assert(views[j as int] == entries[j as int]@);
            if entries[i].same_identity(&entries[j]) {
                return true;
            }
            i += 1;
        }
        j += 1;
    }
    false
}

/// Compares two snapshots.
///
/// Fails exactly where two entries of `current` are the same participant.
/// Otherwise the result is `diff_changes`: for each entry of `current`, in
/// order, an addition (sentinel before) where `previous` has no such
/// participant or an update where its reputation differs; then, for each
/// participant of `previous` that `current` lacks, in order, a removal
/// (sentinel after).
pub fn diff(previous: &Vec<RepData>, current: &Vec<RepData>) -> (r: Result<
    Vec<RepChange>,
    DiffError,
>)
    ensures
        match r {
            Ok(changes) => distinct_identities(current.deep_view()) && changes.deep_view()
                == diff_changes(previous.deep_view(), current.deep_view()),
            Err(e) => e == DiffError::DuplicateIdentity && !distinct_identities(
                current.deep_view(),
            ),
        },
{
    if has_duplicate(current) {
        return Err(DiffError::DuplicateIdentity);
    }
    let ghost prev = previous.deep_view();
    let ghost cur = current.deep_view();
    let mut changes: Vec<RepChange> = Vec::new();
    let mut k: usize = 0;
    assert(cur.take(0) =~= Seq::empty());
    while k < current.len()
        invariant
            k <= current.len(),
            prev == previous.deep_view(),
            cur == current.deep_view(),
            changes.deep_view() == arrivals(prev, cur.take(k as int)),
        decreases current.len() - k,
    {
        let entity = &current[k];
        assert(cur[k as int] == entity@);
        assert(cur.take(k + 1).drop_last() =~= cur.take(k as int));
        assert(cur.take(k + 1).last() == cur[k as int]);
        let ghost before = changes.deep_view();
        match find_last(previous, entity) {
            Some(at) => {
                assert(prev[at as int] == previous[at as int]@);
                if previous[at].reputation != entity.reputation {
                    changes.push(RepChange { before: previous[at].duplicate(), after: entity.duplicate() });
                    assert(changes.deep_view() =~= before.push(
                        RepChangeView { before: prev[at as int], after: cur[k as int] },
                    ));
                }
            },
            None => {
                changes.push(RepChange { before: RepData::sentinel(), after: entity.duplicate() });
                assert(changes.deep_view() =~= before.push(
                    RepChangeView { before: RepDataView::sentinel(), after: cur[k as int] },
                ));
            },
        }
        k += 1;
    }
    assert(cur.take(current.len() as int) =~= cur);
    let ghost arrived = changes.deep_view();
    let mut i: usize = 0;
    while i < previous.len()
        invariant
            i <= previous.len(),
            prev == previous.deep_view(),
            cur == current.deep_view(),
            arrived == arrivals(prev, cur),
            changes.deep_view() == arrived + departures(prev, cur, i as nat),
        decreases previous.len() - i,
    {
        let entity = &previous[i];
        assert(prev[i as int] == entity@);
        let ghost before = changes.deep_view();
        let in_current = find_last(current, entity);
        if in_current.is_none() {
            let last = find_last(previous, entity);
            proof {
                lemma_last_index(prev, entity@.identity());
            }
            if last == Some(i) {
                changes.push(RepChange { before: entity.duplicate(), after: RepData::sentinel() });
                assert(changes.deep_view() =~= before.push(
                    RepChangeView { before: prev[i as int], after: RepDataView::sentinel() },
                ));
            }
        }
        i += 1;
        assert(changes.deep_view() =~= arrived + departures(prev, cur, i as nat));
    }
    Ok(changes)
}

/// The entry from which change `j` of the additions and updates comes.
pub proof fn lemma_arrival_origin(
    previous: Seq<RepDataView>,
    current: Seq<RepDataView>,
    j: int,
) -> (k: int)
    requires
        0 <= j < arrivals(previous, current).len(),
    ensures
        0 <= k < current.len(),
        change_for(previous, current[k]) == Some(arrivals(previous, current)[j]),
    decreases current.len(),
{
    let rest = arrivals(previous, current.drop_last());
    if j < rest.len() {
        let k = lemma_arrival_origin(previous, current.drop_last(), j);
        assert(current.drop_last()[k] == current[k]);
        k
    } else {
        current.len() - 1
    }
}

/// The place among the additions and updates of what entry `k` yields.
pub proof fn lemma_arrival_place(
    previous: Seq<RepDataView>,
    current: Seq<RepDataView>,
    k: int,
) -> (j: int)
    requires
        0 <= k < current.len(),
        change_for(previous, current[k]) is Some,
    ensures
        0 <= j < arrivals(previous, current).len(),
        change_for(previous, current[k]) == Some(arrivals(previous, current)[j]),
    decreases current.len(),
{
    let rest = arrivals(previous, current.drop_last());
    if k < current.len() - 1 {
        assert(current.drop_last()[k] == current[k]);
        lemma_arrival_place(previous, current.drop_last(), k)
    } else {
        rest.len() as int
    }
}

/// The entry from which removal `j` comes.
pub proof fn lemma_departure_origin(
    previous: Seq<RepDataView>,
    current: Seq<RepDataView>,
    n: nat,
    j: int,
) -> (i: int)
    requires
        0 <= j < departures(previous, current, n).len(),
    ensures
        0 <= i < n,
        departs(previous, current, i),
        departures(previous, current, n)[j] == (RepChangeView {
            before: previous[i],
            after: RepDataView::sentinel(),
        }),
    decreases n,
{
    let rest = departures(previous, current, (n - 1) as nat);
    if j < rest.len() {
        lemma_departure_origin(previous, current, (n - 1) as nat, j)
    } else {
        n - 1
    }
}

/// The place among the removals of a departing entry `i`.
pub proof fn lemma_departure_place(
    previous: Seq<RepDataView>,
    current: Seq<RepDataView>,
    n: nat,
    i: int,
) -> (j: int)
    requires
        0 <= i < n,
        departs(previous, current, i),
    ensures
        0 <= j < departures(previous, current, n).len(),
        departures(previous, current, n)[j] == (RepChangeView {
            before: previous[i],
            after: RepDataView::sentinel(),
        }),
    decreases n,
{
    let rest = departures(previous, current, (n - 1) as nat);
    if i < n - 1 {
        lemma_departure_place(previous, current, (n - 1) as nat, i)
    } else {
        rest.len() as int
    }
}

/// An entry's identity is present in its snapshot.
pub proof fn lemma_present(entries: Seq<RepDataView>, i: int)
    requires
        0 <= i < entries.len(),
    ensures
        present(entries, entries[i].identity()),
{
    lemma_last_index(entries, entries[i].identity());
}

/// In a snapshot of distinct identities each entry is the one that counts.
pub proof fn lemma_distinct_last_index(entries: Seq<RepDataView>, i: int)
    requires
        0 <= i < entries.len(),
        distinct_identities(entries),
    ensures
        last_index(entries, entries[i].identity()) == i,
{
    lemma_last_index(entries, entries[i].identity());
    let at = last_index(entries, entries[i].identity());
    if at != i {
        assert(entries[i].identity() != entries[at].identity());
    }
}

/// No entry of the snapshot is the sentinel.
pub open spec fn all_real(entries: Seq<RepDataView>) -> bool {
    forall|i: int| 0 <= i < entries.len() ==> !(#[trigger] entries[i]).is_sentinel()
}

/// What a change of the diff is, by its kind: an addition has the sentinel
/// before and an entry of `current` after that `previous` lacks; a removal
/// has the sentinel after and, before, the entry that `previous` holds for a
/// participant that `current` lacks; an update has, for one participant, the
/// entry of `previous` before and that of `current` after, with different
/// reputations.
pub open spec fn change_explained(
    previous: Seq<RepDataView>,
    current: Seq<RepDataView>,
    change: RepChangeView,
) -> bool {
    match change.kind() {
        ChangeKind::Added => {
            &&& change.before == RepDataView::sentinel()
            &&& current.contains(change.after)
            &&& !present(previous, change.after.identity())
        },
        ChangeKind::Removed => {
            &&& change.after == RepDataView::sentinel()
            &&& lookup(previous, change.before.identity()) == Some(change.before)
            &&& !present(current, change.before.identity())
        },
        ChangeKind::Updated => {
            &&& lookup(previous, change.after.identity()) == Some(change.before)
            &&& current.contains(change.after)
            &&& change.before.identity() == change.after.identity()
            &&& change.before.reputation != change.after.reputation
        },
    }
}

/// Sentinel correctness. Where no entry of either snapshot is itself the
/// sentinel, every change of the diff has the sentinel on at most one side:
/// before for an addition, after for a removal, on neither for an update;
/// and the other side is what `change_explained` says.
pub proof fn lemma_sentinel_correctness(
    previous: Seq<RepDataView>,
    current: Seq<RepDataView>,
    j: int,
)
    requires
        all_real(previous),
        all_real(current),
        0 <= j < diff_changes(previous, current).len(),
    ensures
        ({
            let change = diff_changes(previous, current)[j];
            &&& !(change.before.is_sentinel() && change.after.is_sentinel())
            &&& change.kind() == ChangeKind::Added <==> change.before.is_sentinel()
            &&& change.kind() == ChangeKind::Removed <==> change.after.is_sentinel()
            &&& change_explained(previous, current, change)
        }),
{
    let arrived = arrivals(previous, current);
    let change = diff_changes(previous, current)[j];
    if j < arrived.len() {
        let k = lemma_arrival_origin(previous, current, j);
        let id = current[k].identity();
        lemma_last_index(previous, id);
        assert(!current[k].is_sentinel());
        assert(change.after == current[k]);
        if present(previous, id) {
            let old = previous[last_index(previous, id)];
            assert(!old.is_sentinel());
            assert(change.before == old);
        }
    } else {
        let i = lemma_departure_origin(
            previous,
            current,
            previous.len(),
            j - arrived.len(),
        );
        assert(!previous[i].is_sentinel());
        assert(change.before == previous[i]);
    }
}

/// The participants of a snapshot.
pub open spec fn identities(entries: Seq<RepDataView>) -> Set<RepIdentity> {
    Set::new(|id: RepIdentity| present(entries, id))
}

/// The participants that the additions among `changes` name.
pub open spec fn added_identities(changes: Seq<RepChangeView>) -> Set<RepIdentity> {
    Set::new(
        |id: RepIdentity|
            exists|j: int|
                0 <= j < changes.len() && (#[trigger] changes[j]).kind() == ChangeKind::Added
                    && changes[j].after.identity() == id,
    )
}

/// The participants that the updates among `changes` name.
pub open spec fn updated_identities(changes: Seq<RepChangeView>) -> Set<RepIdentity> {
    Set::new(
        |id: RepIdentity|
            exists|j: int|
                0 <= j < changes.len() && (#[trigger] changes[j]).kind() == ChangeKind::Updated
                    && changes[j].after.identity() == id,
    )
}

/// The participants that the removals among `changes` name, on their side
/// before.
pub open spec fn removed_identities(changes: Seq<RepChangeView>) -> Set<RepIdentity> {
    Set::new(
        |id: RepIdentity|
            exists|j: int|
                0 <= j < changes.len() && (#[trigger] changes[j]).kind() == ChangeKind::Removed
                    && changes[j].before.identity() == id,
    )
}

/// The participants of both snapshots whose reputation is the same in both.
pub open spec fn kept_identities(previous: Seq<RepDataView>, current: Seq<RepDataView>) -> Set<
    RepIdentity,
> {
    Set::new(
        |id: RepIdentity|
            present(previous, id) && present(current, id) && previous[last_index(
                previous,
                id,
            )].reputation == current[last_index(current, id)].reputation,
    )
}

/// The additions of the diff name the participants that only `current` has.
pub proof fn lemma_added(previous: Seq<RepDataView>, current: Seq<RepDataView>, id: RepIdentity)
    requires
        all_real(previous),
        all_real(current),
    ensures
        added_identities(diff_changes(previous, current)).contains(id) <==> (present(current, id)
            && !present(previous, id)),
{
    let changes = diff_changes(previous, current);
    let arrived = arrivals(previous, current);
    if present(current, id) && !present(previous, id) {
        lemma_last_index(current, id);
        let k = last_index(current, id);
        let j = lemma_arrival_place(previous, current, k);
        assert(changes[j] == arrived[j]);
        assert(changes[j].kind() == ChangeKind::Added);
    }
    if added_identities(changes).contains(id) {
        let j = choose|j: int|
            0 <= j < changes.len() && (#[trigger] changes[j]).kind() == ChangeKind::Added
                && changes[j].after.identity() == id;
        lemma_sentinel_correctness(previous, current, j);
        let k = choose|k: int| 0 <= k < current.len() && current[k] == changes[j].after;
        lemma_present(current, k);
    }
}

/// The removals of the diff name the participants that only `previous` has.
pub proof fn lemma_removed(previous: Seq<RepDataView>, current: Seq<RepDataView>, id: RepIdentity)
    requires
        all_real(previous),
        all_real(current),
    ensures
        removed_identities(diff_changes(previous, current)).contains(id) <==> (present(
            previous,
            id,
        ) && !present(current, id)),
{
    let changes = diff_changes(previous, current);
    let arrived = arrivals(previous, current);
    if present(previous, id) && !present(current, id) {
        lemma_last_index(previous, id);
        let i = last_index(previous, id);
        let j = lemma_departure_place(previous, current, previous.len(), i);
        assert(changes[arrived.len() + j] == departures(previous, current, previous.len())[j]);
        assert(!previous[i].is_sentinel());
        assert(changes[arrived.len() + j].kind() == ChangeKind::Removed);
    }
    if removed_identities(changes).contains(id) {
        let j = choose|j: int|
            0 <= j < changes.len() && (#[trigger] changes[j]).kind() == ChangeKind::Removed
                && changes[j].before.identity() == id;
        lemma_sentinel_correctness(previous, current, j);
    }
}

/// The updates of the diff name the participants of both snapshots whose
/// reputation differs.
pub proof fn lemma_updated(previous: Seq<RepDataView>, current: Seq<RepDataView>, id: RepIdentity)
    requires
        all_real(previous),
        all_real(current),
        distinct_identities(current),
    ensures
        updated_identities(diff_changes(previous, current)).contains(id) <==> (present(
            previous,
            id,
        ) && present(current, id) && previous[last_index(previous, id)].reputation
            != current[last_index(current, id)].reputation),
{
    let changes = diff_changes(previous, current);
    let arrived = arrivals(previous, current);
    lemma_last_index(previous, id);
    lemma_last_index(current, id);
    if present(previous, id) && present(current, id) && previous[last_index(
        previous,
        id,
    )].reputation != current[last_index(current, id)].reputation {
        let k = last_index(current, id);
        let j = lemma_arrival_place(previous, current, k);
        assert(changes[j] == arrived[j]);
        assert(!previous[last_index(previous, id)].is_sentinel());
        assert(!current[k].is_sentinel());
        assert(changes[j].kind() == ChangeKind::Updated);
    }
    if updated_identities(changes).contains(id) {
        let j = choose|j: int|
            0 <= j < changes.len() && (#[trigger] changes[j]).kind() == ChangeKind::Updated
                && changes[j].after.identity() == id;
        lemma_sentinel_correctness(previous, current, j);
        let k = choose|k: int| 0 <= k < current.len() && current[k] == changes[j].after;
        lemma_distinct_last_index(current, k);
    }
}

/// Symmetry. Where the current snapshot has distinct identities and no entry
/// of either snapshot is itself the sentinel, every participant of either
/// snapshot is named by exactly one of: an addition, an update, the kept
/// set, a removal (on its side before); and these name no one else.
pub proof fn lemma_symmetry(previous: Seq<RepDataView>, current: Seq<RepDataView>)
    requires
        all_real(previous),
        all_real(current),
        distinct_identities(current),
    ensures
        ({
            let changes = diff_changes(previous, current);
            let added = added_identities(changes);
            let updated = updated_identities(changes);
            let removed = removed_identities(changes);
            let kept = kept_identities(previous, current);
            &&& added.union(updated).union(kept).union(removed) == identities(previous).union(
                identities(current),
            )
            &&& added.disjoint(updated)
            &&& added.disjoint(kept)
            &&& added.disjoint(removed)
            &&& updated.disjoint(kept)
            &&& updated.disjoint(removed)
            &&& kept.disjoint(removed)
        }),
{
    let changes = diff_changes(previous, current);
    let added = added_identities(changes);
    let updated = updated_identities(changes);
    let removed = removed_identities(changes);
    let kept = kept_identities(previous, current);
    assert forall|id: RepIdentity|
        #![trigger added.contains(id)]
        #![trigger updated.contains(id)]
        #![trigger removed.contains(id)]
        #![trigger kept.contains(id)]
        {
            &&& added.contains(id) <==> (present(current, id) && !present(previous, id))
            &&& removed.contains(id) <==> (present(previous, id) && !present(current, id))
            &&& updated.contains(id) <==> (present(previous, id) && present(current, id)
                && previous[last_index(previous, id)].reputation != current[last_index(
                current,
                id,
            )].reputation)
            &&& kept.contains(id) <==> (present(previous, id) && present(current, id)
                && previous[last_index(previous, id)].reputation == current[last_index(
                current,
                id,
            )].reputation)
        } by {
        lemma_added(previous, current, id);
        lemma_removed(previous, current, id);
        lemma_updated(previous, current, id);
    }
    assert(added.union(updated).union(kept).union(removed) =~= identities(previous).union(
        identities(current),
    ));
    assert(added.disjoint(updated));
    assert(added.disjoint(kept));
    assert(added.disjoint(removed));
    assert(updated.disjoint(kept));
    assert(updated.disjoint(removed));
    assert(kept.disjoint(removed));
}

/// No spurious updates. Where the current snapshot has distinct identities
/// and both snapshots hold the same entry for every participant, the diff is
/// empty.
pub proof fn lemma_no_spurious_updates(previous: Seq<RepDataView>, current: Seq<RepDataView>)
    requires
        distinct_identities(current),
        forall|id: RepIdentity| lookup(previous, id) == lookup(current, id),
    ensures
        diff_changes(previous, current).len() == 0,
{
    let changes = diff_changes(previous, current);
    let arrived = arrivals(previous, current);
    if changes.len() > 0 {
        if arrived.len() > 0 {
            let k = lemma_arrival_origin(previous, current, 0);
            let id = current[k].identity();
            lemma_present(current, k);
            assert(lookup(previous, id) == lookup(current, id));
            lemma_distinct_last_index(current, k);
        } else {
            let i = lemma_departure_origin(previous, current, previous.len(), 0);
            let id = previous[i].identity();
            lemma_present(previous, i);
            assert(lookup(previous, id) == lookup(current, id));
        }
    }
}

/// A snapshot of distinct identities is no different from itself.
pub proof fn lemma_diff_of_same_is_empty(snapshot: Seq<RepDataView>)
    requires
        distinct_identities(snapshot),
    ensures
        diff_changes(snapshot, snapshot).len() == 0,
{
    lemma_no_spurious_updates(snapshot, snapshot);
}

} // verus!
