//! One tick of the poll of reports closed without effect.
//!
//! For each participant and programme the number of such reports is compared
//! with the number stored; where it has grown, the growth is news. The news
//! is published programme by programme.

use vstd::prelude::*;
use crate::models::{
    InvalidReportsQueueItem, UserInvalidReportChange, UserInvalidReportChangeView, UserThanksData,
    UserThanksDataView,
};

verus! {

/// Whether two entries speak of the same participant and programme.
pub open spec fn same_subject(a: UserThanksDataView, b: UserThanksDataView) -> bool {
    a.user_id == b.user_id && a.team_handle == b.team_handle
}

/// The index of the first entry of `entries` on the subject of `probe`, or
/// -1 where there is none.
pub open spec fn first_on(entries: Seq<UserThanksDataView>, probe: UserThanksDataView) -> int
    decreases entries.len(),
{
    if entries.len() == 0 {
        -1
    } else if same_subject(entries.first(), probe) {
        0
    } else {
        let rest = first_on(entries.drop_first(), probe);
        if rest < 0 {
            -1
        } else {
            rest + 1
        }
    }
}

/// `first_on` is the least index on the subject, or -1.
pub proof fn lemma_first_on(entries: Seq<UserThanksDataView>, probe: UserThanksDataView)
    ensures
        -1 <= first_on(entries, probe) < entries.len(),
        first_on(entries, probe) >= 0 ==> same_subject(entries[first_on(entries, probe)], probe),
        forall|j: int|
            0 <= j < entries.len() && (first_on(entries, probe) < 0 || j < first_on(entries, probe))
                ==> !same_subject(#[trigger] entries[j], probe),
    decreases entries.len(),
{
    if entries.len() > 0 && !same_subject(entries.first(), probe) {
        let rest = entries.drop_first();
        lemma_first_on(rest, probe);
        assert forall|j: int|
            0 <= j < entries.len() && (first_on(entries, probe) < 0 || j < first_on(
                entries,
                probe,
            )) implies !same_subject(#[trigger] entries[j], probe) by {
            if j > 0 {
                assert(rest[j - 1] == entries[j]);
            }
        }
    }
}

/// The growth from `earlier` to `now`, as far as a 64-bit number holds it.
pub open spec fn growth(now: int, earlier: int) -> int {
    if now - earlier > i64::MAX {
        i64::MAX as int
    } else {
        now - earlier
    }
}

/// What a stored entry yields: the growth of the reports closed without
/// effect, named as the current entry names the participant, where the
/// current list has an entry on the same subject with a greater number.
pub open spec fn growth_for(stored: UserThanksDataView, current: Seq<UserThanksDataView>)
    -> Option<UserInvalidReportChangeView> {
    let at = first_on(current, stored);
    if at >= 0 && current[at].invalid_report_count > stored.invalid_report_count {
        Some(
            UserInvalidReportChangeView {
                user_id: current[at].user_id,
                user_name: current[at].user_name,
                invalid_reports: growth(
                    current[at].invalid_report_count,
                    stored.invalid_report_count,
                ),
                team_handle: current[at].team_handle,
            },
        )
    } else {
        None
    }
}

/// The growths from `previous` to `current`, in the order of `previous`.
pub open spec fn growths(previous: Seq<UserThanksDataView>, current: Seq<UserThanksDataView>)
    -> Seq<UserInvalidReportChangeView>
    decreases previous.len(),
{
    if previous.len() == 0 {
        Seq::empty()
    } else {
        let rest = growths(previous.drop_last(), current);
        match growth_for(previous.last(), current) {
            Some(change) => rest.push(change),
            None => rest,
        }
    }
}

fn find_on(entries: &Vec<UserThanksData>, probe: &UserThanksData) -> (r: Option<usize>)
    ensures
        match r {
            Some(i) => i < entries.len() && i as int == first_on(entries.deep_view(), probe@),
            None => first_on(entries.deep_view(), probe@) == -1,
        },
{
    let ghost views = entries.deep_view();
    proof {
        lemma_first_on(views, probe@);
    }
    let mut i: usize = 0;
    while i < entries.len()
        invariant
            i <= entries.len(),
            views == entries.deep_view(),
            forall|j: int| 0 <= j < i ==> !same_subject(#[trigger] views[j], probe@),
            -1 <= first_on(views, probe@) < views.len(),
            first_on(views, probe@) >= 0 ==> same_subject(views[first_on(views, probe@)], probe@),
            forall|j: int|
                0 <= j < views.len() && (first_on(views, probe@) < 0 || j < first_on(
                    views,
                    probe@,
                )) ==> !same_subject(#[trigger] views[j], probe@),
        decreases entries.len() - i,
    {
        assert(views[i as int] == entries[i as int]@);
        if entries[i].user_id == probe.user_id && entries[i].team_handle == probe.team_handle {
            return Some(i);
        }
        i += 1;
    }
    None
}

/// The growths of reports closed without effect from the stored list
/// `previous` to the list `current`.
pub fn diff_thanks(previous: &Vec<UserThanksData>, current: &Vec<UserThanksData>) -> (changes: Vec<
    UserInvalidReportChange,
>)
    ensures
        changes.deep_view() == growths(previous.deep_view(), current.deep_view()),
{
    let ghost prev = previous.deep_view();
    let ghost cur = current.deep_view();
    let mut changes: Vec<UserInvalidReportChange> = Vec::new();
    let mut k: usize = 0;
    assert(prev.take(0) =~= Seq::empty());
    assert(changes.deep_view() =~= Seq::empty());
    while k < previous.len()
        invariant
            k <= previous.len(),
            prev == previous.deep_view(),
            cur == current.deep_view(),
            changes.deep_view() == growths(prev.take(k as int), cur),
        decreases previous.len() - k,
    {
        let stored = &previous[k];
        assert(prev[k as int] == stored@);
        assert(prev.take(k + 1).drop_last() =~= prev.take(k as int));
        assert(prev.take(k + 1).last() == prev[k as int]);
        let ghost before = changes.deep_view();
        match find_on(current, stored) {
            Some(at) => {
                let now = &current[at];
                assert(cur[at as int] == now@);
                if now.invalid_report_count > stored.invalid_report_count {
                    let grown: i64 = if stored.invalid_report_count < 0 && now.invalid_report_count
                        > i64::MAX + stored.invalid_report_count {
                        i64::MAX
                    } else {
                        now.invalid_report_count - stored.invalid_report_count
                    };
                    let change = UserInvalidReportChange {
                        user_id: now.user_id.clone(),
                        user_name: now.user_name.clone(),
                        invalid_reports: grown,
                        team_handle: now.team_handle.clone(),
                    };
                    assert(growth_for(prev[k as int], cur) == Some(change@));
                    changes.push(change);
                    assert(changes.deep_view() =~= before.push(change@));
                }
            },
            None => {},
        }
        k += 1;
    }
    assert(prev.take(previous.len() as int) =~= prev);
    changes
}

/// The test "is of the programme `handle`".
pub open spec fn of_team(handle: Seq<char>) -> spec_fn(UserInvalidReportChange) -> bool {
    |change: UserInvalidReportChange| change.team_handle@ == handle
}

/// The index of the first change of the programme `handle`, or the number of
/// changes where there is none.
pub open spec fn first_of_team(changes: Seq<UserInvalidReportChange>, handle: Seq<char>) -> int
    decreases changes.len(),
{
    if changes.len() == 0 {
        0
    } else {
        let before = first_of_team(changes.drop_last(), handle);
        if before < changes.len() - 1 {
            before
        } else if changes.last().team_handle@ == handle {
            changes.len() - 1
        } else {
            changes.len() as int
        }
    }
}

/// Where no change is of the programme, `first_of_team` is the number of
/// changes.
pub proof fn lemma_first_of_team_none(changes: Seq<UserInvalidReportChange>, handle: Seq<char>)
    requires
        forall|k: int| 0 <= k < changes.len() ==> (#[trigger] changes[k]).team_handle@ != handle,
    ensures
        first_of_team(changes, handle) == changes.len(),
    decreases changes.len(),
{
    if changes.len() > 0 {
        let shorter = changes.drop_last();
        assert forall|k: int| 0 <= k < shorter.len() implies (#[trigger] shorter[k]).team_handle@
            != handle by {
            assert(shorter[k] == changes[k]);
        }
        lemma_first_of_team_none(shorter, handle);
    }
}

/// Whether one of `groups` is of the programme `handle`.
pub open spec fn has_group(groups: Seq<InvalidReportsQueueItem>, handle: Seq<char>) -> bool {
    exists|i: int| 0 <= i < groups.len() && (#[trigger] groups[i]).team_handle@ == handle
}

/// `groups` are `changes` sorted into programmes: no two groups are of the
/// same programme, every change's programme has a group, each group holds
/// the changes of its programme, all of them and in their order, and at
/// least one, and the groups stand in the order in which their programmes
/// first occur among the changes.
pub open spec fn grouped(
    changes: Seq<UserInvalidReportChange>,
    groups: Seq<InvalidReportsQueueItem>,
) -> bool {
    &&& forall|i: int, j: int|
        0 <= i < j < groups.len() ==> (#[trigger] groups[i]).team_handle@ != (
        #[trigger] groups[j]).team_handle@
    &&& forall|i: int|
        0 <= i < groups.len() ==> (#[trigger] groups[i]).changes@ == changes.filter(
            of_team(groups[i].team_handle@),
        ) && groups[i].changes@.len() > 0
    &&& forall|k: int|
        0 <= k < changes.len() ==> has_group(groups, (#[trigger] changes[k]).team_handle@)
    &&& forall|i: int|
        0 <= i < groups.len() ==> first_of_team(changes, (#[trigger] groups[i]).team_handle@)
            < changes.len()
    &&& forall|i: int, j: int|
        0 <= i < j < groups.len() ==> first_of_team(changes, (#[trigger] groups[i]).team_handle@)
            < first_of_team(changes, (#[trigger] groups[j]).team_handle@)
}

fn group_of(groups: &Vec<InvalidReportsQueueItem>, handle: &String) -> (r: Option<usize>)
    ensures
        match r {
            Some(i) => i < groups.len() && groups[i as int].team_handle@ == handle@,
            None => forall|i: int|
                0 <= i < groups.len() ==> (#[trigger] groups[i]).team_handle@ != handle@,
        },
{
    let mut i: usize = 0;
    while i < groups.len()
        invariant
            i <= groups.len(),
            forall|j: int| 0 <= j < i ==> (#[trigger] groups[j]).team_handle@ != handle@,
        decreases groups.len() - i,
    {
        if groups[i].team_handle == *handle {
            return Some(i);
        }
        i += 1;
    }
    None
}

/// Sorts the changes into programmes, one batch for each, in the order in
/// which the programmes first occur.
pub fn group_by_team(changes: Vec<UserInvalidReportChange>) -> (groups: Vec<InvalidReportsQueueItem>)
    ensures
        grouped(changes@, groups@),
{
    let mut rest = changes;
    let mut groups: Vec<InvalidReportsQueueItem> = Vec::new();
    let ghost mut done: Seq<UserInvalidReportChange> = Seq::empty();
    proof {
        assert(done + rest@ =~= changes@);
        assert forall|i: int| 0 <= i < groups@.len() implies (#[trigger] groups@[i]).changes@
            == done.filter(of_team(groups@[i].team_handle@)) by {}
    }
    while rest.len() > 0
        invariant
            done + rest@ == changes@,
            grouped(done, groups@),
        decreases rest.len(),
    {
        let change = rest.remove(0);
        let ghost before = groups@;
        let ghost handle = change.team_handle@;
        match group_of(&groups, &change.team_handle) {
            Some(at) => {
                let mut group = groups.remove(at);
                let team_handle = group.team_handle;
                let mut members = group.changes;
                let ghost old_members = members@;
                members.push(change);
                groups.insert(at, InvalidReportsQueueItem { changes: members, team_handle });
                proof {
                    assert(groups@.len() == before.len());
                    assert forall|i: int| 0 <= i < groups@.len() implies (
                    #[trigger] groups@[i]).team_handle@ == before[i].team_handle@ by {}
                    assert forall|i: int, j: int| 0 <= i < j < groups@.len() implies (
                    #[trigger] groups@[i]).team_handle@ != (#[trigger] groups@[j]).team_handle@ by {
                        assert(before[i].team_handle@ != before[j].team_handle@);
                    }
                    assert forall|i: int| 0 <= i < groups@.len() implies (
                    #[trigger] groups@[i]).changes@ == done.push(change).filter(
                        of_team(groups@[i].team_handle@),
                    ) && groups@[i].changes@.len() > 0 by {
                        done.lemma_filter_push(change, of_team(groups@[i].team_handle@));
                        if i != at {
                            assert(groups@[i] == before[i]);
                            assert(before[i].team_handle@ != before[at as int].team_handle@);
                        } else {
                            assert(old_members == before[at as int].changes@);
                        }
                    }
                    assert forall|k: int| 0 <= k < done.push(change).len() implies has_group(
                        groups@,
                        (#[trigger] done.push(change)[k]).team_handle@,
                    ) by {
                        if k < done.len() {
                            assert(done.push(change)[k] == done[k]);
                            assert(has_group(before, done[k].team_handle@));
                            let i = choose|i: int|
                                0 <= i < before.len() && (#[trigger] before[i]).team_handle@
                                    == done[k].team_handle@;
                            assert(groups@[i].team_handle@ == before[i].team_handle@);
                        } else {
                            assert(groups@[at as int].team_handle@ == handle);
                        }
                    }
                    assert(done.push(change).drop_last() =~= done);
                    assert forall|i: int| 0 <= i < groups@.len() implies first_of_team(
                        done.push(change),
                        (#[trigger] groups@[i]).team_handle@,
                    ) == first_of_team(done, before[i].team_handle@) && first_of_team(
                        done,
                        before[i].team_handle@,
                    ) < done.len() by {
                        assert(groups@[i].team_handle@ == before[i].team_handle@);
                    }
                    assert(grouped(done.push(change), groups@));
                }
            },
            None => {
                let team_handle = change.team_handle.clone();
                let mut members: Vec<UserInvalidReportChange> = Vec::new();
                members.push(change);
                groups.push(InvalidReportsQueueItem { changes: members, team_handle });
                proof {
                    let last = before.len() as int;
                    assert forall|i: int| 0 <= i < groups@.len() implies (
                    #[trigger] groups@[i]).changes@ == done.push(change).filter(
                        of_team(groups@[i].team_handle@),
                    ) && groups@[i].changes@.len() > 0 by {
                        done.lemma_filter_push(change, of_team(groups@[i].team_handle@));
                        if i < last {
                            assert(groups@[i] == before[i]);
                        } else {
                            assert forall|k: int| 0 <= k < done.len() implies !of_team(handle)(
                                #[trigger] done[k],
                            ) by {
                                if done[k].team_handle@ == handle {
                                    assert(has_group(before, done[k].team_handle@));
                                    let g = choose|g: int|
                                        0 <= g < before.len() && (#[trigger] before[g]).team_handle@
                                            == done[k].team_handle@;
                                    assert(false);
                                }
                            }
                            crate::ranking::lemma_filter_none(done, of_team(handle));
                            assert(groups@[i].changes@ =~= Seq::empty().push(change));
                        }
                    }
                    assert forall|i: int, j: int| 0 <= i < j < groups@.len() implies (
                    #[trigger] groups@[i]).team_handle@ != (#[trigger] groups@[j]).team_handle@ by {
                        assert(groups@[i] == before[i]);
                        if j < last {
                            assert(groups@[j] == before[j]);
                        }
                    }
                    assert forall|k: int| 0 <= k < done.push(change).len() implies has_group(
                        groups@,
                        (#[trigger] done.push(change)[k]).team_handle@,
                    ) by {
                        if k < done.len() {
                            assert(done.push(change)[k] == done[k]);
                            assert(has_group(before, done[k].team_handle@));
                            let i = choose|i: int|
                                0 <= i < before.len() && (#[trigger] before[i]).team_handle@
                                    == done[k].team_handle@;
                            assert(groups@[i] == before[i]);
                        } else {
                            assert(groups@[last].team_handle@ == handle);
                        }
                    }
                    assert(done.push(change).drop_last() =~= done);
                    assert forall|k: int| 0 <= k < done.len() implies (
                    #[trigger] done[k]).team_handle@ != handle by {
                        if done[k].team_handle@ == handle {
                            assert(has_group(before, done[k].team_handle@));
                            let g = choose|g: int|
                                0 <= g < before.len() && (#[trigger] before[g]).team_handle@
                                    == done[k].team_handle@;
                            assert(false);
                        }
                    }
                    lemma_first_of_team_none(done, handle);
                    assert forall|i: int| 0 <= i < groups@.len() implies first_of_team(
                        done.push(change),
                        (#[trigger] groups@[i]).team_handle@,
                    ) == (if i < last {
                        first_of_team(done, before[i].team_handle@)
                    } else {
                        done.len() as int
                    }) && (i < last ==> first_of_team(done, before[i].team_handle@) < done.len()) by {
                        if i < last {
                            assert(groups@[i] == before[i]);
                        }
                    }
                    assert(grouped(done.push(change), groups@));
                }
            },
        }
        proof {
            done = done.push(change);
            assert(done + rest@ =~= changes@);
        }
    }
    proof {
        assert(done =~= changes@);
    }
    groups
}

} // verus!
