use security_api::diff::{diff, DiffError};
use security_api::models::{ChangeKind, RepChange, RepData};

fn entry(id: &str, team: Option<&str>, reputation: i64, rank: i64) -> RepData {
    RepData {
        reputation,
        rank,
        user_name: format!("name-{}", id),
        user_profile_image_url: format!("https://img.example/{}", id),
        user_id: id.to_string(),
        team_handle: team.map(|t| t.to_string()),
    }
}

fn same(a: &RepData, b: &RepData) -> bool {
    a.reputation == b.reputation
        && a.rank == b.rank
        && a.user_name == b.user_name
        && a.user_profile_image_url == b.user_profile_image_url
        && a.user_id == b.user_id
        && a.team_handle == b.team_handle
}

fn ids(changes: &[RepChange], kind: ChangeKind) -> Vec<String> {
    changes
        .iter()
        .filter(|c| c.kind() == kind)
        .map(|c| if kind == ChangeKind::Removed { c.before.user_id.clone() } else { c.after.user_id.clone() })
        .collect()
}

#[test]
fn update_and_addition_in_the_order_of_the_current_snapshot() {
    let previous = vec![entry("u1", None, 10, 5)];
    let current = vec![entry("u1", None, 15, 4), entry("u2", None, 1, 50)];
    let changes = diff(&previous, &current).unwrap();
    assert_eq!(changes.len(), 2);
    assert!(same(&changes[0].before, &previous[0]));
    assert!(same(&changes[0].after, &current[0]));
    assert_eq!(changes[0].kind(), ChangeKind::Updated);
    assert!(changes[1].before.is_sentinel());
    assert!(same(&changes[1].before, &RepData::sentinel()));
    assert!(same(&changes[1].after, &current[1]));
    assert_eq!(changes[1].kind(), ChangeKind::Added);
}

#[test]
fn sentinel_is_the_out_of_band_entry() {
    let s = RepData::sentinel();
    assert_eq!(s.reputation, -1);
    assert_eq!(s.rank, -1);
    assert_eq!(s.user_name, "");
    assert_eq!(s.user_profile_image_url, "");
    assert_eq!(s.user_id, "");
    assert_eq!(s.team_handle, None);
    assert!(s.is_sentinel());
    assert!(!entry("u1", None, -1, -1).is_sentinel());
    assert!(!RepData::default().is_sentinel());
    assert_eq!(RepData::default().reputation, 0);
}

#[test]
fn identical_snapshots_give_no_changes() {
    let previous = vec![entry("u1", Some("a"), 10, 5), entry("u2", Some("a"), 7, 9)];
    let current = vec![entry("u2", Some("a"), 7, 9), entry("u1", Some("a"), 10, 5)];
    assert!(diff(&previous, &current).unwrap().is_empty());
    assert!(diff(&previous, &previous).unwrap().is_empty());
    let nothing: Vec<RepData> = vec![];
    assert!(diff(&nothing, &nothing).unwrap().is_empty());
}

#[test]
fn a_change_of_rank_alone_is_no_change() {
    let previous = vec![entry("u1", None, 10, 5)];
    let current = vec![entry("u1", None, 10, 4)];
    assert!(diff(&previous, &current).unwrap().is_empty());
}

#[test]
fn removals_follow_in_the_order_of_the_previous_snapshot() {
    let previous = vec![
        entry("gone-b", None, 3, 30),
        entry("kept", None, 5, 2),
        entry("gone-a", None, 4, 20),
    ];
    let current = vec![entry("new", None, 1, 40), entry("kept", None, 6, 1)];
    let changes = diff(&previous, &current).unwrap();
    assert_eq!(changes.len(), 4);
    assert_eq!(changes[0].kind(), ChangeKind::Added);
    assert_eq!(changes[0].after.user_id, "new");
    assert_eq!(changes[1].kind(), ChangeKind::Updated);
    assert_eq!(changes[1].before.reputation, 5);
    assert_eq!(changes[1].after.reputation, 6);
    assert_eq!(changes[2].kind(), ChangeKind::Removed);
    assert_eq!(changes[2].before.user_id, "gone-b");
    assert!(changes[2].after.is_sentinel());
    assert_eq!(changes[3].kind(), ChangeKind::Removed);
    assert_eq!(changes[3].before.user_id, "gone-a");
    assert!(changes[3].after.is_sentinel());
}

#[test]
fn every_participant_is_named_exactly_once() {
    let previous = vec![
        entry("a", None, 1, 1),
        entry("b", None, 2, 2),
        entry("c", None, 3, 3),
        entry("d", None, 4, 4),
    ];
    let current = vec![
        entry("b", None, 2, 2),
        entry("c", None, 30, 3),
        entry("e", None, 5, 5),
        entry("d", None, 4, 1),
    ];
    let changes = diff(&previous, &current).unwrap();
    assert_eq!(ids(&changes, ChangeKind::Added), vec!["e".to_string()]);
    assert_eq!(ids(&changes, ChangeKind::Updated), vec!["c".to_string()]);
    assert_eq!(ids(&changes, ChangeKind::Removed), vec!["a".to_string()]);
    // kept: b and d; together with the three above: a, b, c, d, e
    assert_eq!(changes.len(), 3);
    for change in &changes {
        assert!(!(change.before.is_sentinel() && change.after.is_sentinel()));
        match change.kind() {
            ChangeKind::Added => assert!(change.before.is_sentinel()),
            ChangeKind::Removed => assert!(change.after.is_sentinel()),
            ChangeKind::Updated => {
                assert!(!change.before.is_sentinel() && !change.after.is_sentinel())
            }
        }
    }
}

#[test]
fn identity_is_user_and_programme() {
    let previous = vec![entry("u1", Some("alpha"), 10, 1)];
    let current = vec![entry("u1", Some("beta"), 10, 1)];
    let changes = diff(&previous, &current).unwrap();
    assert_eq!(changes.len(), 2);
    assert_eq!(changes[0].kind(), ChangeKind::Added);
    assert_eq!(changes[0].after.team_handle, Some("beta".to_string()));
    assert_eq!(changes[1].kind(), ChangeKind::Removed);
    assert_eq!(changes[1].before.team_handle, Some("alpha".to_string()));
    assert!(previous[0].same_identity(&previous[0].duplicate()));
    assert!(!previous[0].same_identity(&current[0]));
    assert!(!entry("u1", None, 1, 1).same_identity(&entry("u1", Some(""), 1, 1)));
}

#[test]
fn duplicate_identity_in_the_current_snapshot_is_refused() {
    let previous = vec![entry("u1", None, 10, 5)];
    let current = vec![entry("u1", None, 15, 4), entry("u2", None, 1, 50), entry("u1", None, 15, 4)];
    assert_eq!(diff(&previous, &current).unwrap_err(), DiffError::DuplicateIdentity);
}

#[test]
fn the_last_entry_of_the_previous_snapshot_counts() {
    let previous = vec![entry("u1", None, 10, 5), entry("u1", None, 12, 5)];
    let unchanged = vec![entry("u1", None, 12, 3)];
    assert!(diff(&previous, &unchanged).unwrap().is_empty());
    let changed = vec![entry("u1", None, 10, 3)];
    let changes = diff(&previous, &changed).unwrap();
    assert_eq!(changes.len(), 1);
    assert_eq!(changes[0].before.reputation, 12);
    let gone: Vec<RepData> = vec![];
    let changes = diff(&previous, &gone).unwrap();
    assert_eq!(changes.len(), 1);
    assert_eq!(changes[0].before.reputation, 12);
    assert_eq!(changes[0].kind(), ChangeKind::Removed);
}

#[test]
fn rank_key_is_that_of_the_side_that_is_a_participant() {
    let added = RepChange { before: RepData::sentinel(), after: entry("a", None, 1, 7) };
    let removed = RepChange { before: entry("b", None, 1, 9), after: RepData::sentinel() };
    let updated = RepChange { before: entry("c", None, 1, 9), after: entry("c", None, 2, 8) };
    assert_eq!(added.rank_key(), 7);
    assert_eq!(removed.rank_key(), 9);
    assert_eq!(updated.rank_key(), 8);
    assert_eq!(updated.duplicate().after.reputation, 2);
}
