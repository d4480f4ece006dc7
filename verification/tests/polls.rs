use security_api::fetch::FetchError;
use security_api::models::{ChangeKind, RepData};
use security_api::polls::reputation::{Action, Event, Stored, Tick};
use security_api::polls::TickError;
use security_api::publisher::batch;

fn entry(id: &str, reputation: i64, rank: i64) -> RepData {
    RepData {
        reputation,
        rank,
        user_name: id.to_string(),
        user_profile_image_url: String::new(),
        user_id: id.to_string(),
        team_handle: Some("team".to_string()),
    }
}

fn ids(entries: &[RepData]) -> Vec<String> {
    entries.iter().map(|e| e.user_id.clone()).collect()
}

fn fetching(last_run: Option<i64>, previous: Option<Vec<RepData>>) -> Tick {
    let (tick, action) = Tick::new().step(Event::Due {
        stored: Stored { last_run, previous },
        include_team_handle: true,
    });
    assert_eq!(action, Action::Fetch);
    assert!(matches!(tick, Tick::Fetching { .. }));
    tick
}

fn is_id(text: &str) -> bool {
    text.chars().count() == 21
        && text.chars().all(|c| c == '_' || c == '-' || c.is_ascii_alphanumeric())
}

#[test]
fn first_run_stores_the_snapshot_and_publishes_nothing() {
    for (last_run, previous) in [
        (None, None),
        (None, Some(vec![entry("old", 1, 1)])),
        (Some(5), None),
    ] {
        let tick = fetching(last_run, previous);
        let fetched = vec![entry("a", 1, 1), entry("b", 2, 2), entry("a", 3, 3)];
        let (tick, action) = tick.step(Event::Fetched(fetched));
        assert_eq!(action, Action::SaveSnapshot);
        assert!(tick.batch().is_none());
        assert_eq!(ids(tick.snapshot().unwrap()), vec!["a", "b", "a"]);
        let (tick, action) = tick.step(Event::Done);
        assert_eq!(action, Action::SaveMarker);
        assert_eq!(ids(tick.snapshot().unwrap()), vec!["a", "b", "a"]);
        let (tick, action) = tick.step(Event::Done);
        assert_eq!(action, Action::Rest);
        assert!(matches!(tick, Tick::Idle));
    }
}

#[test]
fn first_run_with_an_empty_list_stores_the_empty_list() {
    let tick = fetching(None, None);
    let (tick, action) = tick.step(Event::Fetched(vec![]));
    assert_eq!(action, Action::SaveSnapshot);
    assert!(tick.snapshot().unwrap().is_empty());
}

#[test]
fn empty_list_against_a_snapshot_fails_the_tick() {
    let previous = vec![entry("a", 1, 1), entry("b", 2, 2), entry("c", 3, 3)];
    let tick = fetching(Some(1_700_000_000_000), Some(previous));
    let (tick, action) = tick.step(Event::Fetched(vec![]));
    assert_eq!(action, Action::Log);
    assert_eq!(tick.error(), Some(TickError::EmptySnapshotGuard));
    assert!(tick.snapshot().is_none());
    assert!(tick.batch().is_none());
    let (tick, action) = tick.step(Event::Logged);
    assert_eq!(action, Action::Rest);
    assert!(matches!(tick, Tick::Idle));
}

#[test]
fn empty_list_against_an_empty_snapshot_is_compared() {
    let tick = fetching(Some(1), Some(vec![]));
    let (tick, action) = tick.step(Event::Fetched(vec![]));
    assert_eq!(action, Action::Proceed);
    let (tick, action) = tick.step(Event::Proceed { now: 2 });
    assert_eq!(action, Action::SaveSnapshot);
    assert!(tick.snapshot().unwrap().is_empty());
}

#[test]
fn a_steady_tick_publishes_then_stores() {
    let previous = vec![entry("u1", 10, 5), entry("gone", 3, 9)];
    let tick = fetching(Some(1), Some(previous));
    let (tick, action) = tick.step(Event::Fetched(vec![entry("u1", 15, 4), entry("u2", 1, 50)]));
    assert_eq!(action, Action::Proceed);
    assert!(matches!(tick, Tick::Diffing { .. }));
    let (tick, action) = tick.step(Event::Proceed { now: 1234 });
    assert_eq!(action, Action::PublishLive);
    {
        let item = tick.batch().unwrap();
        assert_eq!(item.created_at, 1234);
        assert!(item.include_team_handle);
        assert!(is_id(item.id.as_ref().unwrap()));
        let kinds: Vec<ChangeKind> = item.diff.iter().map(|c| c.kind()).collect();
        assert_eq!(kinds, vec![ChangeKind::Updated, ChangeKind::Added, ChangeKind::Removed]);
        assert_eq!(item.diff[0].before.reputation, 10);
        assert_eq!(item.diff[0].after.reputation, 15);
        assert_eq!(item.diff[1].after.user_id, "u2");
        assert_eq!(item.diff[2].before.user_id, "gone");
    }
    let id = tick.batch().unwrap().id.clone();
    let (tick, action) = tick.step(Event::Done);
    assert_eq!(action, Action::AppendBacklog);
    assert_eq!(tick.batch().unwrap().id, id);
    let (tick, action) = tick.step(Event::Done);
    assert_eq!(action, Action::SaveSnapshot);
    assert!(tick.batch().is_none());
    assert_eq!(ids(tick.snapshot().unwrap()), vec!["u1", "u2"]);
    let (tick, action) = tick.step(Event::Done);
    assert_eq!(action, Action::SaveMarker);
    let (tick, action) = tick.step(Event::Done);
    assert_eq!(action, Action::Rest);
    assert!(matches!(tick, Tick::Idle));
}

#[test]
fn a_tick_without_changes_stores_without_publishing() {
    let tick = fetching(Some(1), Some(vec![entry("u1", 10, 5)]));
    let (tick, _) = tick.step(Event::Fetched(vec![entry("u1", 10, 6)]));
    let (tick, action) = tick.step(Event::Proceed { now: 9 });
    assert_eq!(action, Action::SaveSnapshot);
    assert!(tick.batch().is_none());
    assert_eq!(tick.snapshot().unwrap()[0].rank, 6);
}

#[test]
fn a_failed_publication_stores_nothing() {
    for fail_at in 0..2 {
        let tick = fetching(Some(1), Some(vec![entry("u1", 10, 5)]));
        let (tick, _) = tick.step(Event::Fetched(vec![entry("u1", 11, 5)]));
        let (mut tick, mut action) = tick.step(Event::Proceed { now: 9 });
        assert_eq!(action, Action::PublishLive);
        for _ in 0..fail_at {
            (tick, action) = tick.step(Event::Done);
        }
        assert!(action == Action::PublishLive || action == Action::AppendBacklog);
        let (tick, action) = tick.step(Event::Failed(TickError::Persistence));
        assert_eq!(action, Action::Log);
        assert_eq!(tick.error(), Some(TickError::Persistence));
        assert!(tick.snapshot().is_none());
        let (tick, action) = tick.step(Event::Logged);
        assert_eq!(action, Action::Rest);
        assert!(matches!(tick, Tick::Idle));
    }
}

#[test]
fn a_failed_fetch_fails_the_tick() {
    let tick = fetching(Some(1), Some(vec![entry("u1", 10, 5)]));
    let (tick, action) = tick.step(Event::Failed(TickError::Fetch(FetchError::Upstream)));
    assert_eq!(action, Action::Log);
    assert_eq!(tick.error(), Some(TickError::Fetch(FetchError::Upstream)));
}

#[test]
fn a_duplicate_identity_fails_the_tick() {
    let tick = fetching(Some(1), Some(vec![entry("u1", 10, 5)]));
    let (tick, action) = tick.step(Event::Fetched(vec![entry("u2", 1, 1), entry("u2", 1, 1)]));
    assert_eq!(action, Action::Proceed);
    let (tick, action) = tick.step(Event::Proceed { now: 3 });
    assert_eq!(action, Action::Log);
    assert_eq!(tick.error(), Some(TickError::DuplicateIdentity));
}

#[test]
fn an_event_out_of_turn_fails_the_tick() {
    let (tick, action) = Tick::new().step(Event::Done);
    assert_eq!(action, Action::Log);
    assert_eq!(tick.error(), Some(TickError::UnexpectedEvent));
    let tick = fetching(Some(1), Some(vec![]));
    let (tick, action) = tick.step(Event::Proceed { now: 1 });
    assert_eq!(action, Action::Log);
    assert_eq!(tick.error(), Some(TickError::UnexpectedEvent));
    let (tick, action) = tick.step(Event::Fetched(vec![]));
    assert_eq!(action, Action::Rest);
    assert!(matches!(tick, Tick::Idle));
}

#[test]
fn no_batch_without_changes_and_a_fresh_id_with_them() {
    assert!(batch(vec![], true, 5).is_none());
    let change = security_api::models::RepChange { before: RepData::sentinel(), after: entry("n", 1, 1) };
    let one = batch(vec![change.duplicate()], false, 77).unwrap();
    let two = batch(vec![change], false, 77).unwrap();
    assert_eq!(one.created_at, 77);
    assert!(!one.include_team_handle);
    assert_eq!(one.diff.len(), 1);
    assert!(is_id(one.id.as_ref().unwrap()));
    assert!(is_id(two.id.as_ref().unwrap()));
    assert_ne!(one.id, two.id);
}
