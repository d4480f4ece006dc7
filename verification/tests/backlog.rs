use security_api::backlog::{delivery_order, Backlog};
use security_api::models::{RepChange, RepData, RepDataQueueItem};
use security_api::ranking::{insert_ranked, sort_ranked};

fn entry(id: &str, rank: i64) -> RepData {
    RepData {
        reputation: 10,
        rank,
        user_name: id.to_string(),
        user_profile_image_url: String::new(),
        user_id: id.to_string(),
        team_handle: Some("team".to_string()),
    }
}

fn item(name: &str, created_at: i64) -> RepDataQueueItem {
    RepDataQueueItem { id: Some(name.to_string()), diff: vec![], include_team_handle: false, created_at }
}

fn names(items: &[RepDataQueueItem]) -> Vec<String> {
    items.iter().map(|i| i.id.clone().unwrap()).collect()
}

#[test]
fn the_oldest_are_replayed_in_the_order_of_creation() {
    let mut backlog = Backlog::new();
    backlog.append(item("first", 100));
    backlog.append(item("second", 50));
    backlog.append(item("third", 75));
    assert_eq!(backlog.len(), 3);
    let batch = backlog.oldest(1000);
    let times: Vec<i64> = batch.iter().map(|i| i.created_at).collect();
    assert_eq!(times, vec![50, 75, 100]);
    assert_eq!(names(&batch), vec!["second", "third", "first"]);
}

fn four() -> Backlog {
    let mut backlog = Backlog::new();
    for (name, at) in [("a", 4), ("b", 1), ("c", 3), ("d", 2)] {
        backlog.append(item(name, at));
    }
    backlog
}

#[test]
fn the_replay_is_bounded() {
    assert_eq!(names(&four().oldest(2)), vec!["b", "d"]);
    assert_eq!(names(&four().oldest(4)), vec!["b", "d", "c", "a"]);
    assert_eq!(names(&four().oldest(5)), vec!["b", "d", "c", "a"]);
    assert!(four().oldest(0).is_empty());
    assert!(Backlog::new().oldest(2).is_empty());
    assert_eq!(security_api::backlog::MAX_BACKLOG, 1000);
}

#[test]
fn batches_of_one_time_keep_their_order() {
    let mut backlog = Backlog::new();
    for (name, at) in [("a", 5), ("b", 5), ("c", 1), ("d", 5), ("e", 1)] {
        backlog.append(item(name, at));
    }
    assert_eq!(names(&backlog.oldest(10)), vec!["c", "e", "a", "b", "d"]);
    let sorted = Backlog::from_items(vec![item("a", 5), item("b", 5), item("c", 1), item("d", 5), item("e", 1)]);
    assert_eq!(names(&sorted.oldest(10)), vec!["c", "e", "a", "b", "d"]);
}

#[test]
fn changes_are_delivered_by_rank_of_the_participant() {
    let batch = RepDataQueueItem {
        id: Some("x".to_string()),
        diff: vec![
            RepChange { before: entry("u1", 9), after: entry("u1", 8) },
            RepChange { before: entry("gone", 3), after: RepData::sentinel() },
            RepChange { before: RepData::sentinel(), after: entry("new", 1) },
            RepChange { before: entry("u2", 1), after: entry("u2", 8) },
            RepChange { before: RepData::sentinel(), after: entry("unranked", -1) },
        ],
        include_team_handle: true,
        created_at: 1,
    };
    let ordered = delivery_order(batch);
    let who: Vec<String> = ordered
        .iter()
        .map(|c| if c.after.is_sentinel() { c.before.user_id.clone() } else { c.after.user_id.clone() })
        .collect();
    assert_eq!(who, vec!["unranked", "new", "gone", "u1", "u2"]);
}

#[test]
fn sorting_is_stable_and_insertion_goes_behind_equals() {
    let sorted = sort_ranked(vec![item("a", 2), item("b", 1), item("c", 2), item("d", 1), item("e", 0)]);
    assert_eq!(names(&sorted), vec!["e", "b", "d", "a", "c"]);
    let mut sorted = sorted;
    insert_ranked(&mut sorted, item("f", 1));
    assert_eq!(names(&sorted), vec!["e", "b", "d", "f", "a", "c"]);
    insert_ranked(&mut sorted, item("g", -5));
    insert_ranked(&mut sorted, item("h", 9));
    assert_eq!(names(&sorted), vec!["g", "e", "b", "d", "f", "a", "c", "h"]);
    assert!(sort_ranked(Vec::<RepDataQueueItem>::new()).is_empty());
}
