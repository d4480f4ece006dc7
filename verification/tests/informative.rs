use security_api::hackerone::DISCOVERY_PAGE_SIZE;
use security_api::models::{UserInvalidReportChange, UserThanksData};
use security_api::polls::informative_reports::{diff_thanks, group_by_team};
use security_api::polls::programs::{Listing, ListingProgress};
use security_api::subscriptions::informative_reports::build_embed_data;

fn thanks(user: &str, team: &str, invalid: i64) -> UserThanksData {
    UserThanksData {
        user_id: format!("id-{}", user),
        user_name: user.to_string(),
        team_handle: team.to_string(),
        resolved_report_count: 3,
        invalid_report_count: invalid,
        total_report_count: 3 + invalid,
        reputation: 10,
    }
}

fn change(user: &str, team: &str, n: i64) -> UserInvalidReportChange {
    UserInvalidReportChange {
        user_id: format!("id-{}", user),
        user_name: user.to_string(),
        invalid_reports: n,
        team_handle: team.to_string(),
    }
}

fn shape(changes: &[UserInvalidReportChange]) -> Vec<(String, String, i64)> {
    changes.iter().map(|c| (c.user_name.clone(), c.team_handle.clone(), c.invalid_reports)).collect()
}

#[test]
fn growth_of_closed_reports_is_news() {
    let previous = vec![thanks("a", "x", 1), thanks("b", "x", 5), thanks("a", "y", 0), thanks("c", "x", 2)];
    let current = vec![thanks("a", "y", 4), thanks("b", "x", 5), thanks("a", "x", 2), thanks("d", "x", 9), thanks("c", "x", 1)];
    let changes = diff_thanks(&previous, &current);
    assert_eq!(
        shape(&changes),
        vec![("a".to_string(), "x".to_string(), 1), ("a".to_string(), "y".to_string(), 4)]
    );
    assert_eq!(changes[0].user_id, "id-a");
}

#[test]
fn growth_is_kept_within_the_number_range() {
    let changes = diff_thanks(&vec![thanks("a", "x", i64::MIN)], &vec![thanks("a", "x", i64::MAX)]);
    assert_eq!(changes[0].invalid_reports, i64::MAX);
    let changes = diff_thanks(&vec![thanks("a", "x", -3)], &vec![thanks("a", "x", 4)]);
    assert_eq!(changes[0].invalid_reports, 7);
}

#[test]
fn the_first_current_entry_of_a_participant_counts() {
    let changes = diff_thanks(&vec![thanks("a", "x", 1)], &vec![thanks("a", "x", 1), thanks("a", "x", 9)]);
    assert!(changes.is_empty());
}

#[test]
fn changes_are_grouped_by_programme() {
    let groups = group_by_team(vec![
        change("a", "x", 1),
        change("b", "y", 2),
        change("c", "x", 3),
        change("d", "z", 4),
        change("e", "y", 5),
    ]);
    let handles: Vec<String> = groups.iter().map(|g| g.team_handle.clone()).collect();
    assert_eq!(handles, vec!["x", "y", "z"]);
    assert_eq!(shape(&groups[0].changes), vec![("a".to_string(), "x".to_string(), 1), ("c".to_string(), "x".to_string(), 3)]);
    assert_eq!(shape(&groups[1].changes), vec![("b".to_string(), "y".to_string(), 2), ("e".to_string(), "y".to_string(), 5)]);
    assert_eq!(shape(&groups[2].changes), vec![("d".to_string(), "z".to_string(), 4)]);
    assert!(group_by_team(vec![]).is_empty());
}

#[test]
fn closed_reports_of_one_participant_are_told() {
    let told = build_embed_data(&vec![change("alice", "x", 1)], "x");
    assert_eq!(
        told.description,
        Some("[**``x``**](https://hackerone.com/x) closed a report from [**``alice``**](https://hackerone.com/alice) as Informative".to_string())
    );
    assert_eq!(told.color, 8882052);
    let told = build_embed_data(&vec![change("alice", "x", 3)], "x");
    assert_eq!(
        told.description,
        Some("[**``x``**](https://hackerone.com/x) closed 3 reports from [**``alice``**](https://hackerone.com/alice) as Informative".to_string())
    );
}

#[test]
fn closed_reports_of_many_participants_are_told() {
    let five: Vec<UserInvalidReportChange> = ["a", "b", "c", "d", "e"].iter().map(|u| change(u, "x", 1)).collect();
    assert_eq!(
        build_embed_data(&five, "x").description,
        Some("[**``x``**](https://hackerone.com/x) closed several reports from [**``a``**](https://hackerone.com/a), [**``b``**](https://hackerone.com/b), [**``c``**](https://hackerone.com/c) and [**``e``**](https://hackerone.com/e) as Informative".to_string())
    );
    let seven: Vec<UserInvalidReportChange> = ["a", "b", "c", "d", "e", "f", "g"].iter().map(|u| change(u, "x", 1)).collect();
    assert_eq!(
        build_embed_data(&seven, "x").description,
        Some("[**``x``**](https://hackerone.com/x) closed several reports from [**``a``**](https://hackerone.com/a), [**``b``**](https://hackerone.com/b), [**``c``**](https://hackerone.com/c) and 4 other users as Informative".to_string())
    );
}

fn page_of(from: usize, size: usize) -> Vec<Option<String>> {
    (0..size).map(|i| if i % 10 == 9 { None } else { Some(format!("p{}", from + i)) }).collect()
}

#[test]
fn programmes_are_listed_until_the_upstream_says_stop() {
    assert_eq!(DISCOVERY_PAGE_SIZE, 100);
    let listing = Listing::begin();
    let listing = match listing.answer(page_of(0, 100), true) {
        ListingProgress::Next { listing, from } => {
            assert_eq!(from, 100);
            listing
        }
        _ => panic!("a further page was expected"),
    };
    // a page that is not full does not end the listing
    let listing = match listing.answer(page_of(100, 30), true) {
        ListingProgress::Next { listing, from } => {
            assert_eq!(from, 130);
            listing
        }
        _ => panic!("a further page was expected"),
    };
    // a full page ends it where the upstream says so
    match listing.answer(page_of(130, 100), false) {
        ListingProgress::Complete(handles) => {
            assert_eq!(handles.len(), 90 + 27 + 90);
            assert_eq!(handles[0], "p0");
            assert_eq!(handles[9], "p10");
            assert_eq!(handles[90], "p100");
            assert_eq!(handles[117], "p130");
            assert_eq!(handles[206], "p228");
        }
        _ => panic!("the end was expected"),
    }
}

#[test]
fn an_empty_page_ends_the_listing_only_on_the_upstreams_word() {
    match Listing::begin().answer(vec![], false) {
        ListingProgress::Complete(handles) => assert!(handles.is_empty()),
        _ => panic!("the end was expected"),
    }
    match Listing::begin().answer(vec![], true) {
        ListingProgress::Next { from, .. } => assert_eq!(from, 0),
        _ => panic!("a further page was expected"),
    }
    match Listing::begin().answer(vec![Some("only".to_string()), None], false) {
        ListingProgress::Complete(handles) => assert_eq!(handles, vec!["only".to_string()]),
        _ => panic!("the end was expected"),
    }
}
