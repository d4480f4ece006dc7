use security_api::hackerone::{
    leaderboard_entry, leaderboard_page, report_of, report_of_document, reports_of, thanks_of,
    DisclosedReport, HacktivityDocument, Participant, Reporter, SearchNode, ThanksItem,
};
use security_api::polls::reports::stored_list;
use security_api::polls::reputation::Stored;

fn row(name: &str, reputation: Option<i64>, rank: Option<i64>) -> Participant {
    Participant {
        username: name.to_string(),
        database_id: format!("id-{}", name),
        profile_picture: format!("https://img.example/{}.png", name),
        reputation,
        rank,
    }
}

fn document(id: &str) -> HacktivityDocument {
    HacktivityDocument {
        id: id.to_string(),
        report: Some(DisclosedReport {
            id: format!("r{}", id),
            title: Some("a title".to_string()),
            generated_summary: Some(Some("a summary".to_string())),
        }),
        disclosed: Some(true),
        currency: Some("EUR".to_string()),
        total_awarded_amount: Some(250),
        has_collaboration: Some(true),
        severity_rating: Some("CRITICAL".to_string()),
        reporter: Some(Reporter { username: "alice".to_string(), id: "42".to_string() }),
    }
}

#[test]
fn a_row_becomes_a_leaderboard_entry() {
    let entry = leaderboard_entry(row("bob", Some(17), Some(3)), "acme");
    assert_eq!(entry.reputation, 17);
    assert_eq!(entry.rank, 3);
    assert_eq!(entry.user_name, "bob");
    assert_eq!(entry.user_id, "id-bob");
    assert_eq!(entry.user_profile_image_url, "https://img.example/bob.png");
    assert_eq!(entry.team_handle, Some("acme".to_string()));
    let bare = leaderboard_entry(row("eve", None, None), "acme");
    assert_eq!(bare.reputation, 0);
    assert_eq!(bare.rank, -1);
}

#[test]
fn rows_become_a_page_in_their_order() {
    let page = leaderboard_page(
        Some(vec![row("a", Some(1), Some(1)), row("b", None, Some(2)), row("c", Some(3), None)]),
        "acme",
        Some("next".to_string()),
        true,
    );
    let items = page.items.unwrap();
    let names: Vec<String> = items.iter().map(|e| e.user_name.clone()).collect();
    assert_eq!(names, vec!["a", "b", "c"]);
    assert_eq!(items[1].reputation, 0);
    assert_eq!(items[2].rank, -1);
    assert!(items.iter().all(|e| e.team_handle == Some("acme".to_string())));
    assert_eq!(page.next_cursor, Some("next".to_string()));
    assert!(page.has_more);
    let last = leaderboard_page(Some(vec![]), "acme", None, false);
    assert!(last.items.unwrap().is_empty());
    assert!(!last.has_more);
    let none = leaderboard_page(None, "acme", None, false);
    assert!(none.items.is_none());
}

#[test]
fn a_disclosed_entry_becomes_a_report() {
    let report = report_of(SearchNode::Hacktivity(document("9"))).unwrap();
    assert_eq!(report.id, Some("r9".to_string()));
    assert_eq!(report.url, Some("https://hackerone.com/reports/9".to_string()));
    assert_eq!(report.title, Some("a title".to_string()));
    assert_eq!(report.summary, Some("a summary".to_string()));
    assert_eq!(report.severity, Some("critical".to_string()));
    assert_eq!(report.currency, "EUR");
    assert_eq!(report.awarded_amount, 250);
    assert_eq!(report.user_name, "alice");
    assert_eq!(report.user_id, "42");
    assert!(report.collaboration);
    assert!(report.disclosed);
}

#[test]
fn missing_values_of_an_entry_have_stand_ins() {
    let mut bare = document("9");
    bare.currency = None;
    bare.total_awarded_amount = None;
    bare.has_collaboration = None;
    bare.severity_rating = None;
    bare.reporter = None;
    bare.report = Some(DisclosedReport { id: "r9".to_string(), title: None, generated_summary: Some(None) });
    let report = report_of(SearchNode::Hacktivity(bare)).unwrap();
    assert_eq!(report.currency, "(unknown currency)");
    assert_eq!(report.awarded_amount, -1);
    assert!(!report.collaboration);
    assert_eq!(report.severity, Some("unknown".to_string()));
    assert_eq!(report.user_name, "(unknown)");
    assert_eq!(report.user_id, "1");
    assert_eq!(report.title, None);
    assert_eq!(report.summary, Some("This report does not have a summary".to_string()));
    let mut no_content = document("9");
    no_content.report =
        Some(DisclosedReport { id: "r9".to_string(), title: None, generated_summary: None });
    assert_eq!(report_of(SearchNode::Hacktivity(no_content)).unwrap().summary, None);
}

#[test]
fn entries_that_are_not_disclosed_reports_are_left_out() {
    let mut hidden = document("1");
    hidden.disclosed = Some(false);
    let mut unknown = document("2");
    unknown.disclosed = None;
    let mut empty = document("3");
    empty.report = None;
    let reports = reports_of(vec![
        Some(SearchNode::Hacktivity(hidden)),
        None,
        Some(SearchNode::Hacktivity(document("4"))),
        Some(SearchNode::Other),
        Some(SearchNode::Hacktivity(unknown)),
        Some(SearchNode::Hacktivity(empty)),
        Some(SearchNode::Hacktivity(document("5"))),
    ]);
    let ids: Vec<Option<String>> = reports.iter().map(|r| r.id.clone()).collect();
    assert_eq!(ids, vec![Some("r4".to_string()), None, Some("r5".to_string())]);
    assert!(!reports[1].disclosed);
    assert_eq!(reports[1].user_name, "");
    assert!(reports_of(vec![]).is_empty());
}

fn item(team: Option<&str>, resolved: Option<i64>, total: Option<i64>) -> Option<ThanksItem> {
    Some(ThanksItem {
        team_handle: team.map(|t| t.to_string()),
        report_count: resolved,
        total_report_count: total,
        reputation: Some(7),
    })
}

#[test]
fn a_profile_becomes_report_counts() {
    let items = vec![item(Some("x"), Some(3), Some(5)), None, item(None, Some(1), Some(1)), item(Some("y"), None, Some(2))];
    let all = thanks_of("42", "alice", items, None);
    assert_eq!(all.len(), 2);
    assert_eq!(all[0].user_id, "42");
    assert_eq!(all[0].user_name, "alice");
    assert_eq!(all[0].team_handle, "x");
    assert_eq!(all[0].resolved_report_count, 3);
    assert_eq!(all[0].total_report_count, 5);
    assert_eq!(all[0].invalid_report_count, 2);
    assert_eq!(all[0].reputation, 7);
    assert_eq!(all[1].team_handle, "y");
    assert_eq!(all[1].resolved_report_count, 0);
    assert_eq!(all[1].invalid_report_count, 2);
}

#[test]
fn a_profile_is_read_for_one_programme() {
    let items = vec![item(Some("x"), Some(3), Some(5)), item(Some("y"), None, None), item(Some("x"), Some(0), Some(1))];
    let only = thanks_of("42", "alice", items, Some("x"));
    assert_eq!(only.len(), 2);
    assert!(only.iter().all(|t| t.team_handle == "x"));
    assert_eq!(only[1].invalid_report_count, 1);
    let none = thanks_of("42", "alice", vec![item(Some("y"), None, None)], Some("x"));
    assert!(none.is_empty());
}

#[test]
fn a_store_without_entries_holds_no_snapshot() {
    let stored = Stored::from_store(Some(5), vec![]);
    assert_eq!(stored.last_run, Some(5));
    assert!(stored.previous.is_none());
    let stored = Stored::from_store(None, vec![leaderboard_entry(row("bob", None, None), "acme")]);
    assert_eq!(stored.last_run, None);
    assert_eq!(stored.previous.unwrap().len(), 1);
}

#[test]
fn the_severity_of_a_report_is_the_one_given() {
    let report = report_of_document(document("9"), Some("medium".to_string())).unwrap();
    assert_eq!(report.severity, Some("medium".to_string()));
    assert_eq!(report.id, Some("r9".to_string()));
    let report = report_of_document(document("9"), None).unwrap();
    assert_eq!(report.severity, Some("unknown".to_string()));
    let mut hidden = document("9");
    hidden.disclosed = Some(false);
    assert!(report_of_document(hidden, Some("low".to_string())).is_none());
}

#[test]
fn a_store_without_reports_holds_no_list() {
    assert!(stored_list(vec![]).is_none());
    let one = report_of(SearchNode::Hacktivity(document("1"))).unwrap();
    assert_eq!(stored_list(vec![one]).unwrap().len(), 1);
}
