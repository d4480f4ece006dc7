use security_api::models::{ReportChange, ReportData};
use security_api::polls::reports::{batch, diff_reports, plan, ReportsPlan};
use security_api::polls::TickError;
use security_api::subscriptions::reports::build_embed_data;

fn report(id: Option<&str>, disclosed: bool) -> ReportData {
    ReportData {
        user_name: "alice".to_string(),
        user_id: "42".to_string(),
        currency: "USD".to_string(),
        awarded_amount: 500,
        id: id.map(|i| i.to_string()),
        title: Some(format!("title {}", id.unwrap_or("-"))),
        url: Some(format!("https://hackerone.com/reports/{}", id.unwrap_or("-"))),
        summary: None,
        severity: Some("high".to_string()),
        collaboration: false,
        disclosed,
    }
}

#[test]
fn default_report_is_the_sentinel() {
    let d = ReportData::default();
    assert_eq!(d.user_name, "");
    assert_eq!(d.user_id, "");
    assert_eq!(d.currency, "");
    assert_eq!(d.awarded_amount, 0);
    assert_eq!(d.id, None);
    assert_eq!(d.title, None);
    assert!(!d.disclosed && !d.collaboration);
}

#[test]
fn new_and_newly_disclosed_reports_are_news() {
    let previous = vec![report(Some("1"), true), report(Some("2"), false), report(Some("3"), false)];
    let current = vec![
        report(Some("4"), true),
        report(Some("2"), true),
        report(Some("1"), true),
        report(Some("3"), false),
        report(Some("5"), false),
    ];
    let changes = diff_reports(&previous, &current);
    assert_eq!(changes.len(), 3);
    assert_eq!(changes[0].before.id, None);
    assert_eq!(changes[0].after.id, Some("4".to_string()));
    assert_eq!(changes[1].before.id, Some("2".to_string()));
    assert!(!changes[1].before.disclosed);
    assert!(changes[1].after.disclosed);
    assert_eq!(changes[2].before.id, None);
    assert_eq!(changes[2].after.id, Some("5".to_string()));
}

#[test]
fn reports_that_left_the_list_are_no_news() {
    let previous = vec![report(Some("1"), true), report(Some("2"), true)];
    assert!(diff_reports(&previous, &vec![report(Some("2"), true)]).is_empty());
    assert!(diff_reports(&previous, &vec![]).is_empty());
}

#[test]
fn a_missing_number_is_the_empty_number() {
    let previous = vec![report(Some(""), false)];
    let changes = diff_reports(&previous, &vec![report(None, true)]);
    assert_eq!(changes.len(), 1);
    assert_eq!(changes[0].before.id, Some("".to_string()));
    assert!(report(None, true).same_identity(&report(Some(""), false)));
    assert!(!report(None, true).same_identity(&report(Some("1"), false)));
    assert!(report(Some("7"), true).same_identity(&report(Some("7"), false)));
}

#[test]
fn the_first_stored_entry_of_a_report_counts() {
    let previous = vec![report(Some("1"), true), report(Some("1"), false)];
    assert!(diff_reports(&previous, &vec![report(Some("1"), true)]).is_empty());
}

#[test]
fn reports_first_run_publishes_nothing() {
    let current = vec![report(Some("1"), true)];
    assert!(matches!(plan(None, None, &current), Ok(ReportsPlan::FirstRun)));
    assert!(matches!(plan(Some(1), None, &current), Ok(ReportsPlan::FirstRun)));
    assert!(matches!(plan(None, Some(&vec![]), &current), Ok(ReportsPlan::FirstRun)));
}

#[test]
fn reports_empty_list_against_stored_reports_fails() {
    let stored = vec![report(Some("1"), true), report(Some("2"), true), report(Some("3"), true)];
    assert!(matches!(plan(Some(1), Some(&stored), &vec![]), Err(TickError::EmptySnapshotGuard)));
}

#[test]
fn reports_steady_run_gives_the_news() {
    let stored = vec![report(Some("1"), true)];
    match plan(Some(1), Some(&stored), &vec![report(Some("1"), true), report(Some("9"), true)]) {
        Ok(ReportsPlan::Steady { changes }) => {
            assert_eq!(changes.len(), 1);
            assert_eq!(changes[0].after.id, Some("9".to_string()));
            let item = batch(changes, Some("team".to_string()), 5).unwrap();
            assert_eq!(item.team_handle, Some("team".to_string()));
            assert_eq!(item.created_at, 5);
            assert_eq!(item.diff.len(), 1);
            assert_eq!(item.id.unwrap().chars().count(), 21);
        }
        _ => panic!("a steady run was expected"),
    }
    match plan(Some(1), Some(&vec![]), &vec![]) {
        Ok(ReportsPlan::Steady { changes }) => assert!(changes.is_empty()),
        _ => panic!("a steady run was expected"),
    }
    assert!(batch(vec![], None, 5).is_none());
}

#[test]
fn a_disclosed_report_is_told() {
    let mut new = report(Some("77"), true);
    new.summary = Some("a summary".to_string());
    new.collaboration = true;
    let told = build_embed_data(&ReportChange { before: ReportData::default(), after: new }).unwrap();
    assert_eq!(told.title, Some("title 77".to_string()));
    assert_eq!(told.url, Some("https://hackerone.com/reports/77".to_string()));
    assert_eq!(told.description, None);
    assert_eq!(told.color, 2829617);
    assert_eq!(told.footer, None);
    let fields: Vec<(String, String, bool)> =
        told.fields.iter().map(|f| (f.name.clone(), f.value.clone(), f.inline)).collect();
    assert_eq!(
        fields,
        vec![
            (
                "Reporter".to_string(),
                "[**``alice``**](https://hackerone.com/alice) (+ unknown collaborator)".to_string(),
                false
            ),
            ("Summary".to_string(), "a summary".to_string(), false),
            ("Severity".to_string(), "high".to_string(), true),
            ("Bounty Award".to_string(), "500 USD".to_string(), true),
        ]
    );
}

#[test]
fn missing_values_of_a_report_have_stand_ins() {
    let mut new = report(None, true);
    new.title = None;
    new.url = None;
    new.severity = None;
    new.awarded_amount = -1;
    let told = build_embed_data(&ReportChange { before: ReportData::default(), after: new }).unwrap();
    assert_eq!(told.title, Some("(unknown title)".to_string()));
    assert_eq!(told.url, Some("https://hackerone.com/???".to_string()));
    let fields: Vec<(String, String, bool)> =
        told.fields.iter().map(|f| (f.name.clone(), f.value.clone(), f.inline)).collect();
    assert_eq!(
        fields,
        vec![
            ("Reporter".to_string(), "[**``alice``**](https://hackerone.com/alice)".to_string(), false),
            ("Severity".to_string(), "unknown".to_string(), true),
            ("Bounty Award".to_string(), "hidden".to_string(), true),
        ]
    );
}

#[test]
fn an_undisclosed_report_is_not_told() {
    let change = ReportChange { before: ReportData::default(), after: report(Some("1"), false) };
    assert!(build_embed_data(&change).is_none());
}
