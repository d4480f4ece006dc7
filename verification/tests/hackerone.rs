use security_api::hackerone::{
    extract_csrf_token, CompleteHacktivitySearchQuery, DiscoveryQuery, HackerOneClient,
    HacktivityOrderFieldEnum, OrderDirection, TeamHacktivityPageQuery, TeamNameHacktivityQuery,
    TeamYearThankQuery,
};

#[test]
fn can_extract_csrf_token() {
    let csrf_token = "hello_world";
    let mock_page = format!(
        r#"
            <meta name="csrf-param" content="authenticity_token" />
            <meta name="csrf-token" content="{csrf_token}" />
        "#
    );

    let extracted_token = extract_csrf_token(&mock_page);
    assert_eq!(extracted_token.unwrap(), csrf_token);
}

#[test]
fn no_token_where_the_page_has_none() {
    assert_eq!(extract_csrf_token(""), None);
    assert_eq!(extract_csrf_token("<meta name=\"csrf-token\" content=\"\" />"), None);
    assert_eq!(extract_csrf_token("<meta name=\"csrf-token\" content=\"abc\"/>"), None);
}

#[test]
fn the_first_token_of_the_page_is_taken() {
    let page = "x<meta name=\"csrf-token\" content=\"one\" /><meta name=\"csrf-token\" content=\"two\" />";
    assert_eq!(extract_csrf_token(page), Some("one".to_string()));
}

#[test]
fn session_cookie_carries_the_token() {
    let client = HackerOneClient::new("csrf".to_string(), "abc123".to_string());
    assert_eq!(client.csrf_token, Some("csrf".to_string()));
    assert_eq!(client.session_token, Some("abc123".to_string()));
    assert_eq!(client.cookie(), "__Host-session=abc123");
    let none = HackerOneClient { csrf_token: None, session_token: None };
    assert_eq!(none.cookie(), "__Host-session=");
}

#[test]
fn leaderboard_query_starts_without_cursor() {
    let first = TeamYearThankQuery::page("roblox", None);
    assert_eq!(first.selected_handle, "roblox");
    assert_eq!(first.year, None);
    assert_eq!(first.cursor, "");
    let next = TeamYearThankQuery::page("roblox", Some("MjU".to_string()));
    assert_eq!(next.cursor, "MjU");
    let probe = TeamYearThankQuery::probe("roblox", 2024);
    assert_eq!(probe.year, Some(2024));
    assert_eq!(probe.cursor, "");
}

#[test]
fn search_for_disclosed_reports() {
    let all = CompleteHacktivitySearchQuery::disclosed(None);
    assert_eq!(all.query_string, "disclosed:true");
    assert_eq!(all.from, 0);
    assert_eq!(all.size, 10);
    assert_eq!(all.sort_field, "latest_disclosable_activity_at");
    assert_eq!(all.sort_direction, OrderDirection::DESC);
    let one = CompleteHacktivitySearchQuery::disclosed(Some("Roblox".to_string()));
    assert_eq!(one.query_string, "disclosed:true&& team:(\"Roblox\")");
}

#[test]
fn other_queries() {
    assert_eq!(TeamNameHacktivityQuery::new("roblox").handle, "roblox");
    let page = DiscoveryQuery::page(200);
    assert_eq!(page.size, 100);
    assert_eq!(page.from, 200);
    assert_eq!(page.sort_field, "launched_at");
    assert_eq!(page.sort_direction, OrderDirection::DESC);
    assert_eq!(OrderDirection::default(), OrderDirection::DESC);
    assert_eq!(HacktivityOrderFieldEnum::default(), HacktivityOrderFieldEnum::Popular);
    let activity = TeamHacktivityPageQuery::default();
    assert_eq!(activity.order_direction, OrderDirection::DESC);
    assert_eq!(activity.order_field, HacktivityOrderFieldEnum::Popular);
}
