use security_api::models::my_date_format::{deserialize, serialize, DateError};
use security_api::models::{embed_colors, redis_keys, RepChange, RepData};
use security_api::subscriptions::reputation::{build_embed_data, team_handle_of};

fn entry(name: &str, team: Option<&str>, reputation: i64, rank: i64) -> RepData {
    RepData {
        reputation,
        rank,
        user_name: name.to_string(),
        user_profile_image_url: String::new(),
        user_id: format!("id-{}", name),
        team_handle: team.map(|t| t.to_string()),
    }
}

#[test]
fn an_addition_is_told() {
    let change = RepChange { before: RepData::sentinel(), after: entry("bob", Some("acme"), 17, 12) };
    let told = build_embed_data(&change, "acme", true).unwrap();
    assert_eq!(
        told.description,
        Some("[**``bob``**](https://hackerone.com/bob) was added to [**``acme``**](https://hackerone.com/acme) with **17 reputation** (rank: #12)".to_string())
    );
    assert_eq!(told.color, embed_colors::POSTIVE);
    assert_eq!(told.footer, None);
    assert_eq!(told.title, None);
    assert!(told.fields.is_empty());
}

#[test]
fn an_addition_without_rank_or_far_down_is_told() {
    let change = RepChange { before: RepData::sentinel(), after: entry("bob", None, -5, -1) };
    let told = build_embed_data(&change, "acme", false).unwrap();
    assert_eq!(
        told.description,
        Some("[**``bob``**](https://hackerone.com/bob) was added to [**``acme``**](https://hackerone.com/acme) with **-5 reputation** (rank: >100)".to_string())
    );
    assert_eq!(told.color, embed_colors::POSTIVE);
    let change = RepChange { before: RepData::sentinel(), after: entry("bob", None, 1, 50) };
    assert_eq!(build_embed_data(&change, "acme", false).unwrap().color, embed_colors::MAJOR);
    let change = RepChange { before: RepData::sentinel(), after: entry("bob", None, 1, 49) };
    assert_eq!(build_embed_data(&change, "acme", false).unwrap().color, embed_colors::POSTIVE);
}

#[test]
fn a_removal_is_told() {
    let change = RepChange { before: entry("bob", Some("acme"), 17, 12), after: RepData::sentinel() };
    let told = build_embed_data(&change, "acme", true).unwrap();
    assert_eq!(
        told.description,
        Some("[**``bob``**](https://hackerone.com/bob) was removed from [**``acme``**](https://hackerone.com/acme)".to_string())
    );
    assert_eq!(told.color, embed_colors::NEGATIVE);
    assert_eq!(told.footer, None);
}

#[test]
fn a_gain_is_told_with_climb_and_breakdown() {
    let change = RepChange { before: entry("bob", None, 10, 9), after: entry("bob", None, 24, 7) };
    let told = build_embed_data(&change, "acme", false).unwrap();
    assert_eq!(
        told.description,
        Some("[**``bob``**](https://hackerone.com/bob) gained **+14 reputation** and now has **24 reputation**".to_string())
    );
    assert_eq!(told.color, embed_colors::POSTIVE);
    assert_eq!(told.footer, Some("#9 -> #7 (+2) \u{e2}\u{20ac}\u{a2} Triage(2)".to_string()));
}

#[test]
fn a_major_gain_names_the_programme_where_asked() {
    let change = RepChange { before: entry("bob", None, 10, 7), after: entry("bob", None, 60, 7) };
    let told = build_embed_data(&change, "acme", true).unwrap();
    assert_eq!(
        told.description,
        Some("[**``bob``**](https://hackerone.com/bob) gained **+50 reputation** and now has **60 reputation** in [**``acme``**](https://hackerone.com/acme)".to_string())
    );
    assert_eq!(told.color, embed_colors::MAJOR);
    assert_eq!(told.footer, Some("High".to_string()));
    let change = RepChange { before: entry("bob", None, 10, 7), after: entry("bob", None, 59, 7) };
    assert_eq!(build_embed_data(&change, "acme", true).unwrap().color, embed_colors::POSTIVE);
}

#[test]
fn a_gain_without_climb_or_breakdown_has_no_footer() {
    let change = RepChange { before: entry("bob", None, 10, 7), after: entry("bob", None, 13, 8) };
    assert_eq!(build_embed_data(&change, "acme", false).unwrap().footer, None);
    let change = RepChange { before: entry("bob", None, 10, 9), after: entry("bob", None, 13, 8) };
    assert_eq!(build_embed_data(&change, "acme", false).unwrap().footer, Some("#9 -> #8 (+1)".to_string()));
}

#[test]
fn a_loss_is_told() {
    let change = RepChange { before: entry("bob", None, 10, 9), after: entry("bob", None, 6, 7) };
    let told = build_embed_data(&change, "acme", true).unwrap();
    assert_eq!(
        told.description,
        Some("[**``bob``**](https://hackerone.com/bob) lost **-4 reputation** and now has **6 reputation** in [**``acme``**](https://hackerone.com/acme)".to_string())
    );
    assert_eq!(told.color, embed_colors::NEGATIVE);
    assert_eq!(told.footer, Some("#9 -> #7 (--2)| N/A(2)".to_string()));
    let change = RepChange { before: entry("bob", None, 10, 7), after: entry("bob", None, 9, 9) };
    assert_eq!(build_embed_data(&change, "acme", false).unwrap().footer, None);
}

#[test]
fn an_unchanged_reputation_is_not_told() {
    let change = RepChange { before: entry("bob", None, 10, 9), after: entry("bob", None, 10, 7) };
    assert!(build_embed_data(&change, "acme", true).is_none());
}

#[test]
fn the_programme_of_a_change_is_that_of_either_side() {
    let added = RepChange { before: RepData::sentinel(), after: entry("bob", Some("acme"), 1, 1) };
    assert_eq!(team_handle_of(&added), Some(&"acme".to_string()));
    let removed = RepChange { before: entry("bob", Some("acme"), 1, 1), after: RepData::sentinel() };
    assert_eq!(team_handle_of(&removed), Some(&"acme".to_string()));
    let both = RepChange { before: entry("bob", Some("old"), 1, 1), after: entry("bob", Some("new"), 2, 1) };
    assert_eq!(team_handle_of(&both), Some(&"old".to_string()));
    let none = RepChange { before: entry("bob", None, 1, 1), after: entry("bob", None, 2, 1) };
    assert_eq!(team_handle_of(&none), None);
}

#[test]
fn a_point_in_time_is_written_to_the_second() {
    assert_eq!(serialize(947638923004), Ok("2000-01-12 01:02:03".to_string()));
    assert_eq!(serialize(0), Ok("1970-01-01 00:00:00".to_string()));
    assert_eq!(serialize(-1), Ok("1969-12-31 23:59:59".to_string()));
    assert_eq!(serialize(i64::MAX), Err(DateError::OutOfRange));
}

#[test]
fn a_written_point_in_time_is_read() {
    assert_eq!(deserialize("2000-01-12 01:02:03"), Ok(947638923000));
    assert_eq!(deserialize("1970-01-01 00:00:00"), Ok(0));
    assert_eq!(deserialize("2000-01-12T01:02:03"), Err(DateError::Unreadable));
    assert_eq!(deserialize("2000-13-12 01:02:03"), Err(DateError::Unreadable));
    assert_eq!(deserialize(""), Err(DateError::Unreadable));
}

#[test]
fn names_of_keys_and_colours() {
    assert_eq!(redis_keys::REPUTATION_QUEUE_BACKLOG, "reputation_queue");
    assert_eq!(redis_keys::REPUTATION_QUEUE_PUBSUB, "reputation_poll_queue");
    assert_eq!(redis_keys::REPUTATION_QUEUE_LAST_RUN_TIME, "reputation_poll_last_run_time");
    assert_eq!(redis_keys::REPUTATION_QUEUE_LAST_DATA, "reputation_poll_last_data");
    assert_eq!(redis_keys::REPORTS_QUEUE_PUBSUB, "reports_poll_queue");
    assert_eq!(redis_keys::REPORTS_POLL_LAST_RUN_TIME, "reports_poll_last_run_time");
    assert_eq!(redis_keys::REPORTS_POLL_LAST_DATA, "reports_poll_last_data");
    assert_eq!(redis_keys::PROGRAMS, "programs");
    assert_eq!(redis_keys::USER_INFORMATIVE_REPORTS_QUEUE_PUBSUB, "user_informative_reports_queue");
    assert_eq!(redis_keys::USER_THANKS_DATA_POLL_LAST_DATA, "user_program_thanks_data_poll_last_data");
    assert_eq!(embed_colors::NEGATIVE, 0xFF0000);
    assert_eq!(embed_colors::POSTIVE, 5222492);
    assert_eq!(embed_colors::MAJOR, 16567356);
    assert_eq!(embed_colors::INFORMAL, 8882052);
    assert_eq!(embed_colors::TRANSPARENT, 2829617);
}
