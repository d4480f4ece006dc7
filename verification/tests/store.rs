use security_api::redis::{load_set_to_vec, open, StoreError};

fn members(values: &[&str]) -> Vec<String> {
    values.iter().map(|v| v.to_string()).collect()
}

#[test]
fn quoted_members_lose_their_quotes() {
    let read = load_set_to_vec(&members(&["\"roblox\"", "plain", "\"\"", "", "\"a\"b\"", "x\"y\""])).unwrap();
    assert_eq!(read, members(&["roblox", "plain", "", "", "a\"b", "x\"y\""]));
}

#[test]
fn the_last_character_goes_whatever_it_is() {
    let read = load_set_to_vec(&members(&["\"abc", "\"\u{e9}x"])).unwrap();
    assert_eq!(read, members(&["ab", "\u{e9}"]));
}

#[test]
fn a_lone_quote_is_malformed() {
    assert_eq!(load_set_to_vec(&members(&["ok", "\""])), Err(StoreError::MalformedEntry));
}

#[test]
fn a_wide_last_character_is_malformed() {
    assert_eq!(load_set_to_vec(&members(&["\"caf\u{e9}"])), Err(StoreError::MalformedEntry));
}

#[test]
fn no_members_no_values() {
    assert_eq!(load_set_to_vec(&vec![]), Ok(vec![]));
}

#[test]
fn an_address_is_judged_without_connecting() {
    assert!(open("redis://127.0.0.1:6379/0").is_ok());
    assert_eq!(open("not an address").err(), Some(StoreError::InvalidAddress));
}
