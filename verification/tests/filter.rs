use d_buddy::bus::Item;
use d_buddy::filter::{
    contains_text, conversation, field_contains, filter_records, FilterCriteria,
};

fn record(serial: &str, reply_serial: &str) -> Item {
    let mut item = Item::default();
    item.serial = serial.to_string();
    item.reply_serial = reply_serial.to_string();
    item.is_reply = !reply_serial.is_empty();
    item
}

fn message(sender: &str, member: &str, path: &str, serial: &str) -> Item {
    let mut item = record(serial, "");
    item.sender = sender.to_string();
    item.member = member.to_string();
    item.path = path.to_string();
    item.app_name = "Unknown".to_string();
    item
}

fn serials(items: &[Item]) -> Vec<String> {
    items.iter().map(|i| i.serial.clone()).collect()
}

fn criteria(entries: &[(&str, &str)]) -> FilterCriteria {
    let mut criteria = FilterCriteria::new();
    for (field, wanted) in entries {
        criteria.insert(field.to_string(), wanted.to_string());
    }
    criteria
}

#[test]
fn conversation_holds_the_message_and_its_reply_in_arrival_order() {
    let records = vec![record("1", ""), record("2", "1")];
    let kept = conversation(&records, "1");
    assert_eq!(serials(&kept), vec!["1", "2"]);
    assert_eq!(kept[1].reply_serial, "1");
}

#[test]
fn conversation_is_not_transitive() {
    let records = vec![
        record("1", ""),
        record("2", "1"),
        record("3", "2"),
        record("4", ""),
        record("5", "1"),
        record("11", ""),
    ];
    assert_eq!(serials(&conversation(&records, "1")), vec!["1", "2", "5"]);
    assert_eq!(serials(&conversation(&records, "2")), vec!["2", "3"]);
    assert_eq!(serials(&conversation(&records, "9")), Vec::<String>::new());
    assert_eq!(records.len(), 6);
}

#[test]
fn conversation_matches_whole_serials_only() {
    let records = vec![record("1", ""), record("10", ""), record("21", "10")];
    assert_eq!(serials(&conversation(&records, "1")), vec!["1"]);
    assert_eq!(serials(&conversation(&records, "10")), vec!["10", "21"]);
}

#[test]
fn empty_criteria_pass_everything() {
    let item = message(":1.1", "Ping", "/a", "1");
    let none = FilterCriteria::new();
    assert!(none.is_empty());
    assert!(none.passes(&item));
    assert!(none.passes(&Item::default()));
}

#[test]
fn every_criterion_must_hold() {
    let item = message(":1.42", "NameOwnerChanged", "/org/freedesktop/DBus", "17");
    assert!(criteria(&[("member", "Owner")]).passes(&item));
    assert!(criteria(&[("member", "Owner"), ("path", "freedesktop")]).passes(&item));
    assert!(criteria(&[("serial", "1"), ("sender", "1.4")]).passes(&item));
    assert!(!criteria(&[("member", "Owner"), ("path", "gnome")]).passes(&item));
    assert!(!criteria(&[("member", "owner")]).passes(&item));
    assert!(!criteria(&[("reply_serial", "1")]).passes(&item));
    assert!(criteria(&[("reply_serial", "")]).passes(&item));
}

#[test]
fn a_name_that_names_no_field_fails_the_record() {
    let item = message(":1.42", "Ping", "/a", "17");
    assert!(!criteria(&[("receiver", "")]).passes(&item));
    assert!(!criteria(&[("member", "Ping"), ("bogus", "x")]).passes(&item));
    assert!(!field_contains(&item, "Sender", ""));
    assert!(field_contains(&item, "sender", ""));
}

#[test]
fn the_sender_field_is_seen_as_it_is_shown() {
    let mut item = message(":1.42", "Ping", "/a", "17");
    assert!(field_contains(&item, "sender", ":1.42"));
    item.app_name = "firefox".to_string();
    item.pid = Some(1234);
    assert!(field_contains(&item, "sender", "firefox:1234"));
    assert!(field_contains(&item, "sender", "fox:12"));
    assert!(!field_contains(&item, "sender", ":1.42"));
}

#[test]
fn free_text_looks_at_raw_sender_member_and_path() {
    let mut item = message(":1.42", "Ping", "/org/example", "17");
    item.app_name = "firefox".to_string();
    item.pid = Some(1);
    assert!(contains_text(&item, ""));
    assert!(contains_text(&item, "1.42"));
    assert!(contains_text(&item, "Pin"));
    assert!(contains_text(&item, "example"));
    assert!(!contains_text(&item, "firefox"));
    assert!(!contains_text(&item, "17"));
}

#[test]
fn both_filters_must_pass() {
    let records = vec![
        message(":1.1", "Ping", "/a", "1"),
        message(":1.2", "Pong", "/a", "2"),
        message(":1.1", "Pong", "/b", "3"),
        message(":1.3", "Ping", "/b", "4"),
    ];
    let by_member = criteria(&[("member", "Pong")]);
    assert_eq!(serials(&filter_records(&records, &by_member, "")), vec!["2", "3"]);
    assert_eq!(serials(&filter_records(&records, &by_member, ":1.1")), vec!["3"]);
    assert_eq!(serials(&filter_records(&records, &FilterCriteria::new(), "/b")), vec!["3", "4"]);
    assert_eq!(
        serials(&filter_records(&records, &FilterCriteria::new(), "")),
        vec!["1", "2", "3", "4"]
    );
    assert_eq!(serials(&filter_records(&records, &by_member, "nothing")), Vec::<String>::new());
    assert_eq!(serials(&filter_records(&Vec::new(), &by_member, "")), Vec::<String>::new());
    assert_eq!(records.len(), 4);
}

#[test]
fn criteria_are_a_mapping() {
    let mut criteria = FilterCriteria::new();
    criteria.insert("member".to_string(), "Ping".to_string());
    criteria.insert("path".to_string(), "/a".to_string());
    criteria.insert("member".to_string(), "Pong".to_string());
    assert_eq!(criteria.len(), 2);
    assert_eq!(criteria.field(0), "member");
    assert_eq!(criteria.wanted(0), "Pong");
    assert_eq!(criteria.field(1), "path");
    criteria.remove("nothing");
    assert_eq!(criteria.len(), 2);
    criteria.remove("member");
    assert_eq!(criteria.len(), 1);
    assert_eq!(criteria.field(0), "path");
    assert_eq!(criteria.wanted(0), "/a");
    criteria.clear();
    assert!(criteria.is_empty());
}

#[test]
fn filter_line_shows_criteria_in_brackets() {
    let mut criteria = FilterCriteria::new();
    assert_eq!(criteria.display_text("abc"), "abc");
    criteria.insert("member".to_string(), "Ping".to_string());
    assert_eq!(criteria.display_text(""), "[member=Ping] ");
    criteria.insert("path".to_string(), "/a".to_string());
    assert_eq!(criteria.display_text("x"), "[member=Ping, path=/a] x");
}
