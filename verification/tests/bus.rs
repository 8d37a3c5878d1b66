use d_buddy::bus::{BusType, GroupingType, Header, Item, ProcessIdentity, UnknownGrouping};
use std::num::NonZeroU32;

fn header() -> Header {
    Header {
        sender: Some(":1.42".to_string()),
        destination: Some("org.example.Service".to_string()),
        member: Some("Ping".to_string()),
        path: Some("/org/example".to_string()),
        serial: 17,
        reply_serial: None,
    }
}

fn identity(pid: u32, name: &str) -> ProcessIdentity {
    ProcessIdentity {
        pid,
        name: name.to_string(),
        path: format!("/usr/bin/{}", name),
        args: vec![format!("/usr/bin/{}", name), "--flag".to_string()],
    }
}

#[test]
fn grouping_names_round_trip() {
    let all = [
        (GroupingType::Sender, "Sender"),
        (GroupingType::Member, "Member"),
        (GroupingType::Path, "Path"),
        (GroupingType::Serial, "Serial"),
        (GroupingType::Ungrouped, "None"),
    ];
    for (grouping, name) in all {
        assert_eq!(grouping.to_string(), name);
        assert_eq!(GroupingType::from_str(name), Ok(grouping));
    }
    assert_eq!(GroupingType::default(), GroupingType::Sender);
}

#[test]
fn unknown_grouping_names_are_errors() {
    for name in ["", "sender", "SENDER", "Sender ", "Nothing", "none"] {
        let error = GroupingType::from_str(name).unwrap_err();
        assert_eq!(error, UnknownGrouping { name: name.to_string() });
        assert_eq!(error.to_string(), format!("Unknown GroupingType: {}", name));
    }
}

#[test]
fn a_record_from_a_header_is_unresolved() {
    let item = Item::from_header(header(), None, BusType::System, 99);
    assert_eq!(item.timestamp, 99);
    assert_eq!(item.sender, ":1.42");
    assert_eq!(item.receiver, "org.example.Service");
    assert_eq!(item.member, "Ping");
    assert_eq!(item.path, "/org/example");
    assert_eq!(item.serial, "17");
    assert_eq!(item.reply_serial, "");
    assert!(!item.is_reply);
    assert_eq!(item.stream_type, BusType::System);
    assert!(item.message.is_none());
    assert_eq!(item.pid, None);
    assert_eq!(item.app_name, "Unknown");
    assert_eq!(item.app_path, "");
    assert!(item.app_args.is_empty());
    assert_eq!(item.receiver_pid, None);
    assert_eq!(item.receiver_app_name, "Unknown");
    assert_eq!(item.receiver_app_path, "");
    assert!(item.receiver_app_args.is_empty());
}

#[test]
fn a_record_is_a_reply_exactly_if_it_has_a_reply_serial() {
    let mut reply = header();
    reply.reply_serial = Some(4294967295);
    let item = Item::from_header(reply, None, BusType::Session, 1);
    assert!(item.is_reply);
    assert_eq!(item.reply_serial, "4294967295");
    let call = Item::from_header(header(), None, BusType::Session, 1);
    assert!(!call.is_reply);
    assert!(call.reply_serial.is_empty());
}

#[test]
fn absent_header_fields_are_empty_texts() {
    let bare = Header {
        sender: None,
        destination: None,
        member: None,
        path: None,
        serial: 1,
        reply_serial: None,
    };
    let item = Item::from_header(bare, None, BusType::Session, 0);
    assert_eq!(item.sender, "");
    assert_eq!(item.receiver, "");
    assert_eq!(item.member, "");
    assert_eq!(item.path, "");
    assert_eq!(item.serial, "1");
    assert_eq!(item.sender_display(), "");
    assert_eq!(item.receiver_display(), "");
}

#[test]
fn a_resolved_sender_is_shown_by_name_and_pid() {
    let mut item = Item::from_header(header(), None, BusType::Session, 0);
    assert_eq!(item.sender_display(), ":1.42");
    item.set_sender_identity(identity(1234, "firefox"));
    assert_eq!(item.pid, Some(1234));
    assert_eq!(item.app_name, "firefox");
    assert_eq!(item.app_path, "/usr/bin/firefox");
    assert_eq!(item.app_args, vec!["/usr/bin/firefox", "--flag"]);
    assert_eq!(item.sender_display(), "firefox:1234");
    assert_eq!(item.receiver_display(), "org.example.Service");
    assert_eq!(item.receiver_pid, None);
}

#[test]
fn a_resolved_receiver_is_shown_by_name_and_pid() {
    let mut item = Item::from_header(header(), None, BusType::Session, 0);
    item.set_receiver_identity(identity(77, "daemon"));
    assert_eq!(item.receiver_pid, Some(77));
    assert_eq!(item.receiver_app_name, "daemon");
    assert_eq!(item.receiver_app_path, "/usr/bin/daemon");
    assert_eq!(item.receiver_app_args, vec!["/usr/bin/daemon", "--flag"]);
    assert_eq!(item.receiver_display(), "daemon:77");
    assert_eq!(item.sender_display(), ":1.42");
    assert_eq!(item.pid, None);
}

#[test]
fn an_unknown_process_is_shown_by_its_endpoint() {
    let mut item = Item::from_header(header(), None, BusType::Session, 0);
    item.set_sender_identity(ProcessIdentity {
        pid: 5,
        name: "Unknown".to_string(),
        path: String::new(),
        args: Vec::new(),
    });
    assert_eq!(item.pid, Some(5));
    assert_eq!(item.sender_display(), ":1.42");
    item.app_name = "tool".to_string();
    item.pid = None;
    assert_eq!(item.sender_display(), ":1.42");
    item.pid = Some(0);
    assert_eq!(item.sender_display(), "tool:0");
}

#[test]
fn a_record_without_receiver_shows_none() {
    let mut bare = header();
    bare.destination = None;
    let mut item = Item::from_header(bare, None, BusType::Session, 0);
    item.set_receiver_identity(identity(77, "daemon"));
    assert_eq!(item.receiver_display(), "");
}

#[test]
fn the_default_record_is_blank() {
    let item = Item::default();
    assert_eq!(item.timestamp, 0);
    assert_eq!(item.sender, "");
    assert_eq!(item.app_name, "");
    assert_eq!(item.stream_type, BusType::Session);
    assert!(!item.is_reply);
    assert!(item.message.is_none());
    assert_eq!(item.sender_display(), "");
}

#[test]
fn a_record_from_a_message_reads_its_header() {
    let call = zbus::Message::method_call("/org/example/Object", "Ping")
        .unwrap()
        .sender(":1.42")
        .unwrap()
        .destination("org.example.Service")
        .unwrap()
        .serial(NonZeroU32::new(7).unwrap())
        .build(&())
        .unwrap();
    let item = Item::from_message(call.clone(), BusType::Session, 1000);
    assert_eq!(item.sender, ":1.42");
    assert_eq!(item.receiver, "org.example.Service");
    assert_eq!(item.member, "Ping");
    assert_eq!(item.path, "/org/example/Object");
    assert_eq!(item.serial, "7");
    assert_eq!(item.reply_serial, "");
    assert!(!item.is_reply);
    assert_eq!(item.timestamp, 1000);
    assert_eq!(item.stream_type, BusType::Session);
    assert_eq!(item.app_name, "Unknown");
    assert_eq!(item.pid, None);
    let kept = item.message.as_ref().unwrap();
    assert_eq!(kept.header().primary().serial_num().get(), 7);

    let reply = zbus::Message::method_return(&call.header())
        .unwrap()
        .serial(NonZeroU32::new(8).unwrap())
        .build(&())
        .unwrap();
    let answer = Item::from_message(reply, BusType::System, 1001);
    assert!(answer.is_reply);
    assert_eq!(answer.reply_serial, "7");
    assert_eq!(answer.serial, "8");
    assert_eq!(answer.member, "");
    assert_eq!(answer.receiver, ":1.42");
    assert_eq!(answer.stream_type, BusType::System);
}

#[test]
fn a_duplicate_shares_the_message() {
    let call = zbus::Message::method_call("/a", "Ping")
        .unwrap()
        .serial(NonZeroU32::new(3).unwrap())
        .build(&("payload", 5u32))
        .unwrap();
    let item = Item::from_message(call, BusType::Session, 5);
    let copy = item.duplicate();
    let kept = item.message.as_ref().unwrap();
    let copied = copy.message.as_ref().unwrap();
    assert_eq!(copied.header().primary().serial_num().get(), 3);
    assert_eq!(copied.body().signature().to_string(), kept.body().signature().to_string());
    let body: (String, u32) = copied.body().deserialize().unwrap();
    assert_eq!(body, ("payload".to_string(), 5));
    assert_eq!(copy.serial, "3");
}

#[test]
fn identities_are_duplicated_field_by_field() {
    let identity = identity(12, "tool");
    assert_eq!(identity.duplicate(), identity);
}
