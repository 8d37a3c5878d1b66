use d_buddy::bus::{BusType, GroupingType, Item};
use d_buddy::detail::{detail_lines, Body, DetailLine, Span, Tone};
use d_buddy::event::{
    detail_text_of, field_value, filter_field, handle_event, reply_command_for, Action, Key,
};
use d_buddy::format::LineStyle;
use d_buddy::state::{App, Mode};
use d_buddy::value::Value;

fn record(member: &str, serial: &str, timestamp: u64) -> Item {
    let mut item = Item::default();
    item.sender = ":1.1".to_string();
    item.member = member.to_string();
    item.path = "/p".to_string();
    item.serial = serial.to_string();
    item.timestamp = timestamp;
    item.app_name = "Unknown".to_string();
    item
}

fn loaded() -> App {
    let mut app = App::new();
    app.refresh(
        vec![record("A", "1", 1), record("B", "2", 2), record("C", "3", 3)],
        vec![record("S", "9", 9)],
        10,
    );
    app
}

fn press(app: &mut App, keys: &str) {
    for c in keys.chars() {
        handle_event(app, Key::Char(c));
    }
}

#[test]
fn q_quits_unless_the_detail_is_open() {
    let mut app = loaded();
    assert_eq!(handle_event(&mut app, Key::Char('q')), Action::Quit);
    app.show_details = true;
    assert_eq!(handle_event(&mut app, Key::Char('q')), Action::Idle);
    assert!(!app.show_details);
    assert_eq!(handle_event(&mut app, Key::Char('q')), Action::Quit);
}

#[test]
fn any_key_in_normal_mode_clears_the_status_line() {
    let mut app = loaded();
    app.status_message = "something".to_string();
    assert_eq!(handle_event(&mut app, Key::Other), Action::Idle);
    assert_eq!(app.status_message, "");
    app.status_message = "something".to_string();
    app.mode = Mode::Filtering;
    handle_event(&mut app, Key::Tab);
    assert_eq!(app.status_message, "something");
}

#[test]
fn tab_cycles_the_views_and_drops_the_selection() {
    let mut app = loaded();
    assert_eq!(app.list_state.selected, Some(0));
    handle_event(&mut app, Key::Tab);
    assert_eq!(app.stream, BusType::System);
    assert_eq!(app.list_state.selected, None);
    handle_event(&mut app, Key::Tab);
    assert_eq!(app.stream, BusType::Both);
    handle_event(&mut app, Key::Tab);
    assert_eq!(app.stream, BusType::Session);
}

#[test]
fn up_and_down_move_the_selection_within_the_list() {
    let mut app = loaded();
    app.follow = true;
    assert_eq!(handle_event(&mut app, Key::Down), Action::Idle);
    assert_eq!(app.list_state.selected, Some(1));
    assert!(!app.follow);
    handle_event(&mut app, Key::Down);
    handle_event(&mut app, Key::Down);
    assert_eq!(app.list_state.selected, Some(2));
    handle_event(&mut app, Key::Up);
    assert_eq!(app.list_state.selected, Some(1));
    handle_event(&mut app, Key::Up);
    handle_event(&mut app, Key::Up);
    assert_eq!(app.list_state.selected, Some(0));
    app.list_state.selected = None;
    handle_event(&mut app, Key::Down);
    assert_eq!(app.list_state.selected, Some(0));
    app.list_state.selected = None;
    handle_event(&mut app, Key::Up);
    assert_eq!(app.list_state.selected, Some(0));
    app.list_state.selected = Some(usize::MAX);
    handle_event(&mut app, Key::Down);
    assert_eq!(app.list_state.selected, Some(2));
}

#[test]
fn up_and_down_do_nothing_in_an_empty_list() {
    let mut app = App::new();
    app.follow = true;
    assert_eq!(handle_event(&mut app, Key::Down), Action::Idle);
    assert_eq!(handle_event(&mut app, Key::Up), Action::Idle);
    assert_eq!(app.list_state.selected, None);
    assert!(app.follow);
}

#[test]
fn moving_with_the_detail_open_asks_for_an_update() {
    let mut app = loaded();
    assert_eq!(handle_event(&mut app, Key::Char('s')), Action::UpdateDetail);
    assert!(app.show_details);
    assert_eq!(handle_event(&mut app, Key::Down), Action::UpdateDetail);
    assert_eq!(handle_event(&mut app, Key::Up), Action::UpdateDetail);
    assert_eq!(handle_event(&mut app, Key::Char(' ')), Action::Idle);
    assert!(!app.show_details);
    assert_eq!(handle_event(&mut app, Key::Char(' ')), Action::UpdateDetail);
    assert_eq!(handle_event(&mut app, Key::Esc), Action::Idle);
    assert!(!app.show_details);
}

#[test]
fn the_detail_is_updated_for_the_selected_record() {
    let mut app = loaded();
    app.list_state.selected = Some(1);
    app.detail_scroll = 7;
    let body = Body::Decoded(Value::U8(1));
    app.update_detail_text(&body);
    assert_eq!(app.detail_text, detail_lines(&app.filtered_and_sorted_items[1], &body));
    assert_eq!(app.detail_scroll, 0);
    app.list_state.selected = None;
    app.detail_scroll = 7;
    app.update_detail_text(&Body::Absent);
    assert_eq!(app.detail_text, detail_lines(&app.filtered_and_sorted_items[1], &body));
    assert_eq!(app.detail_scroll, 7);
}

#[test]
fn scrolling_the_detail_is_asked_for_only_while_it_is_open() {
    let mut app = loaded();
    app.follow = true;
    press(&mut app, "jk");
    handle_event(&mut app, Key::PageDown);
    handle_event(&mut app, Key::PageUp);
    assert_eq!(app.detail_scroll_request, None);
    assert!(app.follow);
    app.show_details = true;
    press(&mut app, "j");
    assert_eq!(app.detail_scroll_request, Some(1));
    assert!(app.follow);
    press(&mut app, "k");
    assert_eq!(app.detail_scroll_request, Some(-1));
    handle_event(&mut app, Key::PageDown);
    assert_eq!(app.detail_scroll_request, Some(10));
    assert!(!app.follow);
    handle_event(&mut app, Key::PageUp);
    assert_eq!(app.detail_scroll_request, Some(-10));
}

#[test]
fn x_clears_the_stores() {
    let mut app = loaded();
    press(&mut app, "x");
    assert_eq!(app.session.len(), 0);
    assert_eq!(app.system.len(), 0);
    assert!(app.filtered_and_sorted_items.is_empty());
    assert_eq!(app.list_state.selected, None);
    assert_eq!(app.status_message, "Message lists cleared.");
}

#[test]
fn follow_and_relative_time_are_toggled() {
    let mut app = loaded();
    press(&mut app, "F");
    assert!(app.follow);
    assert_eq!(app.status_message, "Follow mode enabled.");
    press(&mut app, "F");
    assert!(!app.follow);
    assert_eq!(app.status_message, "Follow mode disabled.");
    press(&mut app, "T");
    assert!(app.use_relative_time);
    assert_eq!(app.status_message, "");
    press(&mut app, "T");
    assert!(!app.use_relative_time);
}

#[test]
fn t_enters_the_conversation_of_the_selected_record() {
    let mut app = loaded();
    app.list_state.selected = Some(1);
    press(&mut app, "t");
    assert_eq!(app.mode, Mode::ConversationView);
    assert_eq!(app.conversation_serial, Some("2".to_string()));
    assert_eq!(handle_event(&mut app, Key::Char('q')), Action::Idle);
    assert_eq!(app.mode, Mode::ConversationView);
    assert_eq!(handle_event(&mut app, Key::Esc), Action::Idle);
    assert_eq!(app.mode, Mode::Normal);
    assert_eq!(app.conversation_serial, None);
    app.list_state.selected = None;
    press(&mut app, "t");
    assert_eq!(app.mode, Mode::Normal);
    app.list_state.selected = Some(3);
    press(&mut app, "t");
    assert_eq!(app.mode, Mode::Normal);
}

#[test]
fn r_asks_to_copy_a_reply_command() {
    let mut app = loaded();
    app.list_state.selected = Some(2);
    assert_eq!(
        handle_event(&mut app, Key::Char('r')),
        Action::CopyReply {
            command: "dbus-send --session --dest=:1.1 /p <interface>.<member>".to_string()
        }
    );
    app.list_state.selected = None;
    assert_eq!(handle_event(&mut app, Key::Char('r')), Action::Idle);
    let item = record("A", "1", 1);
    assert_eq!(
        reply_command_for(BusType::System, &item),
        "dbus-send --system --dest=:1.1 /p <interface>.<member>"
    );
    assert_eq!(
        reply_command_for(BusType::Both, &item),
        "dbus-send --session --dest=:1.1 /p <interface>.<member>"
    );
}

#[test]
fn c_asks_to_export_the_detail_text() {
    let mut app = loaded();
    assert_eq!(handle_event(&mut app, Key::Char('c')), Action::Idle);
    app.show_details = true;
    app.update_detail_text(&Body::Decoded(Value::Structure(vec![Value::U8(1), Value::U8(2)])));
    assert_eq!(
        handle_event(&mut app, Key::Char('c')),
        Action::ExportDetail {
            text: ":1.1|1|A:/p\n\n\ni_1 [u8]: 1\ni_2 [u8]: 2".to_string()
        }
    );
}

#[test]
fn the_detail_text_joins_spans_and_lines() {
    let lines = vec![
        DetailLine {
            spans: vec![
                Span { text: "a".to_string(), tone: Tone::Sender },
                Span { text: "b".to_string(), tone: Tone::Plain },
            ],
            style: LineStyle::Plain,
        },
        DetailLine { spans: vec![], style: LineStyle::Striped },
        DetailLine {
            spans: vec![Span { text: "c".to_string(), tone: Tone::Path }],
            style: LineStyle::Plain,
        },
    ];
    assert_eq!(detail_text_of(&lines), "ab\n\nc");
    assert_eq!(detail_text_of(&Vec::new()), "");
}

#[test]
fn filter_input_with_an_equals_sign_is_a_field_filter() {
    let mut app = loaded();
    press(&mut app, "f");
    assert_eq!(app.mode, Mode::Filtering);
    assert_eq!(handle_event(&mut app, Key::Char('m')), Action::EditInput);
    assert_eq!(app.input, "");
    app.input = "member=B".to_string();
    assert_eq!(handle_event(&mut app, Key::Enter), Action::Idle);
    assert_eq!(app.mode, Mode::Normal);
    assert_eq!(app.input, "");
    assert_eq!(app.filter_criteria.len(), 1);
    assert_eq!(app.filter_criteria.field(0), "member");
    assert_eq!(app.filter_criteria.wanted(0), "B");

    app.mode = Mode::Filtering;
    app.input = "path=a=b".to_string();
    handle_event(&mut app, Key::Enter);
    assert_eq!(app.filter_criteria.len(), 2);
    assert_eq!(app.filter_criteria.field(1), "path");
    assert_eq!(app.filter_criteria.wanted(1), "a=b");

    app.mode = Mode::Filtering;
    app.input = "member=".to_string();
    handle_event(&mut app, Key::Enter);
    assert_eq!(app.filter_criteria.len(), 1);
    assert_eq!(app.filter_criteria.field(0), "path");
    assert_eq!(app.input, "");
}

#[test]
fn other_filter_input_is_the_free_text_filter() {
    let mut app = loaded();
    app.filter_criteria.insert("member".to_string(), "B".to_string());
    app.mode = Mode::Filtering;
    app.input = "some text".to_string();
    handle_event(&mut app, Key::Enter);
    assert_eq!(app.mode, Mode::Normal);
    assert_eq!(app.input, "some text");
    assert!(app.filter_criteria.is_empty());
}

#[test]
fn empty_filter_input_drops_every_filter() {
    let mut app = loaded();
    app.filter_criteria.insert("member".to_string(), "B".to_string());
    app.mode = Mode::Filtering;
    handle_event(&mut app, Key::Enter);
    assert_eq!(app.mode, Mode::Normal);
    assert!(app.filter_criteria.is_empty());
    assert_eq!(app.input, "");
}

#[test]
fn escape_drops_every_filter() {
    let mut app = loaded();
    app.filter_criteria.insert("member".to_string(), "B".to_string());
    app.mode = Mode::Filtering;
    app.input = "typed".to_string();
    assert_eq!(handle_event(&mut app, Key::Esc), Action::Idle);
    assert_eq!(app.mode, Mode::Normal);
    assert_eq!(app.input, "");
    assert!(app.filter_criteria.is_empty());
}

#[test]
fn tab_offers_the_fields_of_the_selected_record() {
    let mut app = loaded();
    app.list_state.selected = Some(1);
    app.mode = Mode::Filtering;
    handle_event(&mut app, Key::Tab);
    assert_eq!(app.mode, Mode::AutoFilterSelection);
    assert_eq!(app.autofilter_selection_state.selected, Some(0));
    handle_event(&mut app, Key::Up);
    assert_eq!(app.autofilter_selection_state.selected, Some(0));
    handle_event(&mut app, Key::Down);
    assert_eq!(app.autofilter_selection_state.selected, Some(1));
    assert_eq!(handle_event(&mut app, Key::Enter), Action::Idle);
    assert_eq!(app.mode, Mode::Filtering);
    assert_eq!(app.input, "member=B");
    assert_eq!(app.autofilter_selection_state.selected, None);

    handle_event(&mut app, Key::Tab);
    for _ in 0..9 {
        handle_event(&mut app, Key::Down);
    }
    assert_eq!(app.autofilter_selection_state.selected, Some(4));
    handle_event(&mut app, Key::Enter);
    assert_eq!(app.input, "reply_serial=");

    handle_event(&mut app, Key::Tab);
    handle_event(&mut app, Key::Esc);
    assert_eq!(app.mode, Mode::Filtering);
    assert_eq!(app.input, "reply_serial=");
    assert_eq!(app.autofilter_selection_state.selected, None);

    app.list_state.selected = None;
    handle_event(&mut app, Key::Tab);
    assert_eq!(app.mode, Mode::Filtering);
}

#[test]
fn the_fields_to_filter_by() {
    let names: Vec<Option<&str>> = (0..6).map(filter_field).collect();
    assert_eq!(
        names,
        vec![Some("sender"), Some("member"), Some("path"), Some("serial"), Some("reply_serial"), None]
    );
    let mut item = record("M", "5", 1);
    item.app_name = "app".to_string();
    item.pid = Some(3);
    assert_eq!(field_value(&item, "sender"), Some("app:3".to_string()));
    assert_eq!(field_value(&item, "member"), Some("M".to_string()));
    assert_eq!(field_value(&item, "path"), Some("/p".to_string()));
    assert_eq!(field_value(&item, "serial"), Some("5".to_string()));
    assert_eq!(field_value(&item, "reply_serial"), Some("".to_string()));
    assert_eq!(field_value(&item, "receiver"), None);
}

#[test]
fn grouping_dimensions_are_chosen_from_a_list() {
    let mut app = loaded();
    press(&mut app, "g");
    assert_eq!(app.mode, Mode::GroupingSelection);
    assert_eq!(app.grouping_selection_state.selected, Some(0));
    handle_event(&mut app, Key::Down);
    press(&mut app, " ");
    assert_eq!(app.grouping_keys, vec![GroupingType::Member]);
    handle_event(&mut app, Key::Up);
    press(&mut app, " ");
    assert_eq!(app.grouping_keys, vec![GroupingType::Sender, GroupingType::Member]);
    press(&mut app, " ");
    assert_eq!(app.grouping_keys, vec![GroupingType::Member]);
    for _ in 0..9 {
        handle_event(&mut app, Key::Down);
    }
    assert_eq!(app.grouping_selection_state.selected, Some(4));
    press(&mut app, " ");
    assert_eq!(app.grouping_keys, vec![GroupingType::Ungrouped]);
    assert_eq!(app.mode, Mode::GroupingSelection);
    press(&mut app, "g");
    assert_eq!(app.mode, Mode::Normal);
    press(&mut app, "g");
    assert_eq!(app.grouping_selection_state.selected, Some(4));
    handle_event(&mut app, Key::Esc);
    assert_eq!(app.mode, Mode::Normal);
    app.mode = Mode::GroupingSelection;
    app.grouping_selection_state.selected = Some(9);
    press(&mut app, " ");
    assert_eq!(app.grouping_keys, vec![GroupingType::Ungrouped]);
}
