//! Key handling: from the state and a key to the next state and the action
//! that the presentation layer has to perform.

use crate::bus::{BusType, Item, ItemView};
use crate::detail::{detail_lines, detail_of, Body, BodyView, DetailLine, DetailLineView};
use crate::text::same_text;
use crate::filter::display_value;
use crate::grouping::{grouping_option, option_at, toggle_grouping, toggled};
use crate::keyed::{with_entry, without_entry};
use crate::state::{App, AppView, ListState, Mode};
use crate::text::{chars_of, join, joined};
use vstd::prelude::*;
use vstd::string::*;

verus! {

/// A key press, as far as the inspector tells keys apart.
#[derive(Clone, Copy, Debug, PartialEq, Eq)]
pub enum Key {
    Char(char),
    Tab,
    Up,
    Down,
    Enter,
    Esc,
    PageUp,
    PageDown,
    /// Any other key.
    Other,
}

/// What the presentation layer has to do after a key was handled.
#[derive(Debug, PartialEq, Eq)]
pub enum Action {
    /// Nothing but to go on.
    Idle,
    /// Leave the program.
    Quit,
    /// Put a command that replies to the selected message on the clipboard,
    /// and report in the status line how that went.
    CopyReply { command: String },
    /// Save the text of the detail view and put it on the clipboard, and
    /// report in the status line how that went.
    ExportDetail { text: String },
    /// Hand the key to the editor of the filter input, and store the text
    /// that it leaves.
    EditInput,
    /// Decode the payload of the selected record and update the detail view.
    UpdateDetail,
}

/// What an action is in contracts.
pub ghost enum ActionView {
    Idle,
    Quit,
    CopyReply { command: Seq<char> },
    ExportDetail { text: Seq<char> },
    EditInput,
    UpdateDetail,
}

impl View for Action {
    type V = ActionView;

    open spec fn view(&self) -> ActionView {
        match self {
            Action::Idle => ActionView::Idle,
            Action::Quit => ActionView::Quit,
            Action::CopyReply { command } => ActionView::CopyReply { command: command@ },
            Action::ExportDetail { text } => ActionView::ExportDetail { text: text@ },
            Action::EditInput => ActionView::EditInput,
            Action::UpdateDetail => ActionView::UpdateDetail,
        }
    }
}

/// The selection one step up: the entry before, the first entry from the
/// first or from no selection.
pub open spec fn moved_up(selected: Option<usize>) -> usize {
    match selected {
        Some(index) => if index > 0 {
            (index - 1) as usize
        } else {
            0
        },
        None => 0,
    }
}

/// The selection one step down in a list whose last entry is `last`: the
/// entry after, the last entry from the last or beyond, the first entry
/// from no selection.
pub open spec fn moved_down(selected: Option<usize>, last: usize) -> usize {
    match selected {
        Some(index) => if index < last {
            (index + 1) as usize
        } else {
            last
        },
        None => 0,
    }
}

/// The view that follows a view when the operator switches views.
pub open spec fn next_stream(stream: BusType) -> BusType {
    match stream {
        BusType::Session => BusType::System,
        BusType::System => BusType::Both,
        BusType::Both => BusType::Session,
    }
}

/// The command that replies to a record seen in a view.
pub open spec fn reply_command(stream: BusType, record: ItemView) -> Seq<char> {
    "dbus-send "@ + (if stream == BusType::System {
        "--system"@
    } else {
        "--session"@
    }) + " --dest="@ + record.sender + " "@ + record.path + " <interface>.<member>"@
}

/// The text of a line of the detail view: the texts of its spans, one after
/// the other.
pub open spec fn line_text(line: DetailLineView) -> Seq<char>
    decreases line.spans.len(),
{
    if line.spans.len() == 0 {
        Seq::empty()
    } else {
        line_text(DetailLineView { spans: line.spans.drop_last(), style: line.style })
            + line.spans.last().text
    }
}

/// The text of the detail view: its lines, a line feed between each two.
pub open spec fn detail_plain_text(lines: Seq<DetailLineView>) -> Seq<char> {
    joined(lines.map_values(|line: DetailLineView| line_text(line)), "\n"@)
}

/// The position of the first occurrence of `c`, or the length where there is
/// none.
pub open spec fn index_of(text: Seq<char>, c: char) -> int
    decreases text.len(),
{
    if text.len() == 0 {
        0
    } else if text[0] == c {
        0
    } else {
        1 + index_of(text.drop_first(), c)
    }
}

/// The field that an entry of the field selection stands for.
pub open spec fn filter_field_at(index: nat) -> Option<Seq<char>> {
    if index == 0 {
        Some("sender"@)
    } else if index == 1 {
        Some("member"@)
    } else if index == 2 {
        Some("path"@)
    } else if index == 3 {
        Some("serial"@)
    } else if index == 4 {
        Some("reply_serial"@)
    } else {
        None
    }
}

impl AppView {
    /// The state with another selection in the list of records.
    pub open spec fn select(self, selected: Option<usize>) -> AppView {
        AppView {
            list_state: ListState { selected, offset: self.list_state.offset },
            ..self
        }
    }

    /// The state with another selection in the list of grouping dimensions.
    pub open spec fn select_grouping(self, selected: Option<usize>) -> AppView {
        AppView {
            grouping_selection_state: ListState {
                selected,
                offset: self.grouping_selection_state.offset,
            },
            ..self
        }
    }

    /// The state with another selection in the list of filter fields.
    pub open spec fn select_field(self, selected: Option<usize>) -> AppView {
        AppView {
            autofilter_selection_state: ListState {
                selected,
                offset: self.autofilter_selection_state.offset,
            },
            ..self
        }
    }

    /// The state after the filter input was confirmed. An empty input drops
    /// every filter. An input with an equals sign is a field filter: the
    /// text before the first equals sign names the field and the text after
    /// it is required of that field, or, where it is empty, no longer
    /// anything is; the input is emptied. Any other input stays as the
    /// free-text filter and drops the field filters.
    pub open spec fn filter_confirmed(self) -> AppView {
        let split = index_of(self.input, '=');
        if self.input.len() == 0 {
            AppView { filter_criteria: Seq::empty(), mode: Mode::Normal, ..self }
        } else if split < self.input.len() {
            let field = self.input.take(split);
            let wanted = self.input.skip(split + 1);
            AppView {
                filter_criteria: if wanted.len() == 0 {
                    without_entry(self.filter_criteria, field)
                } else {
                    with_entry(self.filter_criteria, field, wanted)
                },
                input: Seq::empty(),
                mode: Mode::Normal,
                ..self
            }
        } else {
            AppView { filter_criteria: Seq::empty(), mode: Mode::Normal, ..self }
        }
    }

    /// The state after a key in normal mode, and the action to perform. Any
    /// key clears the status line first.
    pub open spec fn normal_step(self, key: Key) -> (AppView, ActionView) {
        let state = AppView { status_message: Seq::empty(), ..self };
        match key {
            Key::Char(c) => {
                if c == 'q' {
                    if state.show_details {
                        (AppView { show_details: false, ..state }, ActionView::Idle)
                    } else {
                        (state, ActionView::Quit)
                    }
                } else if c == 'T' {
                    (
                        AppView { use_relative_time: !state.use_relative_time, ..state },
                        ActionView::Idle,
                    )
                } else if c == 't' {
                    match state.selected_item() {
                        Some(record) => (
                            AppView {
                                conversation_serial: Some(record.serial),
                                mode: Mode::ConversationView,
                                ..state
                            },
                            ActionView::Idle,
                        ),
                        None => (state, ActionView::Idle),
                    }
                } else if c == 'x' {
                    (
                        AppView {
                            session: Seq::empty(),
                            system: Seq::empty(),
                            items: Seq::empty(),
                            status_message: "Message lists cleared."@,
                            ..state.select(None)
                        },
                        ActionView::Idle,
                    )
                } else if c == 'g' {
                    (
                        AppView {
                            mode: Mode::GroupingSelection,
                            ..state.select_grouping(
                                if state.grouping_selection_state.selected is None {
                                    Some(0)
                                } else {
                                    state.grouping_selection_state.selected
                                },
                            )
                        },
                        ActionView::Idle,
                    )
                } else if c == 'f' {
                    (AppView { mode: Mode::Filtering, ..state }, ActionView::Idle)
                } else if c == 'F' {
                    (
                        AppView {
                            follow: !state.follow,
                            status_message: if state.follow {
                                "Follow mode disabled."@
                            } else {
                                "Follow mode enabled."@
                            },
                            ..state
                        },
                        ActionView::Idle,
                    )
                } else if c == 's' || c == ' ' {
                    if state.show_details {
                        (AppView { show_details: false, ..state }, ActionView::Idle)
                    } else {
                        (AppView { show_details: true, ..state }, ActionView::UpdateDetail)
                    }
                } else if c == 'r' {
                    match state.selected_item() {
                        Some(record) => (
                            state,
                            ActionView::CopyReply { command: reply_command(state.stream, record) },
                        ),
                        None => (state, ActionView::Idle),
                    }
                } else if c == 'c' {
                    if state.show_details {
                        (
                            state,
                            ActionView::ExportDetail { text: detail_plain_text(state.detail_text) },
                        )
                    } else {
                        (state, ActionView::Idle)
                    }
                } else if c == 'j' {
                    if state.show_details {
                        (AppView { detail_scroll_request: Some(1i32), ..state }, ActionView::Idle)
                    } else {
                        (state, ActionView::Idle)
                    }
                } else if c == 'k' {
                    if state.show_details {
                        (AppView { detail_scroll_request: Some(-1i32), ..state }, ActionView::Idle)
                    } else {
                        (state, ActionView::Idle)
                    }
                } else {
                    (state, ActionView::Idle)
                }
            },
            Key::Tab => (
                AppView { stream: next_stream(state.stream), ..state.select(None) },
                ActionView::Idle,
            ),
            Key::Up => {
                if state.items.len() > 0 {
                    (
                        AppView {
                            follow: false,
                            ..state.select(Some(moved_up(state.list_state.selected)))
                        },
                        if state.show_details {
                            ActionView::UpdateDetail
                        } else {
                            ActionView::Idle
                        },
                    )
                } else {
                    (state, ActionView::Idle)
                }
            },
            Key::Down => {
                if state.items.len() > 0 {
                    (
                        AppView {
                            follow: false,
                            ..state.select(
                                Some(
                                    moved_down(
                                        state.list_state.selected,
                                        (state.items.len() - 1) as usize,
                                    ),
                                ),
                            )
                        },
                        if state.show_details {
                            ActionView::UpdateDetail
                        } else {
                            ActionView::Idle
                        },
                    )
                } else {
                    (state, ActionView::Idle)
                }
            },
            Key::Esc => (AppView { show_details: false, ..state }, ActionView::Idle),
            Key::PageDown => {
                if state.show_details {
                    (
                        AppView { follow: false, detail_scroll_request: Some(10i32), ..state },
                        ActionView::Idle,
                    )
                } else {
                    (state, ActionView::Idle)
                }
            },
            Key::PageUp => {
                if state.show_details {
                    (
                        AppView { follow: false, detail_scroll_request: Some(-10i32), ..state },
                        ActionView::Idle,
                    )
                } else {
                    (state, ActionView::Idle)
                }
            },
            _ => (state, ActionView::Idle),
        }
    }

    /// The state after a key while a filter is entered, and the action to
    /// perform.
    pub open spec fn filtering_step(self, key: Key) -> (AppView, ActionView) {
        match key {
            Key::Enter => (self.filter_confirmed(), ActionView::Idle),
            Key::Tab => {
                if self.list_state.selected is Some {
                    (
                        AppView { mode: Mode::AutoFilterSelection, ..self.select_field(Some(0)) },
                        ActionView::Idle,
                    )
                } else {
                    (self, ActionView::Idle)
                }
            },
            Key::Esc => (
                AppView {
                    input: Seq::empty(),
                    filter_criteria: Seq::empty(),
                    mode: Mode::Normal,
                    ..self
                },
                ActionView::Idle,
            ),
            _ => (self, ActionView::EditInput),
        }
    }

    /// The state after a key while grouping dimensions are chosen.
    pub open spec fn grouping_step(self, key: Key) -> AppView {
        match key {
            Key::Up => self.select_grouping(Some(moved_up(self.grouping_selection_state.selected))),
            Key::Down => self.select_grouping(
                Some(moved_down(self.grouping_selection_state.selected, 4)),
            ),
            Key::Char(c) => {
                if c == ' ' {
                    match self.grouping_selection_state.selected {
                        Some(index) => match option_at(index as nat) {
                            Some(choice) => AppView {
                                grouping_keys: toggled(self.grouping_keys, choice),
                                ..self
                            },
                            None => self,
                        },
                        None => self,
                    }
                } else if c == 'g' {
                    AppView { mode: Mode::Normal, ..self }
                } else {
                    self
                }
            },
            Key::Esc => AppView { mode: Mode::Normal, ..self },
            _ => self,
        }
    }

    /// The filter input that stands for the chosen field of the selected
    /// record, where both are chosen.
    pub open spec fn field_filter(self) -> Option<Seq<char>> {
        match self.autofilter_selection_state.selected {
            Some(option) => match (filter_field_at(option as nat), self.selected_item()) {
                (Some(field), Some(record)) => match display_value(record, field) {
                    Some(shown) => Some(field + "="@ + shown),
                    None => None,
                },
                _ => None,
            },
            None => None,
        }
    }

    /// The state after a key while the field to filter by is chosen.
    pub open spec fn autofilter_step(self, key: Key) -> AppView {
        match key {
            Key::Up => self.select_field(Some(moved_up(self.autofilter_selection_state.selected))),
            Key::Down => self.select_field(
                Some(moved_down(self.autofilter_selection_state.selected, 4)),
            ),
            Key::Enter => AppView {
                input: match self.field_filter() {
                    Some(input) => input,
                    None => self.input,
                },
                mode: Mode::Filtering,
                ..self.select_field(None)
            },
            Key::Esc => AppView { mode: Mode::Filtering, ..self.select_field(None) },
            _ => self,
        }
    }

    /// The state after a key while a conversation is viewed.
    pub open spec fn conversation_step(self, key: Key) -> AppView {
        match key {
            Key::Esc => AppView { conversation_serial: None, mode: Mode::Normal, ..self },
            _ => self,
        }
    }

    /// The state after a key, and the action to perform.
    pub open spec fn step(self, key: Key) -> (AppView, ActionView) {
        match self.mode {
            Mode::Normal => self.normal_step(key),
            Mode::Filtering => self.filtering_step(key),
            Mode::GroupingSelection => (self.grouping_step(key), ActionView::Idle),
            Mode::AutoFilterSelection => (self.autofilter_step(key), ActionView::Idle),
            Mode::ConversationView => (self.conversation_step(key), ActionView::Idle),
        }
    }

    /// The state after the detail view was updated for the selected record;
    /// the state as it is where no record is selected.
    pub open spec fn detail_updated(self, body: BodyView) -> AppView {
        match self.selected_item() {
            Some(record) => AppView {
                detail_text: detail_of(record, body),
                detail_scroll: 0,
                ..self
            },
            None => self,
        }
    }
}

fn move_up(selected: Option<usize>) -> (index: usize)
    ensures
        index == moved_up(selected),
{
    match selected {
        Some(index) => if index > 0 {
            index - 1
        } else {
            0
        },
        None => 0,
    }
}

fn move_down(selected: Option<usize>, last: usize) -> (index: usize)
    ensures
        index == moved_down(selected, last),
{
    match selected {
        Some(index) => if index < last {
            index + 1
        } else {
            last
        },
        None => 0,
    }
}

/// The command that replies to a record seen in a view.
pub fn reply_command_for(stream: BusType, item: &Item) -> (command: String)
    ensures
        command@ == reply_command(stream, item@),
{
    let mut command = String::new();
    command.append("dbus-send ");
    match stream {
        BusType::System => command.append("--system"),
        _ => command.append("--session"),
    }
    command.append(" --dest=");
    command.append(item.sender.as_str());
    command.append(" ");
    command.append(item.path.as_str());
    command.append(" <interface>.<member>");
    assert(command@ =~= reply_command(stream, item@));
    command
}

fn text_of_line(line: &DetailLine) -> (text: String)
    ensures
        text@ == line_text(line@),
{
    let mut text = String::new();
    let mut i: usize = 0;
    let ghost spans = line@.spans;
    assert(spans.len() == line.spans.len());
    assert(spans.take(0) =~= Seq::empty());
    while i < line.spans.len()
        invariant
            i <= line.spans.len(),
            spans == line@.spans,
            spans.len() == line.spans.len(),
            text@ == line_text(DetailLineView { spans: spans.take(i as int), style: line.style }),
        decreases line.spans.len() - i,
    {
        text.append(line.spans[i].text.as_str());
        i += 1;
        proof {
            let now = spans.take(i as int);
            assert(now.drop_last() =~= spans.take(i - 1));
            assert(now.last() == line.spans@[i - 1]@);
        }
    }
    assert(spans.take(line.spans.len() as int) =~= spans);
    text
}

/// The text of the detail view: its lines, a line feed between each two.
pub fn detail_text_of(lines: &Vec<DetailLine>) -> (text: String)
    ensures
        text@ == detail_plain_text(lines.deep_view()),
{
    let mut texts: Vec<String> = Vec::new();
    let mut i: usize = 0;
    while i < lines.len()
        invariant
            i <= lines.len(),
            texts.len() == i,
            forall|k: int| 0 <= k < i ==> texts@[k]@ == line_text(lines@[k]@),
        decreases lines.len() - i,
    {
        texts.push(text_of_line(&lines[i]));
        i += 1;
    }
    assert(texts.deep_view() =~= lines.deep_view().map_values(
        |line: DetailLineView| line_text(line),
    ));
    join(&texts, "\n")
}

fn text_between(chars: &Vec<char>, from: usize, to: usize) -> (text: String)
    requires
        from <= to <= chars.len(),
    ensures
        text@ == chars@.subrange(from as int, to as int),
{
    let mut text = String::new();
    let mut i: usize = from;
    while i < to
        invariant
            from <= i <= to <= chars.len(),
            text@ == chars@.subrange(from as int, i as int),
        decreases to - i,
    {
        text.push(chars[i]);
        i += 1;
        assert(chars@.subrange(from as int, i as int) =~= chars@.subrange(
            from as int,
            i - 1,
        ).push(chars@[i - 1]));
    }
    text
}

fn find_char(chars: &Vec<char>, c: char) -> (at: usize)
    ensures
        at == index_of(chars@, c),
        at <= chars.len(),
{
    let mut at: usize = 0;
    assert(chars@.skip(0) =~= chars@);
    while at < chars.len()
        invariant
            at <= chars.len(),
            index_of(chars@, c) == at + index_of(chars@.skip(at as int), c),
        decreases chars.len() - at,
    {
        assert(chars@.skip(at as int)[0] == chars@[at as int]);
        if chars[at] == c {
            return at;
        }
        assert(chars@.skip(at as int).drop_first() =~= chars@.skip(at + 1));
        at += 1;
    }
    at
}

/// The name of the field that an entry of the field selection stands for.
pub fn filter_field(index: usize) -> (field: Option<&'static str>)
    ensures
        field is Some == filter_field_at(index as nat) is Some,
        field matches Some(name) ==> filter_field_at(index as nat) == Some(name@),
{
    if index == 0 {
        Some("sender")
    } else if index == 1 {
        Some("member")
    } else if index == 2 {
        Some("path")
    } else if index == 3 {
        Some("serial")
    } else if index == 4 {
        Some("reply_serial")
    } else {
        None
    }
}

/// The value of a record's field as the filter sees it.
pub fn field_value(item: &Item, field: &str) -> (value: Option<String>)
    ensures
        value is Some == display_value(item@, field@) is Some,
        value matches Some(shown) ==> display_value(item@, field@) == Some(shown@),
{
    if same_text(field, "sender") {
        Some(item.sender_display())
    } else if same_text(field, "member") {
        Some(item.member.clone())
    } else if same_text(field, "path") {
        Some(item.path.clone())
    } else if same_text(field, "serial") {
        Some(item.serial.clone())
    } else if same_text(field, "reply_serial") {
        Some(item.reply_serial.clone())
    } else {
        None
    }
}

impl App {
    /// Confirms the filter input.
    pub fn confirm_filter(&mut self)
        ensures
            final(self)@ == old(self)@.filter_confirmed(),
    {
        let chars = chars_of(self.input.as_str());
        let split = find_char(&chars, '=');
        if chars.len() == 0 {
            self.filter_criteria.clear();
        } else if split < chars.len() {
            let field = text_between(&chars, 0, split);
            let wanted = text_between(&chars, split + 1, chars.len());
            assert(field@ =~= self@.input.take(split as int));
            assert(wanted@ =~= self@.input.skip(split + 1));
            if wanted.as_str().is_empty() {
                self.filter_criteria.remove(field.as_str());
            } else {
                self.filter_criteria.insert(field, wanted);
            }
            self.input = String::new();
        } else {
            self.filter_criteria.clear();
        }
        self.mode = Mode::Normal;
    }

    /// The filter input that stands for the chosen field of the selected
    /// record.
    pub fn chosen_field_filter(&self) -> (input: Option<String>)
        ensures
            input is Some == self@.field_filter() is Some,
            input matches Some(text) ==> self@.field_filter() == Some(text@),
    {
        let option = match self.autofilter_selection_state.selected {
            Some(option) => option,
            None => {
                return None;
            },
        };
        let field = match filter_field(option) {
            Some(field) => field,
            None => {
                return None;
            },
        };
        let item = match self.selected_item() {
            Some(item) => item,
            None => {
                return None;
            },
        };
        match field_value(item, field) {
            Some(shown) => {
                let mut input = String::from_str(field);
                input.append("=");
                input.append(shown.as_str());
                Some(input)
            },
            None => None,
        }
    }

    /// Updates the detail view for the selected record, whose payload is
    /// known as `body`; does nothing where no record is selected.
    pub fn update_detail_text(&mut self, body: &Body)
        ensures
            final(self)@ == old(self)@.detail_updated(body@),
    {
        let lines = match self.selected_item() {
            Some(item) => detail_lines(item, body),
            None => {
                return ;
            },
        };
        self.detail_text = lines;
        self.detail_scroll = 0;
    }

    fn normal_key(&mut self, key: Key) -> (action: Action)
        ensures
            (final(self)@, action@) == old(self)@.normal_step(key),
    {
        self.status_message = String::new();
        match key {
            Key::Char(c) => {
                if c == 'q' {
                    if self.show_details {
                        self.show_details = false;
                        Action::Idle
                    } else {
                        Action::Quit
                    }
                } else if c == 'T' {
                    self.use_relative_time = !self.use_relative_time;
                    Action::Idle
                } else if c == 't' {
                    let serial = match self.selected_item() {
                        Some(item) => Some(item.serial.clone()),
                        None => None,
                    };
                    match serial {
                        Some(serial) => {
                            self.conversation_serial = Some(serial);
                            self.mode = Mode::ConversationView;
                        },
                        None => {},
                    }
                    Action::Idle
                } else if c == 'x' {
                    self.session.clear();
                    self.system.clear();
                    self.filtered_and_sorted_items = Vec::new();
                    self.list_state.selected = None;
                    self.status_message = String::from_str("Message lists cleared.");
                    assert(self@.items =~= Seq::<ItemView>::empty());
                    Action::Idle
                } else if c == 'g' {
                    self.mode = Mode::GroupingSelection;
                    if self.grouping_selection_state.selected.is_none() {
                        self.grouping_selection_state.selected = Some(0);
                    }
                    Action::Idle
                } else if c == 'f' {
                    self.mode = Mode::Filtering;
                    Action::Idle
                } else if c == 'F' {
                    self.follow = !self.follow;
                    if self.follow {
                        self.status_message = String::from_str("Follow mode enabled.");
                    } else {
                        self.status_message = String::from_str("Follow mode disabled.");
                    }
                    Action::Idle
                } else if c == 's' || c == ' ' {
                    if self.show_details {
                        self.show_details = false;
                        Action::Idle
                    } else {
                        self.show_details = true;
                        Action::UpdateDetail
                    }
                } else if c == 'r' {
                    match self.selected_item() {
                        Some(item) => Action::CopyReply {
                            command: reply_command_for(self.stream, item),
                        },
                        None => Action::Idle,
                    }
                } else if c == 'c' {
                    if self.show_details {
                        Action::ExportDetail { text: detail_text_of(&self.detail_text) }
                    } else {
                        Action::Idle
                    }
                } else if c == 'j' {
                    if self.show_details {
                        self.detail_scroll_request = Some(1);
                    }
                    Action::Idle
                } else if c == 'k' {
                    if self.show_details {
                        self.detail_scroll_request = Some(-1);
                    }
                    Action::Idle
                } else {
                    Action::Idle
                }
            },
            Key::Tab => {
                self.stream = match self.stream {
                    BusType::Session => BusType::System,
                    BusType::System => BusType::Both,
                    BusType::Both => BusType::Session,
                };
                self.list_state.selected = None;
                Action::Idle
            },
            Key::Up => {
                if self.filtered_and_sorted_items.len() > 0 {
                    self.follow = false;
                    self.list_state.selected = Some(move_up(self.list_state.selected));
                    if self.show_details {
                        Action::UpdateDetail
                    } else {
                        Action::Idle
                    }
                } else {
                    Action::Idle
                }
            },
            Key::Down => {
                let len: usize = self.filtered_and_sorted_items.len();
                if len > 0 {
                    self.follow = false;
                    self.list_state.selected = Some(move_down(self.list_state.selected, len - 1));
                    if self.show_details {
                        Action::UpdateDetail
                    } else {
                        Action::Idle
                    }
                } else {
                    Action::Idle
                }
            },
            Key::Esc => {
                self.show_details = false;
                Action::Idle
            },
            Key::PageDown => {
                if self.show_details {
                    self.follow = false;
                    self.detail_scroll_request = Some(10);
                }
                Action::Idle
            },
            Key::PageUp => {
                if self.show_details {
                    self.follow = false;
                    self.detail_scroll_request = Some(-10);
                }
                Action::Idle
            },
            _ => Action::Idle,
        }
    }

    fn filtering_key(&mut self, key: Key) -> (action: Action)
        ensures
            (final(self)@, action@) == old(self)@.filtering_step(key),
    {
        match key {
            Key::Enter => {
                self.confirm_filter();
                Action::Idle
            },
            Key::Tab => {
                if self.list_state.selected.is_some() {
                    self.mode = Mode::AutoFilterSelection;
                    self.autofilter_selection_state.selected = Some(0);
                }
                Action::Idle
            },
            Key::Esc => {
                self.input = String::new();
                self.filter_criteria.clear();
                self.mode = Mode::Normal;
                Action::Idle
            },
            _ => Action::EditInput,
        }
    }

    fn grouping_key(&mut self, key: Key)
        ensures
            final(self)@ == old(self)@.grouping_step(key),
    {
        match key {
            Key::Up => {
                self.grouping_selection_state.selected = Some(
                    move_up(self.grouping_selection_state.selected),
                );
            },
            Key::Down => {
                self.grouping_selection_state.selected = Some(
                    move_down(self.grouping_selection_state.selected, 4),
                );
            },
            Key::Char(c) => {
                if c == ' ' {
                    match self.grouping_selection_state.selected {
                        Some(index) => match grouping_option(index) {
                            Some(choice) => toggle_grouping(&mut self.grouping_keys, choice),
                            None => {},
                        },
                        None => {},
                    }
                } else if c == 'g' {
                    self.mode = Mode::Normal;
                }
            },
            Key::Esc => {
                self.mode = Mode::Normal;
            },
            _ => {},
        }
    }

    fn autofilter_key(&mut self, key: Key)
        ensures
            final(self)@ == old(self)@.autofilter_step(key),
    {
        match key {
            Key::Up => {
                self.autofilter_selection_state.selected = Some(
                    move_up(self.autofilter_selection_state.selected),
                );
            },
            Key::Down => {
                self.autofilter_selection_state.selected = Some(
                    move_down(self.autofilter_selection_state.selected, 4),
                );
            },
            Key::Enter => {
                match self.chosen_field_filter() {
                    Some(input) => {
                        self.input = input;
                    },
                    None => {},
                }
                self.autofilter_selection_state.selected = None;
                self.mode = Mode::Filtering;
            },
            Key::Esc => {
                self.autofilter_selection_state.selected = None;
                self.mode = Mode::Filtering;
            },
            _ => {},
        }
    }

    fn conversation_key(&mut self, key: Key)
        ensures
            final(self)@ == old(self)@.conversation_step(key),
    {
        match key {
            Key::Esc => {
                self.conversation_serial = None;
                self.mode = Mode::Normal;
            },
            _ => {},
        }
    }
}

/// Handles one key: changes the state as the mode and the key ask, and says
/// what the presentation layer has to do.
pub fn handle_event(app: &mut App, key: Key) -> (action: Action)
    ensures
        (final(app)@, action@) == old(app)@.step(key),
{
    match app.mode {
        Mode::Normal => app.normal_key(key),
        Mode::Filtering => app.filtering_key(key),
        Mode::GroupingSelection => {
            app.grouping_key(key);
            Action::Idle
        },
        Mode::AutoFilterSelection => {
            app.autofilter_key(key);
            Action::Idle
        },
        Mode::ConversationView => {
            app.conversation_key(key);
            Action::Idle
        },
    }
}

} // verus!
