//! The state of the inspector between refresh cycles, and the refresh that
//! runs the query pipeline over it.

use crate::bus::{BusType, GroupingType, Item, ItemView};
use crate::detail::{DetailLine, DetailLineView};
use crate::filter::{admits, conversation, converses, filter_records, FilterCriteria};
use crate::order::{merge_views, merged, sort_records, stably_sorted};
use crate::store::{retained, RetentionStore};
use crate::window::{select_after, selection_after};
use vstd::prelude::*;
use vstd::string::*;

verus! {

/// What the operator is doing.
#[derive(Clone, Copy, Debug, PartialEq, Eq, Structural)]
pub enum Mode {
    /// Browsing the list of records.
    Normal,
    /// Entering a filter.
    Filtering,
    /// Choosing the field of the selected record to filter by.
    AutoFilterSelection,
    /// Viewing one conversation.
    ConversationView,
    /// Choosing grouping dimensions.
    GroupingSelection,
}

/// The selection and scroll offset of a list.
#[derive(Clone, Copy, Debug, PartialEq, Eq, Structural)]
pub struct ListState {
    pub selected: Option<usize>,
    pub offset: usize,
}

impl ListState {
    /// Nothing selected, not scrolled.
    pub fn new() -> (state: ListState)
        ensures
            state == (ListState { selected: None, offset: 0 }),
    {
        ListState { selected: None, offset: 0 }
    }
}

/// The whole state of the inspector.
pub struct App {
    /// The view that is shown: one bus, or both merged.
    pub stream: BusType,
    /// The records retained of the session bus.
    pub session: RetentionStore,
    /// The records retained of the system bus.
    pub system: RetentionStore,
    /// The records that the last refresh left to show, in their order.
    pub filtered_and_sorted_items: Vec<Item>,
    pub list_state: ListState,
    pub show_details: bool,
    pub mode: Mode,
    /// The text of the filter input; outside of field filters it is the
    /// free-text filter.
    pub input: String,
    pub detail_text: Vec<DetailLine>,
    pub detail_scroll: u16,
    pub status_message: String,
    /// The anchor of the conversation that is viewed.
    pub conversation_serial: Option<String>,
    pub detail_scroll_request: Option<i32>,
    pub filter_criteria: FilterCriteria,
    pub grouping_keys: Vec<GroupingType>,
    pub grouping_selection_state: ListState,
    pub autofilter_selection_state: ListState,
    pub min_width: u16,
    pub min_height: u16,
    pub use_relative_time: bool,
    pub enable_lighting_strike: bool,
    /// Whether the selection follows the newest record.
    pub follow: bool,
}

/// What the state is in contracts.
pub ghost struct AppView {
    pub stream: BusType,
    pub session: Seq<ItemView>,
    pub system: Seq<ItemView>,
    pub items: Seq<ItemView>,
    pub list_state: ListState,
    pub show_details: bool,
    pub mode: Mode,
    pub input: Seq<char>,
    pub detail_text: Seq<DetailLineView>,
    pub detail_scroll: u16,
    pub status_message: Seq<char>,
    pub conversation_serial: Option<Seq<char>>,
    pub detail_scroll_request: Option<i32>,
    pub filter_criteria: Seq<(Seq<char>, Seq<char>)>,
    pub grouping_keys: Seq<GroupingType>,
    pub grouping_selection_state: ListState,
    pub autofilter_selection_state: ListState,
    pub min_width: u16,
    pub min_height: u16,
    pub use_relative_time: bool,
    pub enable_lighting_strike: bool,
    pub follow: bool,
}

impl View for App {
    type V = AppView;

    open spec fn view(&self) -> AppView {
        AppView {
            stream: self.stream,
            session: self.session@,
            system: self.system@,
            items: self.filtered_and_sorted_items.deep_view(),
            list_state: self.list_state,
            show_details: self.show_details,
            mode: self.mode,
            input: self.input@,
            detail_text: self.detail_text.deep_view(),
            detail_scroll: self.detail_scroll,
            status_message: self.status_message@,
            conversation_serial: match self.conversation_serial {
                Some(serial) => Some(serial@),
                None => None,
            },
            detail_scroll_request: self.detail_scroll_request,
            filter_criteria: self.filter_criteria@,
            grouping_keys: self.grouping_keys@,
            grouping_selection_state: self.grouping_selection_state,
            autofilter_selection_state: self.autofilter_selection_state,
            min_width: self.min_width,
            min_height: self.min_height,
            use_relative_time: self.use_relative_time,
            enable_lighting_strike: self.enable_lighting_strike,
            follow: self.follow,
        }
    }
}

impl AppView {
    /// The state at the start: the session bus in view, nothing stored,
    /// nothing selected, no filter, no grouping.
    pub open spec fn initial() -> AppView {
        AppView {
            stream: BusType::Session,
            session: Seq::empty(),
            system: Seq::empty(),
            items: Seq::empty(),
            list_state: ListState { selected: None, offset: 0 },
            show_details: false,
            mode: Mode::Normal,
            input: Seq::empty(),
            detail_text: Seq::empty(),
            detail_scroll: 0,
            status_message: Seq::empty(),
            conversation_serial: None,
            detail_scroll_request: None,
            filter_criteria: Seq::empty(),
            grouping_keys: seq![GroupingType::Ungrouped],
            grouping_selection_state: ListState { selected: None, offset: 0 },
            autofilter_selection_state: ListState { selected: None, offset: 0 },
            min_width: 20,
            min_height: 20,
            use_relative_time: false,
            enable_lighting_strike: false,
            follow: false,
        }
    }

    /// The records of the view that is shown: those of one bus as they
    /// stand, or those of both, merged by capture instant.
    pub open spec fn source(self) -> Seq<ItemView> {
        match self.stream {
            BusType::Session => self.session,
            BusType::System => self.system,
            BusType::Both => merged(self.session, self.system),
        }
    }

    /// The records of the view that pass: in conversation mode those of the
    /// conversation, none where there is no anchor; in any other mode those
    /// that pass the field criteria and the free-text filter.
    pub open spec fn kept(self) -> Seq<ItemView> {
        if self.mode == Mode::ConversationView {
            match self.conversation_serial {
                Some(anchor) => self.source().filter(converses(anchor)),
                None => Seq::empty(),
            }
        } else {
            self.source().filter(admits(self.filter_criteria, self.input))
        }
    }

    /// What the pipeline makes of the state: the records of the view that
    /// pass, sorted by the grouping dimensions.
    pub open spec fn visible(self) -> Seq<ItemView> {
        stably_sorted(self.kept(), self.grouping_keys)
    }

    /// The state after `session` and `system` arrived and the stores were
    /// held to `max` records each.
    pub open spec fn stored(
        self,
        session: Seq<ItemView>,
        system: Seq<ItemView>,
        max: nat,
    ) -> AppView {
        AppView {
            session: retained(self.session + session, max),
            system: retained(self.system + system, max),
            ..self
        }
    }

    /// The state after a refresh cycle in which `session` and `system`
    /// arrived.
    pub open spec fn refreshed(
        self,
        session: Seq<ItemView>,
        system: Seq<ItemView>,
        max: nat,
    ) -> AppView {
        let stored = self.stored(session, system, max);
        let items = stored.visible();
        AppView {
            items,
            list_state: ListState {
                selected: selection_after(
                    self.follow,
                    session.len() + system.len() > 0,
                    self.list_state.selected,
                    items.len(),
                ),
                offset: self.list_state.offset,
            },
            ..stored
        }
    }

    /// The record that is selected, if one is.
    pub open spec fn selected_item(self) -> Option<ItemView> {
        match self.list_state.selected {
            Some(index) => if index < self.items.len() {
                Some(self.items[index as int])
            } else {
                None
            },
            None => None,
        }
    }
}

impl Default for App {
    fn default() -> (app: App)
        ensures
            app@ == AppView::initial(),
    {
        App::new()
    }
}

impl App {
    /// The state at the start.
    pub fn new() -> (app: App)
        ensures
            app@ == AppView::initial(),
    {
        let mut grouping_keys: Vec<GroupingType> = Vec::new();
        grouping_keys.push(GroupingType::Ungrouped);
        let app = App {
            stream: BusType::Session,
            session: RetentionStore::new(),
            system: RetentionStore::new(),
            filtered_and_sorted_items: Vec::new(),
            list_state: ListState::new(),
            show_details: false,
            mode: Mode::Normal,
            input: String::new(),
            detail_text: Vec::new(),
            detail_scroll: 0,
            status_message: String::new(),
            conversation_serial: None,
            detail_scroll_request: None,
            filter_criteria: FilterCriteria::new(),
            grouping_keys,
            grouping_selection_state: ListState::new(),
            autofilter_selection_state: ListState::new(),
            min_width: 20,
            min_height: 20,
            use_relative_time: false,
            enable_lighting_strike: false,
            follow: false,
        };
        assert(app@.items =~= Seq::<ItemView>::empty());
        assert(app@.detail_text =~= Seq::<DetailLineView>::empty());
        assert(app@.grouping_keys =~= seq![GroupingType::Ungrouped]);
        app
    }

    /// The record that is selected, if one is.
    pub fn selected_item(&self) -> (item: Option<&Item>)
        ensures
            item is Some == self@.selected_item() is Some,
            item matches Some(found) ==> self@.selected_item() == Some(found@),
    {
        match self.list_state.selected {
            Some(index) => if index < self.filtered_and_sorted_items.len() {
                Some(&self.filtered_and_sorted_items[index])
            } else {
                None
            },
            None => None,
        }
    }

    /// One refresh cycle. The records that arrived since the last cycle are
    /// appended to their stores, each store is held to `max_messages`
    /// records by dropping the oldest, the pipeline selects the view,
    /// filters and sorts, and the selection is brought in line with the
    /// result.
    pub fn refresh(&mut self, session: Vec<Item>, system: Vec<Item>, max_messages: usize)
        ensures
            final(self)@ == old(self)@.refreshed(
                session.deep_view(),
                system.deep_view(),
                max_messages as nat,
            ),
    {
        let arrived = session.len() > 0 || system.len() > 0;
        assert(session.deep_view().len() == session.len());
        assert(system.deep_view().len() == system.len());
        self.session.append_all(session);
        self.session.evict_excess(max_messages);
        self.system.append_all(system);
        self.system.evict_excess(max_messages);
        let kept = match self.stream {
            BusType::Session => self.keep(self.session.records()),
            BusType::System => self.keep(self.system.records()),
            BusType::Both => {
                let both = merge_views(self.session.records(), self.system.records());
                self.keep(&both)
            },
        };
        let items = sort_records(&kept, &self.grouping_keys);
        assert(items.deep_view().len() == items.len());
        self.list_state.selected = select_after(
            self.follow,
            arrived,
            self.list_state.selected,
            items.len(),
        );
        self.filtered_and_sorted_items = items;
    }

    fn keep(&self, source: &Vec<Item>) -> (kept: Vec<Item>)
        ensures
            kept.deep_view() == if self@.mode == Mode::ConversationView {
                match self@.conversation_serial {
                    Some(anchor) => source.deep_view().filter(converses(anchor)),
                    None => Seq::empty(),
                }
            } else {
                source.deep_view().filter(admits(self@.filter_criteria, self@.input))
            },
    {
        match self.mode {
            Mode::ConversationView => match &self.conversation_serial {
                Some(anchor) => conversation(source, anchor.as_str()),
                None => {
                    let kept: Vec<Item> = Vec::new();
                    assert(kept.deep_view() =~= Seq::<ItemView>::empty());
                    kept
                },
            },
            _ => filter_records(source, &self.filter_criteria, self.input.as_str()),
        }
    }
}

} // verus!
