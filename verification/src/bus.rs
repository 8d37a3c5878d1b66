//! Bus kinds, grouping dimensions, and the record of one observed message.

use crate::text::{clone_texts, decimal, push_decimal, same_text};
use vstd::prelude::*;
use vstd::string::*;

verus! {

/// The bus endpoints an inspector can attach to, and the merged view of all
/// of them.
#[derive(Clone, Copy, Debug, PartialEq, Eq, Hash, Structural)]
pub enum BusType {
    Session,
    System,
    Both,
}

/// A dimension by which records are sorted and clustered. `Ungrouped` stands
/// for "no grouping" and contributes no ordering.
#[derive(Clone, Copy, Debug, PartialEq, Eq, Structural)]
pub enum GroupingType {
    Sender,
    Member,
    Path,
    Serial,
    /// No grouping; shown as `None`.
    Ungrouped,
}

impl Default for GroupingType {
    fn default() -> (grouping: GroupingType)
        ensures
            grouping == GroupingType::Sender,
    {
        GroupingType::Sender
    }
}

/// A text that names no grouping dimension.
#[derive(Clone, Debug, PartialEq, Eq)]
pub struct UnknownGrouping {
    pub name: String,
}

impl UnknownGrouping {
    /// What went wrong, in words.
    pub fn to_string(&self) -> (message: String)
        ensures
            message@ == "Unknown GroupingType: "@ + self.name@,
    {
        let mut message = String::new();
        message.append("Unknown GroupingType: ");
        message.append(self.name.as_str());
        message
    }
}

impl GroupingType {
    /// The name of the dimension.
    pub open spec fn label(self) -> Seq<char> {
        match self {
            GroupingType::Sender => "Sender"@,
            GroupingType::Member => "Member"@,
            GroupingType::Path => "Path"@,
            GroupingType::Serial => "Serial"@,
            GroupingType::Ungrouped => "None"@,
        }
    }

    /// The dimension that a name stands for, if it stands for one.
    pub open spec fn named(name: Seq<char>) -> Option<GroupingType> {
        if name == "Sender"@ {
            Some(GroupingType::Sender)
        } else if name == "Member"@ {
            Some(GroupingType::Member)
        } else if name == "Path"@ {
            Some(GroupingType::Path)
        } else if name == "Serial"@ {
            Some(GroupingType::Serial)
        } else if name == "None"@ {
            Some(GroupingType::Ungrouped)
        } else {
            None
        }
    }

    /// The position of the dimension in the fixed order in which active
    /// dimensions are kept: sender, member, path, serial, and `Ungrouped` last.
    pub open spec fn rank(self) -> nat {
        match self {
            GroupingType::Sender => 0,
            GroupingType::Member => 1,
            GroupingType::Path => 2,
            GroupingType::Serial => 3,
            GroupingType::Ungrouped => 4,
        }
    }

    /// The name of the dimension.
    pub fn to_string(&self) -> (name: String)
        ensures
            name@ == self.label(),
    {
        let mut name = String::new();
        match self {
            GroupingType::Sender => name.append("Sender"),
            GroupingType::Member => name.append("Member"),
            GroupingType::Path => name.append("Path"),
            GroupingType::Serial => name.append("Serial"),
            GroupingType::Ungrouped => name.append("None"),
        }
        name
    }

    /// Reads the name of a dimension. Names are case-sensitive; any other
    /// text is an error that carries the text.
    pub fn from_str(name: &str) -> (parsed: Result<GroupingType, UnknownGrouping>)
        ensures
            match parsed {
                Ok(grouping) => GroupingType::named(name@) == Some(grouping),
                Err(unknown) => GroupingType::named(name@) is None && unknown.name@ == name@,
            },
    {
        if same_text(name, "Sender") {
            Ok(GroupingType::Sender)
        } else if same_text(name, "Member") {
            Ok(GroupingType::Member)
        } else if same_text(name, "Path") {
            Ok(GroupingType::Path)
        } else if same_text(name, "Serial") {
            Ok(GroupingType::Serial)
        } else if same_text(name, "None") {
            Ok(GroupingType::Ungrouped)
        } else {
            Err(UnknownGrouping { name: String::from_str(name) })
        }
    }
}

/// Every dimension is read back from its own name.
pub proof fn lemma_grouping_names_round_trip(grouping: GroupingType)
    ensures
        GroupingType::named(grouping.label()) == Some(grouping),
{
    reveal_strlit("Sender");
    reveal_strlit("Member");
    reveal_strlit("Path");
    reveal_strlit("Serial");
    reveal_strlit("None");
    assert("Sender"@.len() == 6 && "Member"@.len() == 6 && "Path"@.len() == 4 && "Serial"@.len()
        == 6 && "None"@.len() == 4);
    assert("Sender"@[0] == 'S' && "Member"@[0] == 'M' && "Serial"@[0] == 'S' && "Path"@[0] == 'P'
        && "None"@[0] == 'N');
    assert("Sender"@[2] == 'n' && "Serial"@[2] == 'r');
}

/// A message as the transport delivers it. The inspector carries it along
/// with the record, unread, until the payload is shown.
#[verifier::external_type_specification]
#[verifier::external_body]
pub struct ExMessage(zbus::Message);

/// `zbus::Message::clone`: a message is a shared handle, and its clone is
/// another handle to the same message.
#[verifier::external_body]
fn clone_message(message: &zbus::Message) -> (copy: zbus::Message)
    ensures
        copy == *message,
{
    message.clone()
}

/// The header fields of a message that the inspector reads.
#[derive(Clone, Debug, PartialEq, Eq)]
pub struct Header {
    pub sender: Option<String>,
    pub destination: Option<String>,
    pub member: Option<String>,
    pub path: Option<String>,
    pub serial: u32,
    pub reply_serial: Option<u32>,
}

/// `zbus::Message::header` and the accessors of `zbus::message::Header`:
/// copies the sender, destination, member, path, serial number and reply
/// serial of a message into plain values. Nothing is claimed of them.
#[verifier::external_body]
fn read_header(message: &zbus::Message) -> (header: Header) {
    let fields = message.header();
    Header {
        sender: fields.sender().map(ToString::to_string),
        destination: fields.destination().map(ToString::to_string),
        member: fields.member().map(ToString::to_string),
        path: fields.path().map(ToString::to_string),
        serial: fields.primary().serial_num().get(),
        reply_serial: fields.reply_serial().map(std::num::NonZeroU32::get),
    }
}

/// The operating-system process behind a bus endpoint.
#[derive(Clone, Debug, PartialEq, Eq)]
pub struct ProcessIdentity {
    pub pid: u32,
    /// The executable's name: the last component of its path.
    pub name: String,
    /// The executable's path: the first argument, as it is.
    pub path: String,
    /// The full argument vector.
    pub args: Vec<String>,
}

/// What a process identity is in contracts.
pub ghost struct ProcessIdentityView {
    pub pid: u32,
    pub name: Seq<char>,
    pub path: Seq<char>,
    pub args: Seq<Seq<char>>,
}

impl View for ProcessIdentity {
    type V = ProcessIdentityView;

    open spec fn view(&self) -> ProcessIdentityView {
        ProcessIdentityView {
            pid: self.pid,
            name: self.name@,
            path: self.path@,
            args: self.args.deep_view(),
        }
    }
}

impl ProcessIdentity {
    /// A copy of this identity.
    pub fn duplicate(&self) -> (copy: ProcessIdentity)
        ensures
            copy@ == self@,
    {
        ProcessIdentity {
            pid: self.pid,
            name: self.name.clone(),
            path: self.path.clone(),
            args: clone_texts(&self.args),
        }
    }
}

/// The record of one observed message.
#[derive(Clone, Debug)]
pub struct Item {
    /// The capture instant, in nanoseconds since the Unix epoch.
    pub timestamp: u64,
    pub sender: String,
    pub receiver: String,
    pub member: String,
    pub path: String,
    pub message: Option<zbus::Message>,
    pub serial: String,
    pub reply_serial: String,
    pub is_reply: bool,
    pub stream_type: BusType,
    pub pid: Option<u32>,
    pub app_name: String,
    pub app_path: String,
    pub app_args: Vec<String>,
    pub receiver_pid: Option<u32>,
    pub receiver_app_name: String,
    pub receiver_app_path: String,
    pub receiver_app_args: Vec<String>,
}

/// What a record is in contracts: its fields, texts as character sequences.
pub ghost struct ItemView {
    pub timestamp: u64,
    pub sender: Seq<char>,
    pub receiver: Seq<char>,
    pub member: Seq<char>,
    pub path: Seq<char>,
    pub message: Option<zbus::Message>,
    pub serial: Seq<char>,
    pub reply_serial: Seq<char>,
    pub is_reply: bool,
    pub stream_type: BusType,
    pub pid: Option<u32>,
    pub app_name: Seq<char>,
    pub app_path: Seq<char>,
    pub app_args: Seq<Seq<char>>,
    pub receiver_pid: Option<u32>,
    pub receiver_app_name: Seq<char>,
    pub receiver_app_path: Seq<char>,
    pub receiver_app_args: Seq<Seq<char>>,
}

impl View for Item {
    type V = ItemView;

    open spec fn view(&self) -> ItemView {
        ItemView {
            timestamp: self.timestamp,
            sender: self.sender@,
            receiver: self.receiver@,
            member: self.member@,
            path: self.path@,
            message: self.message,
            serial: self.serial@,
            reply_serial: self.reply_serial@,
            is_reply: self.is_reply,
            stream_type: self.stream_type,
            pid: self.pid,
            app_name: self.app_name@,
            app_path: self.app_path@,
            app_args: self.app_args.deep_view(),
            receiver_pid: self.receiver_pid,
            receiver_app_name: self.receiver_app_name@,
            receiver_app_path: self.receiver_app_path@,
            receiver_app_args: self.receiver_app_args.deep_view(),
        }
    }
}

impl DeepView for Item {
    type V = ItemView;

    open spec fn deep_view(&self) -> ItemView {
        self@
    }
}

/// The text of an optional header field: empty where the field is absent.
pub open spec fn text_or_empty(field: Option<String>) -> Seq<char> {
    match field {
        Some(text) => text@,
        None => Seq::empty(),
    }
}

impl ItemView {
    /// The record of nothing.
    pub open spec fn blank() -> ItemView {
        ItemView {
            timestamp: 0,
            sender: Seq::empty(),
            receiver: Seq::empty(),
            member: Seq::empty(),
            path: Seq::empty(),
            message: None,
            serial: Seq::empty(),
            reply_serial: Seq::empty(),
            is_reply: false,
            stream_type: BusType::Session,
            pid: None,
            app_name: Seq::empty(),
            app_path: Seq::empty(),
            app_args: Seq::empty(),
            receiver_pid: None,
            receiver_app_name: Seq::empty(),
            receiver_app_path: Seq::empty(),
            receiver_app_args: Seq::empty(),
        }
    }

    /// The record's invariant: it is a reply exactly if it carries a reply
    /// serial.
    pub open spec fn well_formed(self) -> bool {
        self.is_reply == (self.reply_serial.len() > 0)
    }

    /// Whether an endpoint was resolved to a process with a known name.
    pub open spec fn resolved(name: Seq<char>, pid: Option<u32>) -> bool {
        name != "Unknown"@ && pid is Some
    }

    /// The name and process id of a resolved endpoint.
    pub open spec fn friendly(name: Seq<char>, pid: Option<u32>) -> Seq<char> {
        name + ":"@ + decimal(pid.unwrap_or(0) as nat)
    }

    /// How the sender is shown: by executable name and process id where it
    /// was resolved, by its raw endpoint identifier where not.
    pub open spec fn sender_display(self) -> Seq<char> {
        if ItemView::resolved(self.app_name, self.pid) {
            ItemView::friendly(self.app_name, self.pid)
        } else {
            self.sender
        }
    }

    /// How the receiver is shown: empty where the message has none, else as
    /// the sender is.
    pub open spec fn receiver_display(self) -> Seq<char> {
        if self.receiver.len() == 0 {
            Seq::empty()
        } else if ItemView::resolved(self.receiver_app_name, self.receiver_pid) {
            ItemView::friendly(self.receiver_app_name, self.receiver_pid)
        } else {
            self.receiver
        }
    }

    /// The record of a message with the given header, observed on `bus` at
    /// `timestamp`, before any endpoint is resolved.
    pub open spec fn of_header(
        header: Header,
        message: Option<zbus::Message>,
        bus: BusType,
        timestamp: u64,
    ) -> ItemView {
        ItemView {
            timestamp,
            sender: text_or_empty(header.sender),
            receiver: text_or_empty(header.destination),
            member: text_or_empty(header.member),
            path: text_or_empty(header.path),
            message,
            serial: decimal(header.serial as nat),
            reply_serial: match header.reply_serial {
                Some(serial) => decimal(serial as nat),
                None => Seq::empty(),
            },
            is_reply: header.reply_serial is Some,
            stream_type: bus,
            pid: None,
            app_name: "Unknown"@,
            app_path: Seq::empty(),
            app_args: Seq::empty(),
            receiver_pid: None,
            receiver_app_name: "Unknown"@,
            receiver_app_path: Seq::empty(),
            receiver_app_args: Seq::empty(),
        }
    }

    /// This record with its sender resolved to `identity`.
    pub open spec fn with_sender(self, identity: ProcessIdentityView) -> ItemView {
        ItemView {
            pid: Some(identity.pid),
            app_name: identity.name,
            app_path: identity.path,
            app_args: identity.args,
            ..self
        }
    }

    /// This record with its receiver resolved to `identity`.
    pub open spec fn with_receiver(self, identity: ProcessIdentityView) -> ItemView {
        ItemView {
            receiver_pid: Some(identity.pid),
            receiver_app_name: identity.name,
            receiver_app_path: identity.path,
            receiver_app_args: identity.args,
            ..self
        }
    }
}

impl Default for Item {
    /// The record of nothing: every text empty, no process, no message,
    /// captured at the epoch on the session bus.
    fn default() -> (item: Item)
        ensures
            item@ == ItemView::blank(),
            item@.well_formed(),
    {
        let item = Item {
            timestamp: 0,
            sender: String::new(),
            receiver: String::new(),
            member: String::new(),
            path: String::new(),
            message: None,
            serial: String::new(),
            reply_serial: String::new(),
            is_reply: false,
            stream_type: BusType::Session,
            pid: None,
            app_name: String::new(),
            app_path: String::new(),
            app_args: Vec::new(),
            receiver_pid: None,
            receiver_app_name: String::new(),
            receiver_app_path: String::new(),
            receiver_app_args: Vec::new(),
        };
        assert(item@.app_args =~= Seq::<Seq<char>>::empty());
        assert(item@.receiver_app_args =~= Seq::<Seq<char>>::empty());
        item
    }
}

fn owned_or_empty(field: Option<String>) -> (text: String)
    ensures
        text@ == text_or_empty(field),
{
    match field {
        Some(text) => text,
        None => String::new(),
    }
}

fn friendly_name(name: &str, pid: Option<u32>) -> (text: String)
    ensures
        text@ == ItemView::friendly(name@, pid),
{
    let mut text = String::new();
    text.append(name);
    text.append(":");
    let number: u32 = match pid {
        Some(pid) => pid,
        None => 0,
    };
    push_decimal(&mut text, number as u64);
    assert(text@ =~= ItemView::friendly(name@, pid));
    text
}

impl Item {
    /// The record of a message with the given header, before any endpoint is
    /// resolved: both processes are unknown.
    pub fn from_header(
        header: Header,
        message: Option<zbus::Message>,
        bus: BusType,
        timestamp: u64,
    ) -> (item: Item)
        ensures
            item@ == ItemView::of_header(header, message, bus, timestamp),
            item@.well_formed(),
    {
        let mut serial = String::new();
        push_decimal(&mut serial, header.serial as u64);
        let mut reply_serial = String::new();
        let is_reply = header.reply_serial.is_some();
        match header.reply_serial {
            Some(reply) => {
                push_decimal(&mut reply_serial, reply as u64);
                proof {
                    crate::text::lemma_decimal_nonempty(reply as nat);
                }
            },
            None => {},
        }
        let item = Item {
            timestamp,
            sender: owned_or_empty(header.sender),
            receiver: owned_or_empty(header.destination),
            member: owned_or_empty(header.member),
            path: owned_or_empty(header.path),
            message,
            serial,
            reply_serial,
            is_reply,
            stream_type: bus,
            pid: None,
            app_name: String::from_str("Unknown"),
            app_path: String::new(),
            app_args: Vec::new(),
            receiver_pid: None,
            receiver_app_name: String::from_str("Unknown"),
            receiver_app_path: String::new(),
            receiver_app_args: Vec::new(),
        };
        assert(item@.app_args =~= Seq::<Seq<char>>::empty());
        assert(item@.receiver_app_args =~= Seq::<Seq<char>>::empty());
        assert(item@.serial =~= decimal(header.serial as nat));
        assert(item@.reply_serial =~= ItemView::of_header(
            header,
            message,
            bus,
            timestamp,
        ).reply_serial);
        item
    }

    /// The record of a message as delivered, before any endpoint is resolved.
    /// The record keeps the message; its other fields are those of the
    /// message's header.
    pub fn from_message(message: zbus::Message, bus: BusType, timestamp: u64) -> (item: Item)
        ensures
            exists|header: Header|
                item@ == ItemView::of_header(header, Some(message), bus, timestamp),
            item@.well_formed(),
    {
        let header = read_header(&message);
        Item::from_header(header, Some(message), bus, timestamp)
    }

    /// Records the process that the sender was resolved to.
    pub fn set_sender_identity(&mut self, identity: ProcessIdentity)
        ensures
            final(self)@ == old(self)@.with_sender(identity@),
    {
        self.pid = Some(identity.pid);
        self.app_name = identity.name;
        self.app_path = identity.path;
        self.app_args = identity.args;
    }

    /// Records the process that the receiver was resolved to.
    pub fn set_receiver_identity(&mut self, identity: ProcessIdentity)
        ensures
            final(self)@ == old(self)@.with_receiver(identity@),
    {
        self.receiver_pid = Some(identity.pid);
        self.receiver_app_name = identity.name;
        self.receiver_app_path = identity.path;
        self.receiver_app_args = identity.args;
    }

    /// How the sender is shown.
    pub fn sender_display(&self) -> (shown: String)
        ensures
            shown@ == self@.sender_display(),
    {
        if !same_text(self.app_name.as_str(), "Unknown") && self.pid.is_some() {
            friendly_name(self.app_name.as_str(), self.pid)
        } else {
            self.sender.clone()
        }
    }

    /// How the receiver is shown.
    pub fn receiver_display(&self) -> (shown: String)
        ensures
            shown@ == self@.receiver_display(),
    {
        if self.receiver.as_str().is_empty() {
            String::new()
        } else if !same_text(self.receiver_app_name.as_str(), "Unknown")
            && self.receiver_pid.is_some() {
            friendly_name(self.receiver_app_name.as_str(), self.receiver_pid)
        } else {
            self.receiver.clone()
        }
    }

    /// A copy of this record. Both share one message.
    pub fn duplicate(&self) -> (copy: Item)
        ensures
            copy@ == self@,
    {
        let message = match &self.message {
            Some(message) => Some(clone_message(message)),
            None => None,
        };
        Item {
            timestamp: self.timestamp,
            sender: self.sender.clone(),
            receiver: self.receiver.clone(),
            member: self.member.clone(),
            path: self.path.clone(),
            message,
            serial: self.serial.clone(),
            reply_serial: self.reply_serial.clone(),
            is_reply: self.is_reply,
            stream_type: self.stream_type,
            pid: self.pid,
            app_name: self.app_name.clone(),
            app_path: self.app_path.clone(),
            app_args: clone_texts(&self.app_args),
            receiver_pid: self.receiver_pid,
            receiver_app_name: self.receiver_app_name.clone(),
            receiver_app_path: self.receiver_app_path.clone(),
            receiver_app_args: clone_texts(&self.receiver_app_args),
        }
    }
}

} // verus!
