//! The detail view of one record: a header that sums up the record, and the
//! formatted payload below it.

use crate::bus::{BusType, Item, ItemView};
use crate::format::{format_value, rendered, LineStyle, LineView, StyledLine};
use crate::text::{join, joined};
use crate::value::{Value, ValueView};
use vstd::prelude::*;
use vstd::string::*;

verus! {

/// What a piece of the header stands for; the presentation layer gives each
/// its colour.
#[derive(Clone, Copy, Debug, PartialEq, Eq, Structural)]
pub enum Tone {
    Plain,
    Sender,
    /// The serial of a message seen on the session bus.
    SessionSerial,
    /// The serial of a message seen on the system bus.
    SystemSerial,
    /// The serial of a message of no single bus.
    OtherSerial,
    Member,
    Path,
}

/// A run of text of one tone.
#[derive(Debug, PartialEq, Eq)]
pub struct Span {
    pub text: String,
    pub tone: Tone,
}

/// One line of the detail view.
#[derive(Debug, PartialEq, Eq)]
pub struct DetailLine {
    pub spans: Vec<Span>,
    pub style: LineStyle,
}

/// What a span is in contracts.
pub ghost struct SpanView {
    pub text: Seq<char>,
    pub tone: Tone,
}

/// What a line of the detail view is in contracts.
pub ghost struct DetailLineView {
    pub spans: Seq<SpanView>,
    pub style: LineStyle,
}

impl View for Span {
    type V = SpanView;

    open spec fn view(&self) -> SpanView {
        SpanView { text: self.text@, tone: self.tone }
    }
}

impl DeepView for Span {
    type V = SpanView;

    open spec fn deep_view(&self) -> SpanView {
        self@
    }
}

impl View for DetailLine {
    type V = DetailLineView;

    open spec fn view(&self) -> DetailLineView {
        DetailLineView { spans: self.spans.deep_view(), style: self.style }
    }
}

impl DeepView for DetailLine {
    type V = DetailLineView;

    open spec fn deep_view(&self) -> DetailLineView {
        self@
    }
}

/// What is known of a record's payload when its detail is shown.
#[derive(Debug, PartialEq, Eq)]
pub enum Body {
    /// The record carries no message.
    Absent,
    /// The message has no body: its signature is empty.
    Empty,
    /// The body, decoded.
    Decoded(Value),
    /// The body could not be decoded.
    Undecodable { signature: String, error: String },
}

/// What is known of a payload, in contracts.
pub ghost enum BodyView {
    Absent,
    Empty,
    Decoded(ValueView),
    Undecodable { signature: Seq<char>, error: Seq<char> },
}

impl View for Body {
    type V = BodyView;

    open spec fn view(&self) -> BodyView {
        match self {
            Body::Absent => BodyView::Absent,
            Body::Empty => BodyView::Empty,
            Body::Decoded(value) => BodyView::Decoded(value@),
            Body::Undecodable { signature, error } => BodyView::Undecodable {
                signature: signature@,
                error: error@,
            },
        }
    }
}

/// A span.
pub open spec fn span(text: Seq<char>, tone: Tone) -> SpanView {
    SpanView { text, tone }
}

/// A line of one plain span.
pub open spec fn plain_line(text: Seq<char>) -> DetailLineView {
    DetailLineView { spans: seq![span(text, Tone::Plain)], style: LineStyle::Plain }
}

/// A line of a plain label and a toned value.
pub open spec fn labelled_line(label: Seq<char>, text: Seq<char>, tone: Tone) -> DetailLineView {
    DetailLineView {
        spans: seq![span(label, Tone::Plain), span(text, tone)],
        style: LineStyle::Plain,
    }
}

/// The tone of a serial by the bus on which the message was seen.
pub open spec fn serial_tone(bus: BusType) -> Tone {
    match bus {
        BusType::Session => Tone::SessionSerial,
        BusType::System => Tone::SystemSerial,
        BusType::Both => Tone::OtherSerial,
    }
}

/// The first line of the header: sender, receiver if there is one, serial,
/// reply serial if the record is a reply, member and path.
pub open spec fn summary_line(record: ItemView) -> DetailLineView {
    DetailLineView {
        spans: seq![
            span(record.sender_display(), Tone::Sender),
            span(
                if record.receiver.len() == 0 {
                    Seq::empty()
                } else {
                    " -> "@ + record.receiver_display()
                },
                Tone::Plain,
            ),
            span("|"@, Tone::Plain),
            span(record.serial, serial_tone(record.stream_type)),
            span(
                if record.is_reply && record.reply_serial.len() > 0 {
                    "->"@ + record.reply_serial
                } else {
                    Seq::empty()
                },
                Tone::Plain,
            ),
            span("|"@, Tone::Plain),
            span(record.member, Tone::Member),
            span(":"@, Tone::Plain),
            span(record.path, Tone::Path),
        ],
        style: LineStyle::Plain,
    }
}

/// A line that is there only where `present` holds.
pub open spec fn optional_line(present: bool, line: DetailLineView) -> Seq<DetailLineView> {
    if present {
        seq![line]
    } else {
        Seq::empty()
    }
}

/// The header of a record's detail: the summary, a blank line, what is known
/// of the two processes, and a blank line.
pub open spec fn header_of(record: ItemView) -> Seq<DetailLineView> {
    seq![summary_line(record), plain_line(Seq::empty())] + optional_line(
        record.app_path.len() > 0,
        labelled_line("Sender Path: "@, record.app_path, Tone::Path),
    ) + optional_line(
        record.app_args.len() > 0,
        labelled_line("Sender Args: "@, joined(record.app_args, " "@), Tone::Member),
    ) + optional_line(
        record.receiver_app_path.len() > 0,
        labelled_line("Receiver Path: "@, record.receiver_app_path, Tone::Path),
    ) + optional_line(
        record.receiver_app_args.len() > 0,
        labelled_line("Receiver Args: "@, joined(record.receiver_app_args, " "@), Tone::Member),
    ) + seq![plain_line(Seq::empty())]
}

/// A formatted line as a line of the detail view.
pub open spec fn body_line(line: LineView) -> DetailLineView {
    DetailLineView { spans: seq![span(line.text, Tone::Plain)], style: line.style }
}

/// The text shown in place of a payload that could not be decoded.
pub open spec fn failure_text(signature: Seq<char>, error: Seq<char>) -> Seq<char> {
    "failed to decode, signature="@ + signature + ", error="@ + error
}

/// The lines that stand for the payload: a note where there is none, the
/// formatted value where it was decoded, the failure where it was not.
pub open spec fn body_of(body: BodyView) -> Seq<DetailLineView> {
    match body {
        BodyView::Absent => seq![plain_line("[No message body]"@)],
        BodyView::Empty => seq![plain_line("[No message body]"@)],
        BodyView::Decoded(value) => rendered(value).map_values(|line: LineView| body_line(line)),
        BodyView::Undecodable { signature, error } => seq![
            plain_line(failure_text(signature, error)),
        ],
    }
}

/// The detail of a record: its header, and its payload below.
pub open spec fn detail_of(record: ItemView, body: BodyView) -> Seq<DetailLineView> {
    header_of(record) + body_of(body)
}

fn make_span(text: String, tone: Tone) -> (made: Span)
    ensures
        made@ == span(text@, tone),
{
    Span { text, tone }
}

fn push_plain(lines: &mut Vec<DetailLine>, text: String)
    ensures
        final(lines).deep_view() == old(lines).deep_view().push(plain_line(text@)),
{
    let mut spans: Vec<Span> = Vec::new();
    spans.push(make_span(text, Tone::Plain));
    let line = DetailLine { spans, style: LineStyle::Plain };
    assert(line@.spans =~= seq![span(text@, Tone::Plain)]);
    lines.push(line);
    assert(lines.deep_view() =~= old(lines).deep_view().push(plain_line(text@)));
}

fn push_labelled(
    lines: &mut Vec<DetailLine>,
    present: bool,
    label: &str,
    text: String,
    tone: Tone,
)
    ensures
        final(lines).deep_view() == old(lines).deep_view() + optional_line(
            present,
            labelled_line(label@, text@, tone),
        ),
{
    if present {
        let mut spans: Vec<Span> = Vec::new();
        spans.push(make_span(String::from_str(label), Tone::Plain));
        spans.push(make_span(text, tone));
        let line = DetailLine { spans, style: LineStyle::Plain };
        assert(line@.spans =~= seq![span(label@, Tone::Plain), span(text@, tone)]);
        lines.push(line);
    }
    assert(lines.deep_view() =~= old(lines).deep_view() + optional_line(
        present,
        labelled_line(label@, text@, tone),
    ));
}

fn summary(item: &Item) -> (line: DetailLine)
    ensures
        line@ == summary_line(item@),
{
    let mut receiver = String::new();
    if !item.receiver.as_str().is_empty() {
        receiver.append(" -> ");
        receiver.append(item.receiver_display().as_str());
    }
    let mut reply = String::new();
    if item.is_reply && !item.reply_serial.as_str().is_empty() {
        reply.append("->");
        reply.append(item.reply_serial.as_str());
    }
    let tone = match item.stream_type {
        BusType::Session => Tone::SessionSerial,
        BusType::System => Tone::SystemSerial,
        BusType::Both => Tone::OtherSerial,
    };
    let mut spans: Vec<Span> = Vec::new();
    spans.push(make_span(item.sender_display(), Tone::Sender));
    spans.push(make_span(receiver, Tone::Plain));
    spans.push(make_span(String::from_str("|"), Tone::Plain));
    spans.push(make_span(item.serial.clone(), tone));
    spans.push(make_span(reply, Tone::Plain));
    spans.push(make_span(String::from_str("|"), Tone::Plain));
    spans.push(make_span(item.member.clone(), Tone::Member));
    spans.push(make_span(String::from_str(":"), Tone::Plain));
    spans.push(make_span(item.path.clone(), Tone::Path));
    let line = DetailLine { spans, style: LineStyle::Plain };
    assert(line@.spans =~= summary_line(item@).spans);
    line
}

/// The header of a record's detail.
pub fn detail_header(item: &Item) -> (lines: Vec<DetailLine>)
    ensures
        lines.deep_view() == header_of(item@),
{
    let mut lines: Vec<DetailLine> = Vec::new();
    lines.push(summary(item));
    assert(lines.deep_view() =~= seq![summary_line(item@)]);
    push_plain(&mut lines, String::new());
    push_labelled(
        &mut lines,
        !item.app_path.as_str().is_empty(),
        "Sender Path: ",
        item.app_path.clone(),
        Tone::Path,
    );
    assert(item.app_args.deep_view().len() == item.app_args.len());
    push_labelled(
        &mut lines,
        item.app_args.len() > 0,
        "Sender Args: ",
        join(&item.app_args, " "),
        Tone::Member,
    );
    push_labelled(
        &mut lines,
        !item.receiver_app_path.as_str().is_empty(),
        "Receiver Path: ",
        item.receiver_app_path.clone(),
        Tone::Path,
    );
    assert(item.receiver_app_args.deep_view().len() == item.receiver_app_args.len());
    push_labelled(
        &mut lines,
        item.receiver_app_args.len() > 0,
        "Receiver Args: ",
        join(&item.receiver_app_args, " "),
        Tone::Member,
    );
    push_plain(&mut lines, String::new());
    assert(lines.deep_view() =~= header_of(item@));
    lines
}

/// The lines that stand for the payload.
pub fn detail_body(body: &Body) -> (lines: Vec<DetailLine>)
    ensures
        lines.deep_view() == body_of(body@),
{
    let mut lines: Vec<DetailLine> = Vec::new();
    assert(lines.deep_view() =~= Seq::<DetailLineView>::empty());
    match body {
        Body::Absent => {
            push_plain(&mut lines, String::from_str("[No message body]"));
            assert(lines.deep_view() =~= body_of(body@));
        },
        Body::Empty => {
            push_plain(&mut lines, String::from_str("[No message body]"));
            assert(lines.deep_view() =~= body_of(body@));
        },
        Body::Decoded(value) => {
            let formatted = format_value(value);
            let ghost views = rendered(value@);
            let mut i: usize = 0;
            while i < formatted.len()
                invariant
                    i <= formatted.len(),
                    views == rendered(value@),
                    views == crate::format::line_views(formatted@),
                    lines.len() == i,
                    forall|k: int| 0 <= k < i ==> lines@[k]@ == body_line(views[k]),
                decreases formatted.len() - i,
            {
                let mut spans: Vec<Span> = Vec::new();
                spans.push(make_span(formatted[i].text.clone(), Tone::Plain));
                let line = DetailLine { spans, style: formatted[i].style };
                assert(views[i as int] == formatted@[i as int]@);
                assert(line@.spans =~= body_line(views[i as int]).spans);
                lines.push(line);
                i += 1;
            }
            assert(lines.deep_view() =~= body_of(body@));
        },
        Body::Undecodable { signature, error } => {
            let mut text = String::new();
            text.append("failed to decode, signature=");
            text.append(signature.as_str());
            text.append(", error=");
            text.append(error.as_str());
            push_plain(&mut lines, text);
            assert(lines.deep_view() =~= body_of(body@));
        },
    }
    lines
}

/// The detail of a record: its header, and its payload below.
pub fn detail_lines(item: &Item, body: &Body) -> (lines: Vec<DetailLine>)
    ensures
        lines.deep_view() == detail_of(item@, body@),
{
    let mut lines = detail_header(item);
    let mut rest = detail_body(body);
    let ghost head = lines.deep_view();
    let ghost tail = rest.deep_view();
    lines.append(&mut rest);
    assert(lines.deep_view() =~= head + tail);
    lines
}

/// The offset by which the detail is scrolled, after moving it by `delta`
/// lines where a move is asked for: never negative, and never so far that
/// less than a window of `height` lines is left, where the detail has that
/// many.
pub open spec fn scroll_after(scroll: u16, delta: Option<i32>, lines: u16, height: u16) -> u16 {
    let furthest = if lines > height {
        lines - height
    } else {
        0
    };
    let wanted = match delta {
        Some(delta) => scroll + delta,
        None => scroll as int,
    };
    if wanted < 0 {
        0
    } else if wanted > furthest {
        furthest as u16
    } else {
        wanted as u16
    }
}

/// The offset by which the detail is scrolled after an optional move.
pub fn scroll_detail(scroll: u16, delta: Option<i32>, lines: u16, height: u16) -> (next: u16)
    ensures
        next == scroll_after(scroll, delta, lines, height),
{
    let furthest: u16 = if lines > height {
        lines - height
    } else {
        0
    };
    let wanted: i64 = match delta {
        Some(delta) => scroll as i64 + delta as i64,
        None => scroll as i64,
    };
    if wanted < 0 {
        0
    } else if wanted > furthest as i64 {
        furthest
    } else {
        wanted as u16
    }
}

/// Whether lines are hidden above and below the window, in this order.
pub fn scroll_ends(scroll: u16, lines: u16, height: u16) -> (hidden: (bool, bool))
    ensures
        hidden.0 == (scroll > 0),
        hidden.1 == (scroll + height < lines),
{
    (scroll > 0, (scroll as u32) + (height as u32) < lines as u32)
}

} // verus!
