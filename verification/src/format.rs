//! The structured value formatter: one payload value to aligned, styled lines.
//!
//! `rendered` says, as a function of the value alone, which lines stand for
//! it; `format_value` computes exactly those lines.

use crate::text::{
    chars_of, decimal, hexadecimal, joined, push_decimal, push_hex_padded, push_repeated, repeated,
    zero_padded,
};
use crate::value::{entry_views, lemma_entry_views, lemma_views, views, Value, ValueView};
use vstd::prelude::*;
use vstd::string::*;
use vstd::utf8::encode_utf8;

verus! {

/// The background of a line. Lines of one nesting level alternate between
/// `Plain` and `Striped`; the lines that a dictionary or a structure writes
/// itself carry that container's tint instead.
#[derive(Clone, Copy, Debug, PartialEq, Eq, Structural)]
pub enum LineStyle {
    Plain,
    Striped,
    Dictionary,
    Structure,
}

/// One line of formatted output.
#[derive(Debug, PartialEq, Eq)]
pub struct StyledLine {
    pub text: String,
    pub style: LineStyle,
}

/// What a line is in contracts: its characters and its style.
pub ghost struct LineView {
    pub text: Seq<char>,
    pub style: LineStyle,
}

impl View for StyledLine {
    type V = LineView;

    open spec fn view(&self) -> LineView {
        LineView { text: self.text@, style: self.style }
    }
}

/// The views of a sequence of lines.
pub open spec fn line_views(lines: Seq<StyledLine>) -> Seq<LineView> {
    lines.map_values(|line: StyledLine| line@)
}

/// A sequence of one line.
pub open spec fn one_line(text: Seq<char>, style: LineStyle) -> Seq<LineView> {
    seq![LineView { text, style }]
}

/// Two spaces for each nesting level.
pub open spec fn indentation(level: nat) -> Seq<char> {
    repeated(' ', 2 * level)
}

/// The style of a line by the parity of its index among its siblings.
pub open spec fn base_style(striped: bool) -> LineStyle {
    if striped {
        LineStyle::Striped
    } else {
        LineStyle::Plain
    }
}

/// The start of every first line: indentation, prefix, and the label between
/// square brackets, closed by a colon.
pub open spec fn heading(level: nat, prefix: Seq<char>, label: Seq<char>) -> Seq<char> {
    indentation(level) + prefix + " ["@ + label + "]:"@
}

/// Whether `value` is a structure of two fields whose first is a string.
pub open spec fn is_keyed_pair(value: ValueView) -> bool {
    match value {
        ValueView::Structure(fields) => fields.len() == 2 && fields[0] is Str,
        _ => false,
    }
}

/// Whether every element is a keyed pair.
pub open spec fn all_keyed(items: Seq<ValueView>) -> bool {
    forall|i: int| 0 <= i < items.len() ==> is_keyed_pair(#[trigger] items[i])
}

/// Whether every element has the type of the first.
pub open spec fn all_same_kind(items: Seq<ValueView>) -> bool {
    forall|i: int| 0 <= i < items.len() ==> (#[trigger] items[i]).same_kind(items[0])
}

/// The bytes of an array of bytes.
pub open spec fn bytes_of(items: Seq<ValueView>) -> Seq<u8> {
    Seq::new(items.len(), |i: int| items[i]->U8_0)
}

/// The compact texts of the elements.
pub open spec fn element_texts(items: Seq<ValueView>) -> Seq<Seq<char>> {
    Seq::new(items.len(), |i: int| items[i].element_text())
}

/// Each byte as two hexadecimal digits and a space.
pub open spec fn hex_cells(chunk: Seq<u8>) -> Seq<char>
    decreases chunk.len(),
{
    if chunk.len() == 0 {
        Seq::empty()
    } else {
        hex_cells(chunk.drop_last()) + zero_padded(hexadecimal(chunk.last() as nat), 2) + " "@
    }
}

/// Each byte as itself where it is printable ASCII, as a point where not.
pub open spec fn gutter(chunk: Seq<u8>) -> Seq<char> {
    Seq::new(
        chunk.len(),
        |i: int|
            if 0x20 <= chunk[i] <= 0x7e {
                chunk[i] as char
            } else {
                '.'
            },
    )
}

/// The end of the chunk of at most sixteen bytes that begins at `start`.
pub open spec fn chunk_end(len: nat, start: nat) -> nat {
    if start + 16 <= len {
        start + 16
    } else {
        len
    }
}

/// One line of a hex dump: the offset in eight digits, the bytes, blanks in
/// place of the bytes that a short last chunk lacks, and the ASCII gutter.
pub open spec fn hex_line(bytes: Seq<u8>, start: nat, level: nat) -> Seq<char> {
    let chunk = bytes.subrange(start as int, chunk_end(bytes.len(), start) as int);
    indentation(level) + zero_padded(hexadecimal(start), 8) + ": "@ + hex_cells(chunk) + repeated(
        ' ',
        (3 * (16 - chunk.len())) as nat,
    ) + " |"@ + gutter(chunk) + "|"@
}

/// The first `count` lines of the hex dump of `bytes`.
pub open spec fn hex_lines(bytes: Seq<u8>, count: nat, level: nat, style: LineStyle) -> Seq<
    LineView,
>
    decreases count,
{
    if count == 0 {
        Seq::empty()
    } else {
        hex_lines(bytes, (count - 1) as nat, level, style) + one_line(
            hex_line(bytes, ((count - 1) * 16) as nat, level),
            style,
        )
    }
}

/// How many lines the hex dump of `len` bytes takes.
pub open spec fn hex_line_count(len: nat) -> nat {
    (len + 15) / 16
}

/// The width of a dictionary key: the length of its UTF-8 encoding.
pub open spec fn text_width(text: Seq<char>) -> nat {
    encode_utf8(text).len()
}

/// The width of the widest key among the first `count` entries.
pub open spec fn widest_key(entries: Seq<(ValueView, ValueView)>, count: nat) -> nat
    decreases count,
{
    if count == 0 {
        0
    } else {
        let before = widest_key(entries, (count - 1) as nat);
        let this = text_width(entries[count - 1].0.key_text());
        if this > before {
            this
        } else {
            before
        }
    }
}

/// `text` without the spaces it begins with.
pub open spec fn without_leading_spaces(text: Seq<char>) -> Seq<char>
    decreases text.len(),
{
    if text.len() > 0 && text[0] == ' ' {
        without_leading_spaces(text.drop_first())
    } else {
        text
    }
}

/// The lines of one dictionary entry. The key, padded to the width of the
/// widest key, is followed by the first line of the value; the value's other
/// lines are shifted to begin in the column where the first one does. All of
/// them carry the dictionary's style.
pub open spec fn entry_block(
    key: Seq<char>,
    value_lines: Seq<LineView>,
    level: nat,
    width: nat,
    style: LineStyle,
) -> Seq<LineView> {
    let start = indentation(level) + key + repeated(' ', (width - text_width(key)) as nat);
    if value_lines.len() == 0 {
        one_line(start + ":"@, style)
    } else {
        one_line(start + ": "@ + without_leading_spaces(value_lines[0].text), style) + Seq::new(
            (value_lines.len() - 1) as nat,
            |i: int|
                LineView {
                    text: repeated(' ', 2 * level + width + 2) + value_lines[i + 1].text,
                    style,
                },
        )
    }
}

/// The lines that stand for `value` at a nesting level, under a prefix, as a
/// sibling of even (`striped` false) or odd index.
///
/// A boxed value is rendered as its content. A scalar is one line. An empty
/// container is one line. An array of keyed pairs is rendered key by key; an
/// array of bytes as a hex dump; an array of scalars of one other type on one
/// line; any other array element by element under its index. A structure is
/// rendered field by field, a dictionary entry by entry.
pub open spec fn render(value: ValueView, level: nat, prefix: Seq<char>, striped: bool) -> Seq<
    LineView,
>
    decreases value, 0nat,
{
    let plain = base_style(striped);
    match value {
        ValueView::Variant(inner) => render(*inner, level, prefix, striped),
        ValueView::Array(items) => {
            if items.len() == 0 {
                one_line(heading(level, prefix, "array"@) + " []"@, plain)
            } else if all_keyed(items) {
                one_line(heading(level, prefix, "struct[]"@), plain) + keyed_lines(
                    items,
                    items.len(),
                    level,
                    plain,
                )
            } else if !items[0].is_composite() && all_same_kind(items) {
                if items[0] is U8 {
                    one_line(heading(level, prefix, "ay (u8[])"@), plain) + hex_lines(
                        bytes_of(items),
                        hex_line_count(items.len()),
                        level + 1,
                        plain,
                    )
                } else {
                    one_line(
                        heading(level, prefix, items[0].tag() + "[]"@) + " ["@ + joined(
                            element_texts(items),
                            ", "@,
                        ) + "]"@,
                        plain,
                    )
                }
            } else {
                one_line(heading(level, prefix, "array"@), plain) + indexed_lines(
                    items,
                    items.len(),
                    level + 1,
                )
            }
        },
        ValueView::Structure(fields) => {
            if fields.len() == 0 {
                one_line(heading(level, prefix, "struct"@) + " (empty)"@, LineStyle::Structure)
            } else {
                one_line(heading(level, prefix, "struct"@), LineStyle::Structure) + field_lines(
                    fields,
                    fields.len(),
                    level + 1,
                )
            }
        },
        ValueView::Dict(entries) => {
            if entries.len() == 0 {
                one_line(heading(level, prefix, "dict"@) + " {}"@, LineStyle::Dictionary)
            } else {
                one_line(heading(level, prefix, "dict"@), LineStyle::Dictionary) + entry_lines(
                    entries,
                    entries.len(),
                    level + 1,
                    widest_key(entries, entries.len()),
                )
            }
        },
        _ => one_line(heading(level, prefix, value.tag()) + " "@ + value.scalar_text(), plain),
    }
}

/// The lines of the first `count` elements of an array of keyed pairs: for
/// each, a line with the key and a colon, one level below the array, and the
/// lines of the value one level below the key.
pub open spec fn keyed_lines(items: Seq<ValueView>, count: nat, level: nat, style: LineStyle) -> Seq<
    LineView,
>
    decreases items, count,
{
    if count == 0 || count > items.len() {
        Seq::empty()
    } else {
        keyed_lines(items, (count - 1) as nat, level, style) + (match items[count - 1] {
            ValueView::Structure(fields) => if fields.len() == 2 {
                one_line(indentation(level + 1) + fields[0]->Str_0 + ":"@, style) + render(
                    fields[1],
                    level + 2,
                    Seq::empty(),
                    (count - 1) % 2 == 1,
                )
            } else {
                Seq::empty()
            },
            _ => Seq::empty(),
        })
    }
}

/// The lines of the first `count` elements of an array, each under its index.
pub open spec fn indexed_lines(items: Seq<ValueView>, count: nat, level: nat) -> Seq<LineView>
    decreases items, count,
{
    if count == 0 || count > items.len() {
        Seq::empty()
    } else {
        indexed_lines(items, (count - 1) as nat, level) + render(
            items[count - 1],
            level,
            decimal((count - 1) as nat),
            (count - 1) % 2 == 1,
        )
    }
}

/// The lines of the first `count` fields of a structure, labelled `i_1`,
/// `i_2` and so on.
pub open spec fn field_lines(fields: Seq<ValueView>, count: nat, level: nat) -> Seq<LineView>
    decreases fields, count,
{
    if count == 0 || count > fields.len() {
        Seq::empty()
    } else {
        field_lines(fields, (count - 1) as nat, level) + render(
            fields[count - 1],
            level,
            "i_"@ + decimal(count),
            (count - 1) % 2 == 1,
        )
    }
}

/// The lines of the first `count` entries of a dictionary.
pub open spec fn entry_lines(
    entries: Seq<(ValueView, ValueView)>,
    count: nat,
    level: nat,
    width: nat,
) -> Seq<LineView>
    decreases entries, count,
{
    if count == 0 || count > entries.len() {
        Seq::empty()
    } else {
        entry_lines(entries, (count - 1) as nat, level, width) + entry_block(
            entries[count - 1].0.key_text(),
            render(entries[count - 1].1, 0, Seq::empty(), (count - 1) % 2 == 1),
            level,
            width,
            LineStyle::Dictionary,
        )
    }
}

/// The lines that stand for a whole payload. A structure at the root is
/// rendered as its fields, without a line of its own; any other value is
/// rendered under the prefix `value`.
pub open spec fn rendered(value: ValueView) -> Seq<LineView> {
    match value {
        ValueView::Structure(fields) => field_lines(fields, fields.len(), 0),
        _ => render(value, 0, "value"@, false),
    }
}

/// Indentation grows by two spaces with each level.
pub proof fn lemma_indentation_step(level: nat)
    ensures
        indentation(level) + repeated(' ', 2) == indentation(level + 1),
        indentation(0) == Seq::<char>::empty(),
{
    assert(indentation(level) + repeated(' ', 2) =~= indentation(level + 1));
    assert(indentation(0) =~= Seq::<char>::empty());
}

fn push_line(out: &mut Vec<StyledLine>, text: String, style: LineStyle)
    ensures
        line_views(final(out)@) == line_views(old(out)@) + one_line(text@, style),
{
    out.push(StyledLine { text, style });
    assert(line_views(out@) =~= line_views(old(out)@) + one_line(text@, style));
}

fn heading_text(indent: &str, prefix: &str, label: &str) -> (out: String)
    ensures
        out@ == indent@ + prefix@ + " ["@ + label@ + "]:"@,
{
    let mut out = String::new();
    out.append(indent);
    out.append(prefix);
    out.append(" [");
    out.append(label);
    out.append("]:");
    assert(out@ =~= indent@ + prefix@ + " ["@ + label@ + "]:"@);
    out
}

fn deeper(indent: &str, Ghost(level): Ghost<nat>) -> (out: String)
    requires
        indent@ == indentation(level),
    ensures
        out@ == indentation(level + 1),
{
    let mut out = String::new();
    out.append(indent);
    push_repeated(&mut out, ' ', 2);
    proof {
        lemma_indentation_step(level);
        assert(out@ =~= indent@ + repeated(' ', 2));
    }
    out
}

fn keyed_pair(value: &Value) -> (yes: bool)
    ensures
        yes == is_keyed_pair(value@),
{
    match value {
        Value::Structure(fields) => {
            proof {
                lemma_views(fields@);
            }
            fields.len() == 2 && matches!(fields[0], Value::Str(_))
        },
        _ => false,
    }
}

fn every_keyed(items: &Vec<Value>) -> (yes: bool)
    ensures
        yes == all_keyed(views(items@)),
{
    let ghost all = views(items@);
    proof {
        lemma_views(items@);
    }
    let mut i: usize = 0;
    while i < items.len()
        invariant
            i <= items.len(),
            all == views(items@),
            all.len() == items.len(),
            forall|j: int| 0 <= j < items.len() ==> #[trigger] all[j] == items@[j]@,
            forall|j: int| 0 <= j < i ==> is_keyed_pair(#[trigger] all[j]),
        decreases items.len() - i,
    {
        if !keyed_pair(&items[i]) {
            assert(!is_keyed_pair(all[i as int]));
            return false;
        }
        assert(is_keyed_pair(all[i as int]));
        i += 1;
    }
    true
}

fn every_same_kind(items: &Vec<Value>) -> (yes: bool)
    requires
        items.len() > 0,
    ensures
        yes == all_same_kind(views(items@)),
{
    let ghost all = views(items@);
    proof {
        lemma_views(items@);
    }
    let mut i: usize = 0;
    while i < items.len()
        invariant
            i <= items.len(),
            items.len() > 0,
            all == views(items@),
            all.len() == items.len(),
            forall|j: int| 0 <= j < items.len() ==> #[trigger] all[j] == items@[j]@,
            forall|j: int| 0 <= j < i ==> (#[trigger] all[j]).same_kind(all[0]),
        decreases items.len() - i,
    {
        if !items[0].has_kind_of(&items[i]) {
            assert(!all[i as int].same_kind(all[0]));
            return false;
        }
        assert(all[i as int].same_kind(all[0]));
        i += 1;
    }
    true
}

fn byte_at(items: &Vec<Value>, i: usize) -> (b: u8)
    requires
        i < items.len(),
        views(items@)[i as int] is U8,
    ensures
        b == bytes_of(views(items@))[i as int],
{
    proof {
        lemma_views(items@);
    }
    match &items[i] {
        Value::U8(b) => *b,
        _ => 0,
    }
}

fn hex_line_text(items: &Vec<Value>, start: usize, indent: &str, Ghost(level): Ghost<nat>) -> (out:
    String)
    requires
        start < items.len(),
        indent@ == indentation(level),
        forall|j: int| 0 <= j < items.len() ==> (#[trigger] views(items@)[j]) is U8,
    ensures
        out@ == hex_line(bytes_of(views(items@)), start as nat, level),
{
    let end: usize = if items.len() - start >= 16 {
        start + 16
    } else {
        items.len()
    };
    proof {
        lemma_views(items@);
    }
    let ghost bytes = bytes_of(views(items@));
    let ghost chunk = bytes.subrange(start as int, end as int);
    assert(end == chunk_end(bytes.len(), start as nat));
    let mut out = String::new();
    out.append(indent);
    push_hex_padded(&mut out, start as u64, 8);
    out.append(": ");
    let ghost lead = out@;
    let mut i: usize = start;
    assert(chunk.take(0) =~= Seq::<u8>::empty());
    while i < end
        invariant
            start <= i <= end <= items.len(),
            bytes == bytes_of(views(items@)),
            chunk == bytes.subrange(start as int, end as int),
            views(items@).len() == items.len(),
            forall|j: int| 0 <= j < items.len() ==> (#[trigger] views(items@)[j]) is U8,
            out@ == lead + hex_cells(chunk.take(i - start)),
        decreases end - i,
    {
        let b: u8 = byte_at(items, i);
        push_hex_padded(&mut out, b as u64, 2);
        out.append(" ");
        i += 1;
        proof {
            let now = chunk.take(i - start);
            assert(now.drop_last() =~= chunk.take(i - start - 1));
            assert(now.last() == b);
            assert(out@ =~= lead + hex_cells(now));
        }
    }
    assert(chunk.take(end - start) =~= chunk);
    push_repeated(&mut out, ' ', 3 * (16 - (end - start)));
    out.append(" |");
    let ghost walled = out@;
    let mut k: usize = start;
    while k < end
        invariant
            start <= k <= end <= items.len(),
            bytes == bytes_of(views(items@)),
            chunk == bytes.subrange(start as int, end as int),
            views(items@).len() == items.len(),
            forall|j: int| 0 <= j < items.len() ==> (#[trigger] views(items@)[j]) is U8,
            out@ == walled + gutter(chunk).take(k - start),
        decreases end - k,
    {
        let b: u8 = byte_at(items, k);
        if 0x20 <= b && b <= 0x7e {
            out.push(b as char);
        } else {
            out.push('.');
        }
        k += 1;
        assert(gutter(chunk).take(k - start) =~= gutter(chunk).take(k - start - 1).push(
            gutter(chunk)[k - start - 1],
        ));
    }
    assert(gutter(chunk).take(end - start) =~= gutter(chunk));
    out.append("|");
    assert(out@ =~= hex_line(bytes, start as nat, level));
    out
}

fn hex_dump_into(
    items: &Vec<Value>,
    indent: &str,
    Ghost(level): Ghost<nat>,
    style: LineStyle,
    out: &mut Vec<StyledLine>,
)
    requires
        indent@ == indentation(level),
        forall|j: int| 0 <= j < items.len() ==> (#[trigger] views(items@)[j]) is U8,
    ensures
        line_views(final(out)@) == line_views(old(out)@) + hex_lines(
            bytes_of(views(items@)),
            hex_line_count(views(items@).len()),
            level,
            style,
        ),
{
    proof {
        lemma_views(items@);
    }
    let mut start: usize = 0;
    let ghost mut done: nat = 0;
    assert(line_views(out@) =~= line_views(old(out)@) + hex_lines(
        bytes_of(views(items@)),
        0,
        level,
        style,
    ));
    while start < items.len()
        invariant
            indent@ == indentation(level),
            views(items@).len() == items.len(),
            forall|j: int| 0 <= j < items.len() ==> (#[trigger] views(items@)[j]) is U8,
            start == 16 * done || (start == items.len() && done == hex_line_count(
                items@.len(),
            )),
            done <= hex_line_count(views(items@).len()),
            line_views(out@) == line_views(old(out)@) + hex_lines(
                bytes_of(views(items@)),
                done,
                level,
                style,
            ),
        decreases items.len() - start,
    {
        let text = hex_line_text(items, start, indent, Ghost(level));
        let ghost before = line_views(out@);
        push_line(out, text, style);
        proof {
            done = done + 1;
            assert(line_views(out@) =~= line_views(old(out)@) + hex_lines(
                bytes_of(views(items@)),
                done,
                level,
                style,
            ));
        }
        if items.len() - start > 16 {
            start += 16;
        } else {
            start = items.len();
        }
    }
}

fn compact_line(items: &Vec<Value>, indent: &str, prefix: &str) -> (out: String)
    requires
        items.len() > 0,
    ensures
        out@ == indent@ + prefix@ + " ["@ + (views(items@)[0].tag() + "[]"@) + "]:"@ + " ["@
            + joined(element_texts(views(items@)), ", "@) + "]"@,
{
    proof {
        lemma_views(items@);
    }
    let mut label = String::new();
    label.append(items[0].kind_name());
    label.append("[]");
    let mut out = heading_text(indent, prefix, label.as_str());
    out.append(" [");
    let ghost lead = out@;
    let ghost texts = element_texts(views(items@));
    let mut i: usize = 0;
    assert(out@ =~= lead + joined(texts.take(0), ", "@));
    while i < items.len()
        invariant
            i <= items.len(),
            texts == element_texts(views(items@)),
            views(items@).len() == items.len(),
            forall|j: int| 0 <= j < items.len() ==> #[trigger] views(items@)[j] == items@[j]@,
            out@ == lead + joined(texts.take(i as int), ", "@),
        decreases items.len() - i,
    {
        if i > 0 {
            out.append(", ");
        }
        items[i].push_element_text(&mut out);
        i += 1;
        proof {
            let now = texts.take(i as int);
            assert(now.drop_last() =~= texts.take(i - 1));
            assert(now.last() == items@[i - 1]@.element_text());
            assert(out@ =~= lead + joined(now, ", "@));
        }
    }
    assert(texts.take(items.len() as int) =~= texts);
    out.append("]");
    out
}

fn strip_leading_spaces(text: &str) -> (out: String)
    ensures
        out@ == without_leading_spaces(text@),
{
    let chars = chars_of(text);
    let mut i: usize = 0;
    assert(chars@.skip(0) =~= chars@);
    while i < chars.len() && chars[i] == ' '
        invariant
            i <= chars.len(),
            without_leading_spaces(chars@) == without_leading_spaces(chars@.skip(i as int)),
        decreases chars.len() - i,
    {
        assert(chars@.skip(i as int)[0] == chars@[i as int]);
        assert(chars@.skip(i as int).drop_first() =~= chars@.skip(i + 1));
        i += 1;
    }
    proof {
        if i < chars.len() {
            assert(chars@.skip(i as int)[0] == chars@[i as int]);
        }
    }
    let mut out = String::new();
    let ghost rest = chars@.skip(i as int);
    let mut k: usize = i;
    while k < chars.len()
        invariant
            i <= k <= chars.len(),
            rest == chars@.skip(i as int),
            out@ == rest.take(k - i),
        decreases chars.len() - k,
    {
        out.push(chars[k]);
        k += 1;
        assert(rest.take(k - i) =~= rest.take(k - i - 1).push(rest[k - i - 1]));
    }
    assert(rest.take(chars.len() - i) =~= rest);
    out
}

fn widest(entries: &Vec<(Value, Value)>) -> (width: usize)
    ensures
        width == widest_key(entry_views(entries@), entries@.len()),
{
    proof {
        lemma_entry_views(entries@);
    }
    let mut width: usize = 0;
    let mut i: usize = 0;
    while i < entries.len()
        invariant
            i <= entries.len(),
            entry_views(entries@).len() == entries.len(),
            forall|j: int|
                0 <= j < entries.len() ==> #[trigger] entry_views(entries@)[j] == (
                    entries@[j].0@,
                    entries@[j].1@,
                ),
            width == widest_key(entry_views(entries@), i as nat),
        decreases entries.len() - i,
    {
        let key = entries[i].0.key_string();
        let this: usize = key.as_str().as_bytes().len();
        if this > width {
            width = this;
        }
        i += 1;
    }
    width
}

fn entry_block_into(
    key: &str,
    value_lines: &Vec<StyledLine>,
    indent: &str,
    Ghost(level): Ghost<nat>,
    width: usize,
    out: &mut Vec<StyledLine>,
)
    requires
        indent@ == indentation(level),
        text_width(key@) <= width,
    ensures
        line_views(final(out)@) == line_views(old(out)@) + entry_block(
            key@,
            line_views(value_lines@),
            level,
            width as nat,
            LineStyle::Dictionary,
        ),
{
    let ghost views = line_views(value_lines@);
    let mut first = String::new();
    first.append(indent);
    first.append(key);
    push_repeated(&mut first, ' ', width - key.as_bytes().len());
    if value_lines.len() == 0 {
        first.append(":");
        push_line(out, first, LineStyle::Dictionary);
        return ;
    }
    first.append(": ");
    let value_start = strip_leading_spaces(value_lines[0].text.as_str());
    first.append(value_start.as_str());
    assert(views[0] == value_lines@[0]@);
    push_line(out, first, LineStyle::Dictionary);
    let ghost headed = line_views(out@);
    let ghost rest = Seq::new(
        (views.len() - 1) as nat,
        |i: int|
            LineView {
                text: repeated(' ', 2 * level + width as nat + 2) + views[i + 1].text,
                style: LineStyle::Dictionary,
            },
    );
    let mut margin = String::new();
    margin.append(indent);
    push_repeated(&mut margin, ' ', width);
    push_repeated(&mut margin, ' ', 2);
    assert(margin@ =~= repeated(' ', 2 * level + width as nat + 2));
    let mut i: usize = 1;
    assert(line_views(out@) =~= headed + rest.take(0));
    while i < value_lines.len()
        invariant
            1 <= i <= value_lines.len(),
            views == line_views(value_lines@),
            margin@ == repeated(' ', 2 * level + width as nat + 2),
            rest == Seq::new(
                (views.len() - 1) as nat,
                |i: int|
                    LineView {
                        text: repeated(' ', 2 * level + width as nat + 2) + views[i + 1].text,
                        style: LineStyle::Dictionary,
                    },
            ),
            line_views(out@) == headed + rest.take(i - 1),
        decreases value_lines.len() - i,
    {
        let mut text = String::new();
        text.append(margin.as_str());
        text.append(value_lines[i].text.as_str());
        assert(views[i as int] == value_lines@[i as int]@);
        push_line(out, text, LineStyle::Dictionary);
        i += 1;
        assert(line_views(out@) =~= headed + rest.take(i - 1));
    }
    assert(rest.take(value_lines.len() - 1) =~= rest);
}

/// No key among the first `count` entries is wider than the widest.
pub proof fn lemma_widest_key_bounds(
    entries: Seq<(ValueView, ValueView)>,
    count: nat,
    i: int,
)
    requires
        0 <= i < count,
    ensures
        text_width(entries[i].0.key_text()) <= widest_key(entries, count),
    decreases count,
{
    if i < count - 1 {
        lemma_widest_key_bounds(entries, (count - 1) as nat, i);
    }
}

fn render_into(
    value: &Value,
    indent: &str,
    Ghost(level): Ghost<nat>,
    prefix: &str,
    striped: bool,
    out: &mut Vec<StyledLine>,
)
    requires
        indent@ == indentation(level),
    ensures
        line_views(final(out)@) == line_views(old(out)@) + render(
            value@,
            level,
            prefix@,
            striped,
        ),
    decreases value,
{
    let plain = if striped {
        LineStyle::Striped
    } else {
        LineStyle::Plain
    };
    let ghost start = line_views(out@);
    match value {
        Value::Variant(inner) => {
            render_into(inner, indent, Ghost(level), prefix, striped, out);
        },
        Value::Array(items) => {
            proof {
                lemma_views(items@);
            }
            if items.len() == 0 {
                let mut text = heading_text(indent, prefix, "array");
                text.append(" []");
                push_line(out, text, plain);
            } else if every_keyed(items) {
                push_line(out, heading_text(indent, prefix, "struct[]"), plain);
                keyed_into(items, indent, Ghost(level), plain, out);
                assert(line_views(out@) =~= start + render(value@, level, prefix@, striped));
            } else if !items[0].composite() && every_same_kind(items) {
                if matches!(items[0], Value::U8(_)) {
                    push_line(out, heading_text(indent, prefix, "ay (u8[])"), plain);
                    let inner = deeper(indent, Ghost(level));
                    hex_dump_into(items, inner.as_str(), Ghost(level + 1), plain, out);
                    assert(line_views(out@) =~= start + render(value@, level, prefix@, striped));
                } else {
                    push_line(out, compact_line(items, indent, prefix), plain);
                    assert(line_views(out@) =~= start + render(value@, level, prefix@, striped));
                }
            } else {
                push_line(out, heading_text(indent, prefix, "array"), plain);
                let inner = deeper(indent, Ghost(level));
                indexed_into(items, inner.as_str(), Ghost(level + 1), out);
                assert(line_views(out@) =~= start + render(value@, level, prefix@, striped));
            }
        },
        Value::Structure(fields) => {
            proof {
                lemma_views(fields@);
            }
            if fields.len() == 0 {
                let mut text = heading_text(indent, prefix, "struct");
                text.append(" (empty)");
                push_line(out, text, LineStyle::Structure);
            } else {
                push_line(out, heading_text(indent, prefix, "struct"), LineStyle::Structure);
                let inner = deeper(indent, Ghost(level));
                fields_into(fields, inner.as_str(), Ghost(level + 1), out);
                assert(line_views(out@) =~= start + render(value@, level, prefix@, striped));
            }
        },
        Value::Dict(entries) => {
            proof {
                lemma_entry_views(entries@);
            }
            if entries.len() == 0 {
                let mut text = heading_text(indent, prefix, "dict");
                text.append(" {}");
                push_line(out, text, LineStyle::Dictionary);
            } else {
                push_line(out, heading_text(indent, prefix, "dict"), LineStyle::Dictionary);
                let inner = deeper(indent, Ghost(level));
                entries_into(entries, inner.as_str(), Ghost(level + 1), out);
                assert(line_views(out@) =~= start + render(value@, level, prefix@, striped));
            }
        },
        _ => {
            let mut text = heading_text(indent, prefix, value.kind_name());
            text.append(" ");
            value.push_scalar_text(&mut text);
            push_line(out, text, plain);
        },
    }
}

fn keyed_into(
    items: &Vec<Value>,
    indent: &str,
    Ghost(level): Ghost<nat>,
    style: LineStyle,
    out: &mut Vec<StyledLine>,
)
    requires
        indent@ == indentation(level),
        all_keyed(views(items@)),
    ensures
        line_views(final(out)@) == line_views(old(out)@) + keyed_lines(
            views(items@),
            items@.len(),
            level,
            style,
        ),
    decreases items,
{
    let ghost all = views(items@);
    proof {
        lemma_views(items@);
    }
    let key_indent = deeper(indent, Ghost(level));
    let value_indent = deeper(key_indent.as_str(), Ghost(level + 1));
    let mut i: usize = 0;
    assert(line_views(out@) =~= line_views(old(out)@) + keyed_lines(all, 0, level, style));
    while i < items.len()
        invariant
            i <= items.len(),
            all == views(items@),
            all.len() == items.len(),
            forall|j: int| 0 <= j < items.len() ==> #[trigger] all[j] == items@[j]@,
            all_keyed(all),
            key_indent@ == indentation(level + 1),
            value_indent@ == indentation(level + 2),
            line_views(out@) == line_views(old(out)@) + keyed_lines(all, i as nat, level, style),
        decreases items.len() - i,
    {
        assert(is_keyed_pair(all[i as int]));
        assert(all[i as int] == items@[i as int]@);
        match &items[i] {
            Value::Structure(fields) => {
                proof {
                    lemma_views(fields@);
                }
                let mut text = String::new();
                text.append(key_indent.as_str());
                match &fields[0] {
                    Value::Str(key) => text.append(key.as_str()),
                    _ => {},
                }
                text.append(":");
                push_line(out, text, style);
                proof {
                    assert(decreases_to!(items => items[i as int]));
                    assert(decreases_to!(items[i as int] => fields));
                    assert(decreases_to!(fields => fields[1]));
                }
                render_into(
                    &fields[1],
                    value_indent.as_str(),
                    Ghost(level + 2),
                    "",
                    i % 2 == 1,
                    out,
                );
            },
            _ => {},
        }
        i += 1;
        proof {
            reveal_strlit("");
            assert(""@ =~= Seq::<char>::empty());
            assert(line_views(out@) =~= line_views(old(out)@) + keyed_lines(
                all,
                i as nat,
                level,
                style,
            ));
        }
    }
}

fn indexed_into(
    items: &Vec<Value>,
    indent: &str,
    Ghost(level): Ghost<nat>,
    out: &mut Vec<StyledLine>,
)
    requires
        indent@ == indentation(level),
    ensures
        line_views(final(out)@) == line_views(old(out)@) + indexed_lines(
            views(items@),
            items@.len(),
            level,
        ),
    decreases items,
{
    let ghost all = views(items@);
    proof {
        lemma_views(items@);
    }
    let mut i: usize = 0;
    assert(line_views(out@) =~= line_views(old(out)@) + indexed_lines(all, 0, level));
    while i < items.len()
        invariant
            i <= items.len(),
            indent@ == indentation(level),
            all == views(items@),
            all.len() == items.len(),
            forall|j: int| 0 <= j < items.len() ==> #[trigger] all[j] == items@[j]@,
            line_views(out@) == line_views(old(out)@) + indexed_lines(all, i as nat, level),
        decreases items.len() - i,
    {
        let mut label = String::new();
        push_decimal(&mut label, i as u64);
        render_into(&items[i], indent, Ghost(level), label.as_str(), i % 2 == 1, out);
        i += 1;
        assert(all[i - 1] == items@[i - 1]@);
        assert(line_views(out@) =~= line_views(old(out)@) + indexed_lines(all, i as nat, level));
    }
}

fn entries_into(
    entries: &Vec<(Value, Value)>,
    indent: &str,
    Ghost(level): Ghost<nat>,
    out: &mut Vec<StyledLine>,
)
    requires
        indent@ == indentation(level),
    ensures
        line_views(final(out)@) == line_views(old(out)@) + entry_lines(
            entry_views(entries@),
            entries@.len(),
            level,
            widest_key(entry_views(entries@), entries@.len()),
        ),
    decreases entries,
{
    let ghost all = entry_views(entries@);
    proof {
        lemma_entry_views(entries@);
    }
    let width = widest(entries);
    let mut i: usize = 0;
    assert(line_views(out@) =~= line_views(old(out)@) + entry_lines(all, 0, level, width as nat));
    while i < entries.len()
        invariant
            i <= entries.len(),
            indent@ == indentation(level),
            all == entry_views(entries@),
            all.len() == entries.len(),
            forall|j: int|
                0 <= j < entries.len() ==> #[trigger] all[j] == (entries@[j].0@, entries@[j].1@),
            width == widest_key(all, entries@.len()),
            line_views(out@) == line_views(old(out)@) + entry_lines(
                all,
                i as nat,
                level,
                width as nat,
            ),
        decreases entries.len() - i,
    {
        let key = entries[i].0.key_string();
        let mut value_lines: Vec<StyledLine> = Vec::new();
        proof {
            lemma_indentation_step(0);
            reveal_strlit("");
            assert(""@ =~= Seq::<char>::empty());
            lemma_widest_key_bounds(all, entries@.len(), i as int);
            assert(all[i as int] == (entries@[i as int].0@, entries@[i as int].1@));
            assert(decreases_to!(entries => entries[i as int]));
            assert(decreases_to!(entries[i as int] => entries[i as int].1));
        }
        render_into(&entries[i].1, "", Ghost(0), "", i % 2 == 1, &mut value_lines);
        assert(line_views(value_lines@) =~= render(
            entries@[i as int].1@,
            0,
            Seq::empty(),
            i % 2 == 1,
        ));
        entry_block_into(key.as_str(), &value_lines, indent, Ghost(level), width, out);
        i += 1;
        assert(line_views(out@) =~= line_views(old(out)@) + entry_lines(
            all,
            i as nat,
            level,
            width as nat,
        ));
    }
}

fn fields_into(
    fields: &Vec<Value>,
    indent: &str,
    Ghost(level): Ghost<nat>,
    out: &mut Vec<StyledLine>,
)
    requires
        indent@ == indentation(level),
    ensures
        line_views(final(out)@) == line_views(old(out)@) + field_lines(
            views(fields@),
            fields@.len(),
            level,
        ),
    decreases fields,
{
    let ghost all = views(fields@);
    proof {
        lemma_views(fields@);
    }
    let mut i: usize = 0;
    assert(line_views(out@) =~= line_views(old(out)@) + field_lines(all, 0, level));
    while i < fields.len()
        invariant
            i <= fields.len(),
            indent@ == indentation(level),
            all == views(fields@),
            all.len() == fields.len(),
            forall|j: int| 0 <= j < fields.len() ==> #[trigger] all[j] == fields@[j]@,
            line_views(out@) == line_views(old(out)@) + field_lines(all, i as nat, level),
        decreases fields.len() - i,
    {
        let mut label = String::new();
        label.append("i_");
        push_decimal(&mut label, i as u64 + 1);
        render_into(&fields[i], indent, Ghost(level), label.as_str(), i % 2 == 1, out);
        i += 1;
        assert(all[i - 1] == fields@[i - 1]@);
        assert(line_views(out@) =~= line_views(old(out)@) + field_lines(all, i as nat, level));
    }
}

/// Formats one payload value as aligned, styled lines.
///
/// The result depends on the value alone: formatting the same value again
/// gives the same lines.
pub fn format_value(value: &Value) -> (lines: Vec<StyledLine>)
    ensures
        line_views(lines@) == rendered(value@),
{
    let mut lines: Vec<StyledLine> = Vec::new();
    proof {
        lemma_indentation_step(0);
        reveal_strlit("");
        assert(""@ =~= Seq::<char>::empty());
    }
    assert(line_views(lines@) =~= Seq::<LineView>::empty());
    match value {
        Value::Structure(fields) => {
            proof {
                lemma_views(fields@);
            }
            fields_into(fields, "", Ghost(0), &mut lines);
            assert(line_views(lines@) =~= rendered(value@));
        },
        _ => {
            render_into(value, "", Ghost(0), "value", false, &mut lines);
            assert(line_views(lines@) =~= rendered(value@));
        },
    }
    lines
}

/// Formatting is a function of the value: any two results for the same
/// value have the same number of lines and agree, line by line, in text and
/// in style.
pub proof fn lemma_formatting_is_repeatable(
    value: ValueView,
    first: Seq<StyledLine>,
    second: Seq<StyledLine>,
)
    requires
        line_views(first) == rendered(value),
        line_views(second) == rendered(value),
    ensures
        first.len() == second.len(),
        forall|i: int|
            0 <= i < first.len() ==> (#[trigger] first[i]).text@ == second[i].text@
                && first[i].style == second[i].style,
{
    assert(line_views(first).len() == first.len());
    assert(line_views(second).len() == second.len());
    assert forall|i: int| 0 <= i < first.len() implies (#[trigger] first[i]).text@
        == second[i].text@ && first[i].style == second[i].style by {
        assert(line_views(first)[i] == first[i]@);
        assert(line_views(second)[i] == second[i]@);
    }
}

/// Every value is rendered as at least one line.
pub proof fn lemma_render_is_not_empty(
    value: ValueView,
    level: nat,
    prefix: Seq<char>,
    striped: bool,
)
    ensures
        render(value, level, prefix, striped).len() > 0,
    decreases value,
{
    match value {
        ValueView::Variant(inner) => {
            lemma_render_is_not_empty(*inner, level, prefix, striped);
        },
        _ => {},
    }
}

} // verus!
