//! Presentation windowing: the rows of the part of the list that is in
//! view, with a header row where a group begins; and the selection.

use crate::bus::{GroupingType, Item, ItemView};
use crate::order::{
    group_key, keys_order, lemma_keys_order, lemma_stably_sorted, record_order, stably_sorted,
};
use crate::text::{decimal, join, joined, lemma_text_order_sign, push_decimal, same_text};
use vstd::prelude::*;
use vstd::string::*;

verus! {

/// Whether any dimension of `keys` is an actual dimension.
pub open spec fn is_grouped(keys: Seq<GroupingType>) -> bool {
    exists|i: int| 0 <= i < keys.len() && #[trigger] keys[i] != GroupingType::Ungrouped
}

/// Whether two records agree on every dimension of `keys`, that is, belong
/// to the same group.
pub open spec fn same_group(a: ItemView, b: ItemView, keys: Seq<GroupingType>) -> bool {
    forall|i: int|
        0 <= i < keys.len() ==> group_key(a, #[trigger] keys[i]) == group_key(b, keys[i])
}

/// The group key of a record: its text along each actual dimension of
/// `keys`, in their order.
pub open spec fn group_components(record: ItemView, keys: Seq<GroupingType>) -> Seq<Seq<char>>
    decreases keys.len(),
{
    if keys.len() == 0 {
        Seq::empty()
    } else if keys.last() == GroupingType::Ungrouped {
        group_components(record, keys.drop_last())
    } else {
        group_components(record, keys.drop_last()).push(group_key(record, keys.last()))
    }
}

/// The title of the group of a record: its group key, the parts joined by
/// two colons.
pub open spec fn group_title(record: ItemView, keys: Seq<GroupingType>) -> Seq<char> {
    joined(group_components(record, keys), "::"@)
}

/// Whether a header stands above the record at `index`: the records are
/// grouped, and the record is the first of all or differs in its group from
/// the record before it in the whole sequence.
pub open spec fn starts_group(records: Seq<ItemView>, keys: Seq<GroupingType>, index: int) -> bool {
    is_grouped(keys) && (index == 0 || !same_group(records[index - 1], records[index], keys))
}

/// One row of the list.
#[derive(Clone, Debug, PartialEq, Eq)]
pub enum Row {
    /// The header of a group.
    Header { title: String },
    /// The record at `index` of the sequence, indented where records are
    /// grouped.
    Record { index: usize, indented: bool },
}

/// What a row is in contracts.
pub ghost enum RowView {
    Header { title: Seq<char> },
    Record { index: usize, indented: bool },
}

impl View for Row {
    type V = RowView;

    open spec fn view(&self) -> RowView {
        match self {
            Row::Header { title } => RowView::Header { title: title@ },
            Row::Record { index, indented } => RowView::Record {
                index: *index,
                indented: *indented,
            },
        }
    }
}

impl DeepView for Row {
    type V = RowView;

    open spec fn deep_view(&self) -> RowView {
        self@
    }
}

/// The rows of the record at `index`: its group's header where it starts a
/// group, and the record itself.
pub open spec fn rows_of(records: Seq<ItemView>, keys: Seq<GroupingType>, index: int) -> Seq<
    RowView,
> {
    let record = seq![RowView::Record { index: index as usize, indented: is_grouped(keys) }];
    if starts_group(records, keys, index) {
        seq![RowView::Header { title: group_title(records[index], keys) }] + record
    } else {
        record
    }
}

/// The rows of the records from `start` up to `end`.
pub open spec fn rows_between(
    records: Seq<ItemView>,
    keys: Seq<GroupingType>,
    start: int,
    end: int,
) -> Seq<RowView>
    decreases end - start,
{
    if start >= end {
        Seq::empty()
    } else {
        rows_between(records, keys, start, end - 1) + rows_of(records, keys, end - 1)
    }
}

/// The first record in view: `offset`, or the end of the list where
/// `offset` lies beyond it.
pub open spec fn window_start(len: nat, offset: nat) -> nat {
    if offset <= len {
        offset
    } else {
        len
    }
}

/// The end of the window: `height` records after its start, or the end of
/// the list where that lies beyond it.
pub open spec fn window_end(len: nat, offset: nat, height: nat) -> nat {
    if offset + height <= len {
        offset + height
    } else {
        len
    }
}

/// Decides whether any dimension of `keys` is an actual dimension.
pub fn grouped(keys: &Vec<GroupingType>) -> (yes: bool)
    ensures
        yes == is_grouped(keys@),
{
    let mut i: usize = 0;
    while i < keys.len()
        invariant
            i <= keys.len(),
            forall|j: int| 0 <= j < i ==> #[trigger] keys@[j] == GroupingType::Ungrouped,
        decreases keys.len() - i,
    {
        if !matches!(keys[i], GroupingType::Ungrouped) {
            return true;
        }
        i += 1;
    }
    false
}

fn key_text<'a>(item: &'a Item, key: GroupingType) -> (text: &'a str)
    ensures
        text@ == group_key(item@, key),
{
    match key {
        GroupingType::Sender => item.app_name.as_str(),
        GroupingType::Member => item.member.as_str(),
        GroupingType::Path => item.path.as_str(),
        GroupingType::Serial => item.serial.as_str(),
        GroupingType::Ungrouped => {
            proof {
                reveal_strlit("");
                assert(""@ =~= Seq::<char>::empty());
            }
            ""
        },
    }
}

/// Decides whether two records belong to the same group.
pub fn in_same_group(a: &Item, b: &Item, keys: &Vec<GroupingType>) -> (yes: bool)
    ensures
        yes == same_group(a@, b@, keys@),
{
    let mut i: usize = 0;
    while i < keys.len()
        invariant
            i <= keys.len(),
            forall|j: int|
                0 <= j < i ==> group_key(a@, #[trigger] keys@[j]) == group_key(b@, keys@[j]),
        decreases keys.len() - i,
    {
        if !same_text(key_text(a, keys[i]), key_text(b, keys[i])) {
            return false;
        }
        i += 1;
    }
    true
}

/// The title of the group of a record.
pub fn title_of(item: &Item, keys: &Vec<GroupingType>) -> (title: String)
    ensures
        title@ == group_title(item@, keys@),
{
    let mut parts: Vec<String> = Vec::new();
    let mut i: usize = 0;
    assert(keys@.take(0) =~= Seq::<GroupingType>::empty());
    assert(parts.deep_view() =~= Seq::<Seq<char>>::empty());
    while i < keys.len()
        invariant
            i <= keys.len(),
            parts.deep_view() == group_components(item@, keys@.take(i as int)),
        decreases keys.len() - i,
    {
        let ghost before = parts.deep_view();
        if !matches!(keys[i], GroupingType::Ungrouped) {
            let part = String::from_str(key_text(item, keys[i]));
            parts.push(part);
            assert(parts.deep_view() =~= before.push(group_key(item@, keys@[i as int])));
        }
        i += 1;
        proof {
            let now = keys@.take(i as int);
            assert(now.drop_last() =~= keys@.take(i - 1));
            assert(now.last() == keys@[i - 1]);
        }
    }
    assert(keys@.take(keys.len() as int) =~= keys@);
    join(&parts, "::")
}

/// The rows of the records that are in view: those from `offset` on, at most
/// `height` of them. A header stands above each record that starts a group;
/// whether the first record in view does is decided against the record
/// before it in the whole list, so scrolling neither adds nor drops a header.
pub fn visible_rows(
    records: &Vec<Item>,
    keys: &Vec<GroupingType>,
    offset: usize,
    height: usize,
) -> (rows: Vec<Row>)
    ensures
        rows.deep_view() == rows_between(
            records.deep_view(),
            keys@,
            window_start(records@.len(), offset as nat) as int,
            window_end(records@.len(), offset as nat, height as nat) as int,
        ),
{
    let len: usize = records.len();
    let start: usize = if offset <= len {
        offset
    } else {
        len
    };
    let end: usize = if height <= len - start {
        start + height
    } else {
        len
    };
    let indented = grouped(keys);
    let ghost views = records.deep_view();
    let mut rows: Vec<Row> = Vec::new();
    let mut i: usize = start;
    assert(rows.deep_view() =~= rows_between(views, keys@, start as int, start as int));
    while i < end
        invariant
            start <= i <= end <= records.len(),
            views == records.deep_view(),
            indented == is_grouped(keys@),
            rows.deep_view() == rows_between(views, keys@, start as int, i as int),
        decreases end - i,
    {
        let ghost before = rows.deep_view();
        let mut header = false;
        if indented {
            if i == 0 {
                header = true;
            } else {
                header = !in_same_group(&records[i - 1], &records[i], keys);
            }
        }
        assert(header == starts_group(views, keys@, i as int));
        if header {
            rows.push(Row::Header { title: title_of(&records[i], keys) });
        }
        rows.push(Row::Record { index: i, indented });
        assert(rows.deep_view() =~= before + rows_of(views, keys@, i as int));
        i += 1;
    }
    rows
}

/// The offset at which the selected record is in view: the offset as it is
/// where the record is within the `height` records from it on, or where
/// nothing is selected; else the nearest offset at which it is.
pub open spec fn offset_in_view(offset: usize, selected: Option<usize>, height: usize) -> usize {
    match selected {
        Some(index) => if index < offset {
            index
        } else if height > 0 && index - offset >= height {
            (index - height + 1) as usize
        } else {
            offset
        },
        None => offset,
    }
}

/// The offset that brings the selected record into view.
pub fn scroll_into_view(offset: usize, selected: Option<usize>, height: usize) -> (next: usize)
    ensures
        next == offset_in_view(offset, selected, height),
        selected matches Some(index) ==> next <= index && (height > 0 ==> index - next < height),
{
    match selected {
        Some(index) => if index < offset {
            index
        } else if height > 0 && index - offset >= height {
            index - height + 1
        } else {
            offset
        },
        None => offset,
    }
}

/// Whether a row is the row of the record at `index`.
pub open spec fn is_row_of(row: RowView, index: usize) -> bool {
    row matches RowView::Record { index: found, .. } && found == index
}

/// The row that shows the selected record, if a row does.
pub fn selected_row(rows: &Vec<Row>, selected: Option<usize>) -> (row: Option<usize>)
    ensures
        match row {
            Some(at) => selected is Some && at < rows.len() && is_row_of(
                rows@[at as int]@,
                selected->0,
            ) && forall|k: int| 0 <= k < at ==> !is_row_of(#[trigger] rows@[k]@, selected->0),
            None => selected is None || forall|k: int|
                0 <= k < rows.len() ==> !is_row_of(#[trigger] rows@[k]@, selected->0),
        },
{
    let wanted: usize = match selected {
        Some(index) => index,
        None => {
            return None;
        },
    };
    let mut at: usize = 0;
    while at < rows.len()
        invariant
            at <= rows.len(),
            selected == Some(wanted),
            forall|k: int| 0 <= k < at ==> !is_row_of(#[trigger] rows@[k]@, wanted),
        decreases rows.len() - at,
    {
        let found = match &rows[at] {
            Row::Record { index, .. } => *index == wanted,
            Row::Header { .. } => false,
        };
        if found {
            return Some(at);
        }
        at += 1;
    }
    None
}

/// The selection after a refresh: nothing in an empty list; the last record
/// where follow mode is on and records arrived; else the record selected
/// before, or the last where that lies beyond the end, or the first where
/// none was selected.
pub open spec fn selection_after(
    follow: bool,
    arrived: bool,
    selected: Option<usize>,
    len: nat,
) -> Option<usize> {
    if len == 0 {
        None
    } else if follow && arrived {
        Some((len - 1) as usize)
    } else {
        match selected {
            Some(index) => if index < len {
                Some(index)
            } else {
                Some((len - 1) as usize)
            },
            None => Some(0),
        }
    }
}

/// The selection after a refresh that left `len` records.
pub fn select_after(follow: bool, arrived: bool, selected: Option<usize>, len: usize) -> (next:
    Option<usize>)
    ensures
        next == selection_after(follow, arrived, selected, len as nat),
        next matches Some(index) ==> index < len,
        len > 0 ==> next is Some,
{
    if len == 0 {
        None
    } else if follow && arrived {
        Some(len - 1)
    } else {
        match selected {
            Some(index) => if index < len {
                Some(index)
            } else {
                Some(len - 1)
            },
            None => Some(0),
        }
    }
}

/// How long ago, in short: seconds below ten exactly, below a minute to the
/// ten below, then whole minutes, hours, days and years of 365 days.
pub open spec fn age_text(seconds: nat) -> Seq<char> {
    if seconds < 10 {
        decimal(seconds) + "s"@
    } else if seconds < 60 {
        decimal(seconds / 10 * 10) + "+s"@
    } else if seconds / 60 < 60 {
        decimal(seconds / 60) + "m"@
    } else if seconds / 3600 < 24 {
        decimal(seconds / 3600) + "h"@
    } else if seconds / 86400 < 365 {
        decimal(seconds / 86400) + "d"@
    } else {
        decimal(seconds / 86400 / 365) + "y"@
    }
}

/// The short text for an age of `seconds`.
pub fn relative_time(seconds: u64) -> (text: String)
    ensures
        text@ == age_text(seconds as nat),
{
    let mut text = String::new();
    if seconds < 10 {
        push_decimal(&mut text, seconds);
        text.append("s");
    } else if seconds < 60 {
        push_decimal(&mut text, seconds / 10 * 10);
        text.append("+s");
    } else if seconds / 60 < 60 {
        push_decimal(&mut text, seconds / 60);
        text.append("m");
    } else if seconds / 3600 < 24 {
        push_decimal(&mut text, seconds / 3600);
        text.append("h");
    } else if seconds / 86400 < 365 {
        push_decimal(&mut text, seconds / 86400);
        text.append("d");
    } else {
        push_decimal(&mut text, seconds / 86400 / 365);
        text.append("y");
    }
    text
}

/// How long to wait for input in a cycle of `tick` that has spent `spent`:
/// what is left of the tick, and `floor` at the least.
pub open spec fn wait_after(tick: u64, spent: u64, floor: u64) -> u64 {
    if spent >= tick {
        floor
    } else if tick - spent < floor {
        floor
    } else {
        (tick - spent) as u64
    }
}

/// How long to wait for input in what is left of a cycle.
pub fn wait_budget(tick: u64, spent: u64, floor: u64) -> (wait: u64)
    ensures
        wait == wait_after(tick, spent, floor),
        wait >= floor,
{
    if spent >= tick {
        floor
    } else if tick - spent < floor {
        floor
    } else {
        tick - spent
    }
}

/// The rows of a window do not depend on where the window begins: the rows
/// of two windows that follow each other are the rows of the window that
/// spans both, no header more and none less.
pub proof fn lemma_windows_join(
    records: Seq<ItemView>,
    keys: Seq<GroupingType>,
    start: int,
    middle: int,
    end: int,
)
    requires
        start <= middle <= end,
    ensures
        rows_between(records, keys, start, middle) + rows_between(records, keys, middle, end)
            == rows_between(records, keys, start, end),
    decreases end - middle,
{
    if middle == end {
        assert(rows_between(records, keys, start, middle) + Seq::<RowView>::empty()
            =~= rows_between(records, keys, start, middle));
    } else {
        lemma_windows_join(records, keys, start, middle, end - 1);
        assert(rows_between(records, keys, start, middle) + (rows_between(
            records,
            keys,
            middle,
            end - 1,
        ) + rows_of(records, keys, end - 1)) =~= (rows_between(records, keys, start, middle)
            + rows_between(records, keys, middle, end - 1)) + rows_of(records, keys, end - 1));
    }
}

/// Two records belong to the same group exactly if the order along the
/// grouping dimensions does not tell them apart.
pub proof fn lemma_same_group_is_equal_order(a: ItemView, b: ItemView, keys: Seq<GroupingType>)
    ensures
        same_group(a, b, keys) <==> keys_order(a, b, keys) == 0,
    decreases keys.len(),
{
    if keys.len() > 0 {
        let rest = keys.drop_first();
        lemma_same_group_is_equal_order(a, b, rest);
        lemma_text_order_sign(group_key(a, keys[0]), group_key(b, keys[0]));
        if same_group(a, b, keys) {
            assert(group_key(a, keys[0]) == group_key(b, keys[0]));
            assert forall|i: int| 0 <= i < rest.len() implies group_key(a, #[trigger] rest[i])
                == group_key(b, rest[i]) by {
                assert(rest[i] == keys[i + 1]);
            }
        }
        if keys_order(a, b, keys) == 0 {
            assert forall|i: int| 0 <= i < keys.len() implies group_key(a, #[trigger] keys[i])
                == group_key(b, keys[i]) by {
                if i > 0 {
                    assert(keys[i] == rest[i - 1]);
                }
            }
        }
    }
}

/// In the stable arrangement, two records of one group are in the order of
/// their capture instants, the earlier first.
pub proof fn lemma_ties_are_broken_by_time(
    records: Seq<ItemView>,
    keys: Seq<GroupingType>,
    a: int,
    b: int,
)
    requires
        records.len() <= usize::MAX,
        0 <= a < b < records.len(),
        same_group(stably_sorted(records, keys)[a], stably_sorted(records, keys)[b], keys),
    ensures
        stably_sorted(records, keys)[a].timestamp <= stably_sorted(records, keys)[b].timestamp,
{
    lemma_stably_sorted(records, keys);
    lemma_same_group_is_equal_order(
        stably_sorted(records, keys)[a],
        stably_sorted(records, keys)[b],
        keys,
    );
}

/// Among sorted records, the records of one group stand together: a record
/// between two records of one group belongs to that group too.
pub proof fn lemma_groups_stand_together(
    sorted: Seq<ItemView>,
    keys: Seq<GroupingType>,
    i: int,
    k: int,
    j: int,
)
    requires
        forall|a: int, b: int|
            0 <= a < b < sorted.len() ==> record_order(
                #[trigger] sorted[a],
                #[trigger] sorted[b],
                keys,
            ) <= 0,
        0 <= i <= k <= j < sorted.len(),
        same_group(sorted[i], sorted[j], keys),
    ensures
        same_group(sorted[i], sorted[k], keys),
        same_group(sorted[k], sorted[j], keys),
{
    lemma_same_group_is_equal_order(sorted[i], sorted[j], keys);
    lemma_same_group_is_equal_order(sorted[i], sorted[k], keys);
    lemma_same_group_is_equal_order(sorted[k], sorted[j], keys);
    lemma_keys_order(sorted[i], sorted[k], sorted[j], keys);
    lemma_keys_order(sorted[k], sorted[k], sorted[k], keys);
    if i < k {
        assert(record_order(sorted[i], sorted[k], keys) <= 0);
    }
    if k < j {
        assert(record_order(sorted[k], sorted[j], keys) <= 0);
    }
}

/// Among sorted records, each group has one header: no header stands above
/// a record that has a record of its own group before it.
pub proof fn lemma_one_header_for_each_group(
    sorted: Seq<ItemView>,
    keys: Seq<GroupingType>,
    i: int,
    j: int,
)
    requires
        forall|a: int, b: int|
            0 <= a < b < sorted.len() ==> record_order(
                #[trigger] sorted[a],
                #[trigger] sorted[b],
                keys,
            ) <= 0,
        0 <= i < j < sorted.len(),
        same_group(sorted[i], sorted[j], keys),
    ensures
        !starts_group(sorted, keys, j),
{
    lemma_groups_stand_together(sorted, keys, i, j - 1, j);
}

} // verus!
