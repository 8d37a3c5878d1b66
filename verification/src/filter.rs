//! Filtering: which records pass the field criteria, the free-text filter,
//! or belong to a conversation.

use crate::bus::{Item, ItemView};
use crate::keyed::{
    distinct_keys, lemma_keyed_updates, lemma_position_of, position_of, with_entry, without_entry,
};
use crate::text::{contains, join, joined, occurs_in, same_text};
use vstd::prelude::*;
use vstd::string::*;

verus! {

/// The value of a record's field as the filter sees it, or nothing where
/// `field` names no field. The sender is seen as it is shown.
pub open spec fn display_value(record: ItemView, field: Seq<char>) -> Option<Seq<char>> {
    if field == "sender"@ {
        Some(record.sender_display())
    } else if field == "member"@ {
        Some(record.member)
    } else if field == "path"@ {
        Some(record.path)
    } else if field == "serial"@ {
        Some(record.serial)
    } else if field == "reply_serial"@ {
        Some(record.reply_serial)
    } else {
        None
    }
}

/// Whether the named field of `record` contains `wanted`. A name that names
/// no field fails.
pub open spec fn entry_passes(record: ItemView, field: Seq<char>, wanted: Seq<char>) -> bool {
    match display_value(record, field) {
        Some(shown) => occurs_in(wanted, shown),
        None => false,
    }
}

/// Whether `record` passes every criterion.
pub open spec fn passes(record: ItemView, criteria: Seq<(Seq<char>, Seq<char>)>) -> bool {
    forall|i: int|
        0 <= i < criteria.len() ==> entry_passes(record, (#[trigger] criteria[i]).0, criteria[i].1)
}

/// Whether `record` passes the free-text filter: an empty text passes every
/// record, any other must occur in the raw sender, the member or the path.
pub open spec fn matches_text(record: ItemView, text: Seq<char>) -> bool {
    text.len() == 0 || occurs_in(text, record.sender) || occurs_in(text, record.member)
        || occurs_in(text, record.path)
}

/// Whether `record` passes both filters.
pub open spec fn admitted(
    record: ItemView,
    criteria: Seq<(Seq<char>, Seq<char>)>,
    text: Seq<char>,
) -> bool {
    passes(record, criteria) && matches_text(record, text)
}

/// Whether `record` is the message with serial `anchor` or a direct reply
/// to it.
pub open spec fn in_conversation(record: ItemView, anchor: Seq<char>) -> bool {
    record.serial == anchor || record.reply_serial == anchor
}

/// The predicate of the two filters, for use with `Seq::filter`.
pub open spec fn admits(criteria: Seq<(Seq<char>, Seq<char>)>, text: Seq<char>) -> spec_fn(
    ItemView,
) -> bool {
    |record: ItemView| admitted(record, criteria, text)
}

/// The predicate of a conversation, for use with `Seq::filter`.
pub open spec fn converses(anchor: Seq<char>) -> spec_fn(ItemView) -> bool {
    |record: ItemView| in_conversation(record, anchor)
}

/// The field criteria: for each of some field names, a text that the field
/// must contain. A value built by `new`, `insert`, `remove` and `clear` names
/// no field twice.
pub struct FilterCriteria {
    entries: Vec<(String, String)>,
}

impl View for FilterCriteria {
    type V = Seq<(Seq<char>, Seq<char>)>;

    closed spec fn view(&self) -> Seq<(Seq<char>, Seq<char>)> {
        Seq::new(self.entries@.len(), |i: int| (self.entries@[i].0@, self.entries@[i].1@))
    }
}

impl FilterCriteria {
    /// No criteria: every record passes.
    pub fn new() -> (criteria: FilterCriteria)
        ensures
            criteria@ == Seq::<(Seq<char>, Seq<char>)>::empty(),
            distinct_keys(criteria@),
    {
        let criteria = FilterCriteria { entries: Vec::new() };
        assert(criteria@ =~= Seq::<(Seq<char>, Seq<char>)>::empty());
        criteria
    }

    /// The number of criteria.
    pub fn len(&self) -> (len: usize)
        ensures
            len == self@.len(),
    {
        self.entries.len()
    }

    /// Whether there is no criterion.
    pub fn is_empty(&self) -> (empty: bool)
        ensures
            empty == (self@.len() == 0),
    {
        self.entries.len() == 0
    }

    /// The field name of the criterion at `index`.
    pub fn field(&self, index: usize) -> (field: &str)
        requires
            index < self@.len(),
        ensures
            field@ == self@[index as int].0,
    {
        self.entries[index].0.as_str()
    }

    /// The required text of the criterion at `index`.
    pub fn wanted(&self, index: usize) -> (wanted: &str)
        requires
            index < self@.len(),
        ensures
            wanted@ == self@[index as int].1,
    {
        self.entries[index].1.as_str()
    }

    fn find(&self, field: &str) -> (at: usize)
        ensures
            at == position_of(self@, field@),
            at <= self@.len(),
    {
        let mut at: usize = 0;
        proof {
            lemma_position_of(self@, field@);
            assert(self@.skip(0) =~= self@);
        }
        while at < self.entries.len()
            invariant
                at <= self.entries.len(),
                self.entries@.len() == self@.len(),
                position_of(self@, field@) == at + position_of(self@.skip(at as int), field@),
            decreases self.entries.len() - at,
        {
            assert(self@.skip(at as int)[0] == self@[at as int]);
            if same_text(self.entries[at].0.as_str(), field) {
                return at;
            }
            assert(self@.skip(at as int).drop_first() =~= self@.skip(at + 1));
            at += 1;
        }
        at
    }

    /// Removes every criterion.
    pub fn clear(&mut self)
        ensures
            final(self)@ == Seq::<(Seq<char>, Seq<char>)>::empty(),
            distinct_keys(final(self)@),
    {
        self.entries.clear();
        assert(self@ =~= Seq::<(Seq<char>, Seq<char>)>::empty());
    }

    /// Requires `field` to contain `wanted`, in place of what was required of
    /// that field before, if anything was.
    pub fn insert(&mut self, field: String, wanted: String)
        ensures
            final(self)@ == with_entry(old(self)@, field@, wanted@),
            distinct_keys(old(self)@) ==> distinct_keys(final(self)@),
    {
        proof {
            lemma_position_of(self@, field@);
            if distinct_keys(self@) {
                lemma_keyed_updates(self@, field@, wanted@, field@);
            }
        }
        let at = self.find(field.as_str());
        if at < self.entries.len() {
            self.entries.set(at, (field, wanted));
            assert(self@ =~= old(self)@.update(at as int, (field@, wanted@)));
        } else {
            self.entries.push((field, wanted));
            assert(self@ =~= old(self)@.push((field@, wanted@)));
        }
    }

    /// Drops the criterion on `field`, if there is one.
    pub fn remove(&mut self, field: &str)
        ensures
            final(self)@ == without_entry(old(self)@, field@),
            distinct_keys(old(self)@) ==> distinct_keys(final(self)@),
    {
        proof {
            lemma_position_of(self@, field@);
            if distinct_keys(self@) {
                lemma_keyed_updates(self@, field@, Seq::<char>::empty(), field@);
            }
        }
        let at = self.find(field);
        if at < self.entries.len() {
            let _ = self.entries.remove(at);
            assert(self@ =~= old(self)@.remove(at as int));
        }
    }
}

/// Decides whether the named field of `item` contains `wanted`.
pub fn field_contains(item: &Item, field: &str, wanted: &str) -> (yes: bool)
    ensures
        yes == entry_passes(item@, field@, wanted@),
{
    if same_text(field, "sender") {
        let shown = item.sender_display();
        contains(shown.as_str(), wanted)
    } else if same_text(field, "member") {
        contains(item.member.as_str(), wanted)
    } else if same_text(field, "path") {
        contains(item.path.as_str(), wanted)
    } else if same_text(field, "serial") {
        contains(item.serial.as_str(), wanted)
    } else if same_text(field, "reply_serial") {
        contains(item.reply_serial.as_str(), wanted)
    } else {
        false
    }
}

impl FilterCriteria {
    /// Decides whether `item` passes every criterion.
    pub fn passes(&self, item: &Item) -> (yes: bool)
        ensures
            yes == passes(item@, self@),
    {
        let mut i: usize = 0;
        while i < self.entries.len()
            invariant
                i <= self.entries.len(),
                self.entries@.len() == self@.len(),
                forall|j: int|
                    0 <= j < i ==> entry_passes(item@, (#[trigger] self@[j]).0, self@[j].1),
            decreases self.entries.len() - i,
        {
            let found = field_contains(
                item,
                self.entries[i].0.as_str(),
                self.entries[i].1.as_str(),
            );
            assert(self@[i as int] == (self.entries@[i as int].0@, self.entries@[i as int].1@));
            if !found {
                return false;
            }
            i += 1;
        }
        true
    }
}

/// The criteria in one line: each as field, equals sign and text, a comma
/// and a space between each two.
pub open spec fn criteria_text(criteria: Seq<(Seq<char>, Seq<char>)>) -> Seq<char> {
    joined(criteria.map_values(|entry: (Seq<char>, Seq<char>)| entry.0 + "="@ + entry.1), ", "@)
}

/// What the filter input shows: the field criteria in square brackets, where
/// there are any, and the text of the input.
pub open spec fn filter_line(criteria: Seq<(Seq<char>, Seq<char>)>, input: Seq<char>) -> Seq<char> {
    if criteria.len() == 0 {
        input
    } else {
        "["@ + criteria_text(criteria) + "] "@ + input
    }
}

impl FilterCriteria {
    /// What the filter input shows.
    pub fn display_text(&self, input: &str) -> (shown: String)
        ensures
            shown@ == filter_line(self@, input@),
    {
        let mut shown = String::new();
        if self.entries.len() > 0 {
            let mut parts: Vec<String> = Vec::new();
            let mut i: usize = 0;
            while i < self.entries.len()
                invariant
                    i <= self.entries.len(),
                    self.entries@.len() == self@.len(),
                    parts.len() == i,
                    forall|k: int|
                        0 <= k < i ==> parts@[k]@ == self@[k].0 + "="@ + self@[k].1,
                decreases self.entries.len() - i,
            {
                let mut part = String::new();
                part.append(self.entries[i].0.as_str());
                part.append("=");
                part.append(self.entries[i].1.as_str());
                assert(self@[i as int] == (self.entries@[i as int].0@, self.entries@[i as int].1@));
                parts.push(part);
                i += 1;
            }
            assert(parts.deep_view() =~= self@.map_values(
                |entry: (Seq<char>, Seq<char>)| entry.0 + "="@ + entry.1,
            ));
            shown.append("[");
            shown.append(join(&parts, ", ").as_str());
            shown.append("] ");
        }
        shown.append(input);
        assert(shown@ =~= filter_line(self@, input@));
        shown
    }
}

/// Decides whether `item` passes the free-text filter.
pub fn contains_text(item: &Item, text: &str) -> (yes: bool)
    ensures
        yes == matches_text(item@, text@),
{
    text.is_empty() || contains(item.sender.as_str(), text) || contains(
        item.member.as_str(),
        text,
    ) || contains(item.path.as_str(), text)
}

/// The records that pass both the field criteria and the free-text filter,
/// in their order. The input is left as it is.
pub fn filter_records(records: &Vec<Item>, criteria: &FilterCriteria, text: &str) -> (kept: Vec<
    Item,
>)
    ensures
        kept.deep_view() == records.deep_view().filter(admits(criteria@, text@)),
{
    let mut kept: Vec<Item> = Vec::new();
    let ghost all = records.deep_view();
    let ghost keep = admits(criteria@, text@);
    let mut i: usize = 0;
    assert(all.take(0) =~= Seq::<ItemView>::empty());
    assert(kept.deep_view() =~= Seq::<ItemView>::empty());
    while i < records.len()
        invariant
            i <= records.len(),
            all == records.deep_view(),
            keep == admits(criteria@, text@),
            kept.deep_view() == all.take(i as int).filter(keep),
        decreases records.len() - i,
    {
        let ghost before = kept.deep_view();
        let pass = criteria.passes(&records[i]) && contains_text(&records[i], text);
        if pass {
            kept.push(records[i].duplicate());
            assert(kept.deep_view() =~= before.push(records@[i as int]@));
        }
        i += 1;
        proof {
            let now = all.take(i as int);
            assert(now.drop_last() =~= all.take(i - 1));
            assert(now.last() == records@[i - 1]@);
            assert(keep(now.last()) == pass);
            reveal(Seq::filter);
        }
    }
    assert(all.take(records.len() as int) =~= all);
    kept
}

/// The conversation anchored at serial `anchor`: the records whose serial
/// or reply serial is `anchor`, in their order. The input is left as it is.
pub fn conversation(records: &Vec<Item>, anchor: &str) -> (kept: Vec<Item>)
    ensures
        kept.deep_view() == records.deep_view().filter(converses(anchor@)),
{
    let mut kept: Vec<Item> = Vec::new();
    let ghost all = records.deep_view();
    let ghost keep = converses(anchor@);
    let mut i: usize = 0;
    assert(all.take(0) =~= Seq::<ItemView>::empty());
    assert(kept.deep_view() =~= Seq::<ItemView>::empty());
    while i < records.len()
        invariant
            i <= records.len(),
            all == records.deep_view(),
            keep == converses(anchor@),
            kept.deep_view() == all.take(i as int).filter(keep),
        decreases records.len() - i,
    {
        let ghost before = kept.deep_view();
        let pass = same_text(records[i].serial.as_str(), anchor) || same_text(
            records[i].reply_serial.as_str(),
            anchor,
        );
        if pass {
            kept.push(records[i].duplicate());
            assert(kept.deep_view() =~= before.push(records@[i as int]@));
        }
        i += 1;
        proof {
            let now = all.take(i as int);
            assert(now.drop_last() =~= all.take(i - 1));
            assert(now.last() == records@[i - 1]@);
            assert(keep(now.last()) == pass);
            reveal(Seq::filter);
        }
    }
    assert(all.take(records.len() as int) =~= all);
    kept
}

/// No criteria pass every record; a criterion more is a condition more;
/// and a criterion on a name that names no field fails every record.
pub proof fn lemma_passes(
    record: ItemView,
    criteria: Seq<(Seq<char>, Seq<char>)>,
    field: Seq<char>,
    wanted: Seq<char>,
)
    ensures
        passes(record, Seq::empty()),
        passes(record, criteria.push((field, wanted))) <==> passes(record, criteria)
            && entry_passes(record, field, wanted),
        display_value(record, field) is None ==> !passes(record, criteria.push((field, wanted))),
{
    let more = criteria.push((field, wanted));
    if passes(record, more) {
        assert forall|i: int| 0 <= i < criteria.len() implies entry_passes(
            record,
            (#[trigger] criteria[i]).0,
            criteria[i].1,
        ) by {
            assert(more[i] == criteria[i]);
        }
        assert(more[criteria.len() as int] == (field, wanted));
    }
    if passes(record, criteria) && entry_passes(record, field, wanted) {
        assert forall|i: int| 0 <= i < more.len() implies entry_passes(
            record,
            (#[trigger] more[i]).0,
            more[i].1,
        ) by {
            if i < criteria.len() {
                assert(more[i] == criteria[i]);
            }
        }
    }
}

/// The conversation anchored at a serial holds exactly the records whose
/// serial is the anchor and those whose reply serial is: no other record,
/// and none of these left out.
pub proof fn lemma_conversation_members(records: Seq<ItemView>, anchor: Seq<char>)
    ensures
        forall|record: ItemView|
            #[trigger] records.filter(converses(anchor)).contains(record) <==> records.contains(
                record,
            ) && (record.serial == anchor || record.reply_serial == anchor),
{
    let keep = converses(anchor);
    let kept = records.filter(keep);
    assert forall|record: ItemView| #[trigger]
        kept.contains(record) <==> records.contains(record) && (record.serial == anchor
            || record.reply_serial == anchor) by {
        if kept.contains(record) {
            let i = choose|i: int| 0 <= i < kept.len() && kept[i] == record;
            records.lemma_filter_pred(keep, i);
            records.lemma_filter_contains_rev(keep, record);
        }
        if records.contains(record) && keep(record) {
            let i = choose|i: int| 0 <= i < records.len() && records[i] == record;
            records.lemma_filter_contains(keep, i);
        }
    }
}

} // verus!
