//! The retention store: the records of one bus, oldest first, bounded from
//! time to time by dropping the oldest.

use crate::bus::{Item, ItemView};
use vstd::prelude::*;

verus! {

/// What is left of `records` under a ceiling of `max`: all of them where
/// they are no more than `max`, else the `max` most recent, in their order.
pub open spec fn retained<T>(records: Seq<T>, max: nat) -> Seq<T> {
    if records.len() > max {
        records.subrange(records.len() - max, records.len() as int)
    } else {
        records
    }
}

/// A copy of a list of records.
pub fn duplicate_items(items: &Vec<Item>) -> (copy: Vec<Item>)
    ensures
        copy.deep_view() == items.deep_view(),
{
    let mut copy: Vec<Item> = Vec::new();
    let mut i: usize = 0;
    while i < items.len()
        invariant
            i <= items.len(),
            copy.len() == i,
            forall|j: int| 0 <= j < i ==> copy@[j]@ == items@[j]@,
        decreases items.len() - i,
    {
        copy.push(items[i].duplicate());
        i += 1;
    }
    assert(copy.deep_view() =~= items.deep_view());
    copy
}

/// The records retained of one bus, in the order of their arrival.
pub struct RetentionStore {
    items: Vec<Item>,
}

impl View for RetentionStore {
    type V = Seq<ItemView>;

    closed spec fn view(&self) -> Seq<ItemView> {
        self.items.deep_view()
    }
}

impl RetentionStore {
    /// An empty store.
    pub fn new() -> (store: RetentionStore)
        ensures
            store@ == Seq::<ItemView>::empty(),
    {
        let store = RetentionStore { items: Vec::new() };
        assert(store@ =~= Seq::<ItemView>::empty());
        store
    }

    /// Adds a record at the tail.
    pub fn append(&mut self, item: Item)
        ensures
            final(self)@ == old(self)@.push(item@),
    {
        self.items.push(item);
        assert(self@ =~= old(self)@.push(item@));
    }

    /// Adds a batch of records at the tail, in their order.
    pub fn append_all(&mut self, batch: Vec<Item>)
        ensures
            final(self)@ == old(self)@ + batch.deep_view(),
    {
        let ghost added = batch.deep_view();
        let mut rest = batch;
        self.items.append(&mut rest);
        assert(self@ =~= old(self)@ + added);
    }

    /// The records as they stand.
    pub fn records(&self) -> (records: &Vec<Item>)
        ensures
            records.deep_view() == self@,
    {
        &self.items
    }

    /// Drops the oldest records in one batch, so that at most `max` are left.
    pub fn evict_excess(&mut self, max: usize)
        ensures
            final(self)@ == retained(old(self)@, max as nat),
    {
        let len: usize = self.items.len();
        if len > max {
            let kept = self.items.split_off(len - max);
            self.items = kept;
            assert(self@ =~= retained(old(self)@, max as nat));
        }
    }

    /// The number of records in the store.
    pub fn len(&self) -> (len: usize)
        ensures
            len == self@.len(),
    {
        self.items.len()
    }

    /// Whether the store holds no record.
    pub fn is_empty(&self) -> (empty: bool)
        ensures
            empty == (self@.len() == 0),
    {
        self.items.len() == 0
    }

    /// Drops every record.
    pub fn clear(&mut self)
        ensures
            final(self)@ == Seq::<ItemView>::empty(),
    {
        self.items.clear();
        assert(self@ =~= Seq::<ItemView>::empty());
    }

    /// A copy of the records as they stand, for the pipeline to work on.
    pub fn snapshot(&self) -> (records: Vec<Item>)
        ensures
            records.deep_view() == self@,
    {
        duplicate_items(&self.items)
    }
}

/// After any sequence of appends to an empty store and one eviction, the
/// store holds as many records as were appended or `max`, whichever is
/// less, and they are the most recently appended, in their order.
pub proof fn lemma_eviction_keeps_most_recent<T>(appended: Seq<T>, max: nat)
    ensures
        retained(appended, max).len() == if appended.len() <= max {
            appended.len()
        } else {
            max
        },
        forall|i: int|
            0 <= i < retained(appended, max).len() ==> #[trigger] retained(appended, max)[i]
                == appended[appended.len() - retained(appended, max).len() + i],
{
}

/// Evicting after each batch leaves what one eviction at the end would
/// leave: the most recent `max` of everything that was ever appended.
pub proof fn lemma_eviction_by_batches<T>(earlier: Seq<T>, batch: Seq<T>, max: nat)
    ensures
        retained(retained(earlier, max) + batch, max) == retained(earlier + batch, max),
{
    assert(retained(retained(earlier, max) + batch, max) =~= retained(earlier + batch, max));
}

/// A store within its ceiling is left as it is, and evicting again changes
/// nothing.
pub proof fn lemma_eviction_is_idempotent<T>(records: Seq<T>, max: nat)
    ensures
        records.len() <= max ==> retained(records, max) == records,
        retained(retained(records, max), max) == retained(records, max),
{
}

} // verus!
