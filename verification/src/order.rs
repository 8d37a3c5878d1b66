//! Ordering: the composite order of records under a list of grouping
//! dimensions, and the stable sort that arranges records by it.

use crate::bus::{GroupingType, Item, ItemView};
use crate::text::{
    compare_text, lemma_text_order_sign, lemma_text_order_transitive, text_order,
};
use vstd::prelude::*;

verus! {

/// The text by which a record is placed along one dimension. Along the
/// sender dimension that is the name of the sending executable, not the raw
/// endpoint identifier; `Ungrouped` places every record alike.
pub open spec fn group_key(record: ItemView, key: GroupingType) -> Seq<char> {
    match key {
        GroupingType::Sender => record.app_name,
        GroupingType::Member => record.member,
        GroupingType::Path => record.path,
        GroupingType::Serial => record.serial,
        GroupingType::Ungrouped => Seq::empty(),
    }
}

/// The order of two records along the dimensions of `keys`, the first
/// dimension on which they differ deciding: negative where `a` comes first,
/// positive where `b` does, zero where they agree on every dimension.
pub open spec fn keys_order(a: ItemView, b: ItemView, keys: Seq<GroupingType>) -> int
    decreases keys.len(),
{
    if keys.len() == 0 {
        0
    } else {
        let first = text_order(group_key(a, keys[0]), group_key(b, keys[0]));
        if first != 0 {
            first
        } else {
            keys_order(a, b, keys.drop_first())
        }
    }
}

/// The order of two capture instants.
pub open spec fn time_order(a: u64, b: u64) -> int {
    if a < b {
        -1
    } else if a > b {
        1
    } else {
        0
    }
}

/// The composite order of two records: by the grouping dimensions in their
/// order, and by capture instant where the records agree on all of them.
pub open spec fn record_order(a: ItemView, b: ItemView, keys: Seq<GroupingType>) -> int {
    let by_keys = keys_order(a, b, keys);
    if by_keys != 0 {
        by_keys
    } else {
        time_order(a.timestamp, b.timestamp)
    }
}

/// Whether the record at `i` is placed before the record at `j`: it comes
/// first in the composite order, or the two are equal in it and `i` stood
/// before `j`.
pub open spec fn comes_before(
    records: Seq<ItemView>,
    keys: Seq<GroupingType>,
    i: int,
    j: int,
) -> bool {
    let order = record_order(records[i], records[j], keys);
    order < 0 || (order == 0 && i < j)
}

/// Whether `order` arranges all records by the composite order, stably: it
/// lists every position of `records` once, each entry placed before all that
/// follow it.
pub open spec fn is_sorted_order(
    records: Seq<ItemView>,
    keys: Seq<GroupingType>,
    order: Seq<usize>,
) -> bool {
    &&& order.len() == records.len()
    &&& forall|k: int| 0 <= k < order.len() ==> 0 <= #[trigger] order[k] < records.len()
    &&& forall|i: usize| i < records.len() ==> #[trigger] order.contains(i)
    &&& forall|a: int, b: int|
        0 <= a < b < order.len() ==> comes_before(
            records,
            keys,
            #[trigger] order[a] as int,
            #[trigger] order[b] as int,
        )
}

/// Whether `order` arranges the records at the positions from `lo` up to
/// `hi`, stably: it lists each of these positions once, each entry placed
/// before all that follow it.
pub open spec fn sorts_range(
    records: Seq<ItemView>,
    keys: Seq<GroupingType>,
    order: Seq<usize>,
    lo: int,
    hi: int,
) -> bool {
    &&& order.len() == hi - lo
    &&& forall|k: int| 0 <= k < order.len() ==> lo <= #[trigger] order[k] < hi
    &&& forall|i: usize| lo <= i < hi ==> #[trigger] order.contains(i)
    &&& forall|a: int, b: int|
        0 <= a < b < order.len() ==> comes_before(
            records,
            keys,
            #[trigger] order[a] as int,
            #[trigger] order[b] as int,
        )
}

/// The records at the positions that `order` lists, in that order.
pub open spec fn arranged(records: Seq<ItemView>, order: Seq<usize>) -> Seq<ItemView> {
    Seq::new(order.len(), |k: int| records[order[k] as int])
}

/// The order along grouping dimensions is -1, 0 or 1, swapping the records
/// swaps its sign, and it is transitive.
pub proof fn lemma_keys_order(a: ItemView, b: ItemView, c: ItemView, keys: Seq<GroupingType>)
    ensures
        -1 <= keys_order(a, b, keys) <= 1,
        keys_order(b, a, keys) == -keys_order(a, b, keys),
        keys_order(a, b, keys) <= 0 && keys_order(b, c, keys) <= 0 ==> keys_order(a, c, keys)
            <= 0,
        keys_order(a, b, keys) <= 0 && keys_order(b, c, keys) <= 0 && (keys_order(a, b, keys) < 0
            || keys_order(b, c, keys) < 0) ==> keys_order(a, c, keys) < 0,
        keys_order(a, b, keys) == 0 && keys_order(b, c, keys) == 0 ==> keys_order(a, c, keys)
            == 0,
    decreases keys.len(),
{
    if keys.len() > 0 {
        let ka = group_key(a, keys[0]);
        let kb = group_key(b, keys[0]);
        let kc = group_key(c, keys[0]);
        lemma_text_order_sign(ka, kb);
        lemma_text_order_sign(kb, kc);
        lemma_text_order_sign(ka, kc);
        lemma_keys_order(a, b, c, keys.drop_first());
        if text_order(ka, kb) <= 0 && text_order(kb, kc) <= 0 {
            lemma_text_order_transitive(ka, kb, kc);
        }
    }
}

/// The composite order is -1, 0 or 1, swapping the records swaps its sign,
/// and it is transitive.
pub proof fn lemma_record_order(a: ItemView, b: ItemView, c: ItemView, keys: Seq<GroupingType>)
    ensures
        -1 <= record_order(a, b, keys) <= 1,
        record_order(b, a, keys) == -record_order(a, b, keys),
        record_order(a, b, keys) <= 0 && record_order(b, c, keys) <= 0 ==> record_order(
            a,
            c,
            keys,
        ) <= 0,
        record_order(a, b, keys) <= 0 && record_order(b, c, keys) <= 0 && (record_order(
            a,
            b,
            keys,
        ) < 0 || record_order(b, c, keys) < 0) ==> record_order(a, c, keys) < 0,
{
    lemma_keys_order(a, b, c, keys);
}

/// Placement is a strict total order on positions: no position comes before
/// itself, of two positions one comes before the other, and placement is
/// transitive.
pub proof fn lemma_comes_before(
    records: Seq<ItemView>,
    keys: Seq<GroupingType>,
    i: int,
    j: int,
    k: int,
)
    ensures
        !comes_before(records, keys, i, i),
        i != j ==> (comes_before(records, keys, i, j) <==> !comes_before(records, keys, j, i)),
        comes_before(records, keys, i, j) && comes_before(records, keys, j, k) ==> comes_before(
            records,
            keys,
            i,
            k,
        ),
{
    lemma_record_order(records[i], records[i], records[i], keys);
    lemma_record_order(records[i], records[j], records[k], keys);
}

/// Two arrangements of the same records under the same dimensions agree up
/// to any position.
proof fn lemma_sorted_orders_agree(
    records: Seq<ItemView>,
    keys: Seq<GroupingType>,
    first: Seq<usize>,
    second: Seq<usize>,
    upto: int,
)
    requires
        is_sorted_order(records, keys, first),
        is_sorted_order(records, keys, second),
        0 <= upto <= records.len(),
    ensures
        forall|k: int| 0 <= k < upto ==> first[k] == second[k],
    decreases upto,
{
    if upto > 0 {
        lemma_sorted_orders_agree(records, keys, first, second, upto - 1);
        let k = upto - 1;
        let x = first[k];
        let y = second[k];
        if x != y {
            lemma_comes_before(records, keys, x as int, y as int, x as int);
            lemma_comes_before(records, keys, y as int, y as int, y as int);
            assert(second.contains(x));
            let p = choose|p: int| 0 <= p < second.len() && second[p] == x;
            assert(first.contains(y));
            let q = choose|q: int| 0 <= q < first.len() && first[q] == y;
            if p < k {
                assert(first[p] == x);
                assert(comes_before(records, keys, first[p] as int, first[k] as int));
            } else if q < k {
                assert(second[q] == y);
                assert(comes_before(records, keys, second[q] as int, second[k] as int));
            } else {
                assert(comes_before(records, keys, second[k] as int, second[p] as int));
                assert(comes_before(records, keys, first[k] as int, first[q] as int));
            }
        }
    }
}

/// There is one stable arrangement of given records under given dimensions.
pub proof fn lemma_sorted_order_is_unique(
    records: Seq<ItemView>,
    keys: Seq<GroupingType>,
    first: Seq<usize>,
    second: Seq<usize>,
)
    requires
        is_sorted_order(records, keys, first),
        is_sorted_order(records, keys, second),
    ensures
        first == second,
{
    lemma_sorted_orders_agree(records, keys, first, second, records.len() as int);
    assert(first =~= second);
}

/// Where a further record goes into an arrangement: behind the last entry
/// that does not come after it in the composite order.
pub open spec fn insertion_point(
    records: Seq<ItemView>,
    keys: Seq<GroupingType>,
    order: Seq<usize>,
    further: int,
) -> int
    decreases order.len(),
{
    if order.len() == 0 {
        0
    } else if record_order(records[order.last() as int], records[further], keys) <= 0 {
        order.len() as int
    } else {
        insertion_point(records, keys, order.drop_last(), further)
    }
}

proof fn lemma_insertion_point(
    records: Seq<ItemView>,
    keys: Seq<GroupingType>,
    order: Seq<usize>,
    further: int,
)
    ensures
        0 <= insertion_point(records, keys, order, further) <= order.len(),
        insertion_point(records, keys, order, further) > 0 ==> record_order(
            records[order[insertion_point(records, keys, order, further) - 1] as int],
            records[further],
            keys,
        ) <= 0,
        forall|k: int|
            insertion_point(records, keys, order, further) <= k < order.len() ==> record_order(
                records[#[trigger] order[k] as int],
                records[further],
                keys,
            ) > 0,
    decreases order.len(),
{
    if order.len() > 0 && record_order(records[order.last() as int], records[further], keys)
        > 0 {
        lemma_insertion_point(records, keys, order.drop_last(), further);
        let p = insertion_point(records, keys, order, further);
        assert forall|k: int| p <= k < order.len() implies record_order(
            records[#[trigger] order[k] as int],
            records[further],
            keys,
        ) > 0 by {
            if k < order.len() - 1 {
                assert(order.drop_last()[k] == order[k]);
            }
        }
        if p > 0 {
            assert(order.drop_last()[p - 1] == order[p - 1]);
        }
    }
}

/// Records that a machine can index have a stable arrangement under any
/// dimensions.
pub proof fn lemma_sorted_order_exists(records: Seq<ItemView>, keys: Seq<GroupingType>)
    requires
        records.len() <= usize::MAX,
    ensures
        exists|order: Seq<usize>| is_sorted_order(records, keys, order),
    decreases records.len(),
{
    if records.len() == 0 {
        assert(is_sorted_order(records, keys, Seq::<usize>::empty()));
    } else {
        let earlier = records.drop_last();
        lemma_sorted_order_exists(earlier, keys);
        let before = choose|order: Seq<usize>| is_sorted_order(earlier, keys, order);
        let further = (records.len() - 1) as usize;
        let p = insertion_point(records, keys, before, further as int);
        lemma_insertion_point(records, keys, before, further as int);
        let order = before.insert(p, further);
        assert forall|k: int| 0 <= k < order.len() implies 0 <= #[trigger] order[k]
            < records.len() by {
            if k < p {
                assert(order[k] == before[k]);
            } else if k > p {
                assert(order[k] == before[k - 1]);
            }
        }
        assert forall|i: usize| i < records.len() implies #[trigger] order.contains(i) by {
            if i == further {
                assert(order[p] == i);
            } else {
                assert(before.contains(i));
                let w = choose|w: int| 0 <= w < before.len() && before[w] == i;
                if w < p {
                    assert(order[w] == i);
                } else {
                    assert(order[w + 1] == i);
                }
            }
        }
        assert forall|a: int, b: int| 0 <= a < b < order.len() implies comes_before(
            records,
            keys,
            #[trigger] order[a] as int,
            #[trigger] order[b] as int,
        ) by {
            let x = order[a] as int;
            let y = order[b] as int;
            if b == p {
                assert(order[a] == before[a]);
                assert(record_order(records[before[p - 1] as int], records[further as int], keys)
                    <= 0);
                if a < p - 1 {
                    assert(comes_before(earlier, keys, before[a] as int, before[p - 1] as int));
                    assert(earlier[before[a] as int] == records[before[a] as int]);
                    assert(earlier[before[p - 1] as int] == records[before[p - 1] as int]);
                    lemma_record_order(
                        records[before[a] as int],
                        records[before[p - 1] as int],
                        records[further as int],
                        keys,
                    );
                }
            } else if a == p {
                assert(order[b] == before[b - 1]);
                lemma_record_order(records[y], records[x], records[x], keys);
            } else {
                let a0 = if a < p {
                    a
                } else {
                    a - 1
                };
                let b0 = if b < p {
                    b
                } else {
                    b - 1
                };
                assert(order[a] == before[a0]);
                assert(order[b] == before[b0]);
                assert(comes_before(earlier, keys, before[a0] as int, before[b0] as int));
                assert(earlier[x] == records[x]);
                assert(earlier[y] == records[y]);
            }
        }
        assert(is_sorted_order(records, keys, order));
    }
}

/// The stable arrangement of records is an arrangement: it holds each
/// record once, the records are in the composite order, and records that
/// agree on every dimension are in the order of their capture instants.
pub proof fn lemma_stably_sorted(records: Seq<ItemView>, keys: Seq<GroupingType>)
    requires
        records.len() <= usize::MAX,
    ensures
        stably_sorted(records, keys).len() == records.len(),
        stably_sorted(records, keys).to_multiset() == records.to_multiset(),
        forall|a: int, b: int|
            0 <= a < b < records.len() ==> record_order(
                #[trigger] stably_sorted(records, keys)[a],
                #[trigger] stably_sorted(records, keys)[b],
                keys,
            ) <= 0,
        forall|a: int, b: int|
            0 <= a < b < records.len() && keys_order(
                #[trigger] stably_sorted(records, keys)[a],
                #[trigger] stably_sorted(records, keys)[b],
                keys,
            ) == 0 ==> stably_sorted(records, keys)[a].timestamp <= stably_sorted(
                records,
                keys,
            )[b].timestamp,
{
    lemma_sorted_order_exists(records, keys);
    let order = choose|order: Seq<usize>| is_sorted_order(records, keys, order);
    let sorted = stably_sorted(records, keys);
    assert forall|a: int, b: int| 0 <= a < b < records.len() implies record_order(
        #[trigger] sorted[a],
        #[trigger] sorted[b],
        keys,
    ) <= 0 by {
        assert(comes_before(records, keys, order[a] as int, order[b] as int));
    }
    lemma_arranged_is_a_permutation(records, order);
}

/// Records arranged by a list that names each position once are the same
/// records, each as often as before.
proof fn lemma_arranged_is_a_permutation(records: Seq<ItemView>, order: Seq<usize>)
    requires
        records.len() <= usize::MAX + 1,
        order.len() == records.len(),
        forall|k: int| 0 <= k < order.len() ==> 0 <= #[trigger] order[k] < records.len(),
        forall|i: usize| i < records.len() ==> #[trigger] order.contains(i),
    ensures
        arranged(records, order).to_multiset() == records.to_multiset(),
    decreases records.len(),
{
    let out = arranged(records, order);
    if records.len() == 0 {
        assert(out =~= records);
    } else {
        let last = (records.len() - 1) as usize;
        assert(order.contains(last));
        let p = choose|p: int| 0 <= p < order.len() && order[p] == last;
        lemma_no_position_twice(order, records.len() as int);
        let fewer = order.remove(p);
        let earlier = records.drop_last();
        assert forall|k: int| 0 <= k < fewer.len() implies 0 <= #[trigger] fewer[k]
            < earlier.len() by {
            let k0 = if k < p {
                k
            } else {
                k + 1
            };
            assert(fewer[k] == order[k0]);
            assert(order[k0] != order[p]);
        }
        assert forall|i: usize| i < earlier.len() implies #[trigger] fewer.contains(i) by {
            assert(order.contains(i));
            let w = choose|w: int| 0 <= w < order.len() && order[w] == i;
            if w < p {
                assert(fewer[w] == i);
            } else {
                assert(fewer[w - 1] == i);
            }
        }
        lemma_arranged_is_a_permutation(earlier, fewer);
        let rest = out.remove(p);
        assert(arranged(earlier, fewer) =~= rest);
        assert(out[p] == records.last());
        assert(out =~= rest.insert(p, out[p]));
        vstd::seq_lib::to_multiset_insert(rest, p, out[p]);
        assert(records =~= earlier.push(records.last()));
        vstd::seq_lib::to_multiset_build(earlier, records.last());
    }
}

/// A list of as many positions as there are, which names each of them,
/// names none twice.
proof fn lemma_no_position_twice(order: Seq<usize>, len: int)
    requires
        len <= usize::MAX + 1,
        order.len() == len,
        forall|k: int| 0 <= k < order.len() ==> 0 <= #[trigger] order[k] < len,
        forall|i: usize| i < len ==> #[trigger] order.contains(i),
    ensures
        forall|a: int, b: int|
            0 <= a < b < order.len() ==> #[trigger] order[a] != #[trigger] order[b],
    decreases len,
{
    if len > 0 {
        assert forall|a: int, b: int| 0 <= a < b < order.len() implies #[trigger] order[a]
            != #[trigger] order[b] by {
            if order[a] == order[b] {
                // Without the entry at `b` the list still names every position,
                // which one entry fewer than there are positions cannot do.
                let fewer = order.remove(b);
                assert forall|i: usize| i < len implies #[trigger] fewer.contains(i) by {
                    assert(order.contains(i));
                    let w = choose|w: int| 0 <= w < order.len() && order[w] == i;
                    let w0 = if w == b {
                        a
                    } else {
                        w
                    };
                    if w0 < b {
                        assert(fewer[w0] == i);
                    } else {
                        assert(fewer[w0 - 1] == i);
                    }
                }
                lemma_entries_for_all_positions(fewer, len);
            }
        }
    }
}

/// A list that names every one of `len` positions has `len` entries or
/// more.
proof fn lemma_entries_for_all_positions(entries: Seq<usize>, len: int)
    requires
        len <= usize::MAX + 1,
        forall|i: usize| i < len ==> #[trigger] entries.contains(i),
    ensures
        entries.len() >= len,
    decreases len,
{
    if len > 0 {
        let last = (len - 1) as usize;
        assert(entries.contains(last));
        let p = choose|p: int| 0 <= p < entries.len() && entries[p] == last;
        let fewer = entries.remove(p);
        assert forall|i: usize| i < len - 1 implies #[trigger] fewer.contains(i) by {
            assert(entries.contains(i));
            let w = choose|w: int| 0 <= w < entries.len() && entries[w] == i;
            if w < p {
                assert(fewer[w] == i);
            } else {
                assert(fewer[w - 1] == i);
            }
        }
        lemma_entries_for_all_positions(fewer, len - 1);
    }
}

/// The records in their stable arrangement under `keys`: sorted by the
/// grouping dimensions in their order and by capture instant among records
/// that agree on all of them, records that are equal in this order staying
/// in the order in which they stood.
pub open spec fn stably_sorted(records: Seq<ItemView>, keys: Seq<GroupingType>) -> Seq<ItemView> {
    arranged(records, choose|order: Seq<usize>| is_sorted_order(records, keys, order))
}

/// Both buses in one view: the records of `first` followed by those of
/// `second`, stably sorted by capture instant.
pub open spec fn merged(first: Seq<ItemView>, second: Seq<ItemView>) -> Seq<ItemView> {
    stably_sorted(first + second, Seq::empty())
}

/// Compares two records along the grouping dimensions alone.
pub fn compare_groups(a: &Item, b: &Item, keys: &Vec<GroupingType>) -> (order: i8)
    ensures
        order == keys_order(a@, b@, keys@),
{
    let mut i: usize = 0;
    assert(keys@.skip(0) =~= keys@);
    while i < keys.len()
        invariant
            i <= keys.len(),
            keys_order(a@, b@, keys@) == keys_order(a@, b@, keys@.skip(i as int)),
        decreases keys.len() - i,
    {
        assert(keys@.skip(i as int)[0] == keys@[i as int]);
        assert(keys@.skip(i as int).drop_first() =~= keys@.skip(i + 1));
        let first: i8 = match keys[i] {
            GroupingType::Sender => compare_text(a.app_name.as_str(), b.app_name.as_str()),
            GroupingType::Member => compare_text(a.member.as_str(), b.member.as_str()),
            GroupingType::Path => compare_text(a.path.as_str(), b.path.as_str()),
            GroupingType::Serial => compare_text(a.serial.as_str(), b.serial.as_str()),
            GroupingType::Ungrouped => 0,
        };
        if first != 0 {
            return first;
        }
        i += 1;
    }
    0
}

/// Compares two records in the composite order.
pub fn compare_records(a: &Item, b: &Item, keys: &Vec<GroupingType>) -> (order: i8)
    ensures
        order == record_order(a@, b@, keys@),
{
    let by_keys = compare_groups(a, b, keys);
    if by_keys != 0 {
        by_keys
    } else if a.timestamp < b.timestamp {
        -1
    } else if a.timestamp > b.timestamp {
        1
    } else {
        0
    }
}

fn merge(
    records: &Vec<Item>,
    keys: &Vec<GroupingType>,
    left: &Vec<usize>,
    right: &Vec<usize>,
    Ghost(lo): Ghost<int>,
    Ghost(mid): Ghost<int>,
    Ghost(hi): Ghost<int>,
) -> (out: Vec<usize>)
    requires
        0 <= lo <= mid <= hi <= records.len(),
        sorts_range(records.deep_view(), keys@, left@, lo, mid),
        sorts_range(records.deep_view(), keys@, right@, mid, hi),
    ensures
        sorts_range(records.deep_view(), keys@, out@, lo, hi),
{
    let ghost views = records.deep_view();
    let mut out: Vec<usize> = Vec::new();
    let mut i: usize = 0;
    let mut j: usize = 0;
    while i < left.len() || j < right.len()
        invariant
            0 <= lo <= mid <= hi <= records.len(),
            views == records.deep_view(),
            sorts_range(views, keys@, left@, lo, mid),
            sorts_range(views, keys@, right@, mid, hi),
            i <= left.len(),
            j <= right.len(),
            out.len() == i + j,
            forall|k: int| 0 <= k < out.len() ==> lo <= #[trigger] out@[k] < hi,
            forall|a: int| 0 <= a < i ==> out@.contains(#[trigger] left@[a]),
            forall|b: int| 0 <= b < j ==> out@.contains(#[trigger] right@[b]),
            forall|a: int, b: int|
                0 <= a < b < out.len() ==> comes_before(
                    views,
                    keys@,
                    #[trigger] out@[a] as int,
                    #[trigger] out@[b] as int,
                ),
            forall|a: int, b: int|
                0 <= a < out.len() && i <= b < left.len() ==> comes_before(
                    views,
                    keys@,
                    #[trigger] out@[a] as int,
                    #[trigger] left@[b] as int,
                ),
            forall|a: int, b: int|
                0 <= a < out.len() && j <= b < right.len() ==> comes_before(
                    views,
                    keys@,
                    #[trigger] out@[a] as int,
                    #[trigger] right@[b] as int,
                ),
        decreases left.len() - i + right.len() - j,
    {
        let ghost before = out@;
        let take_left: bool = if j >= right.len() {
            true
        } else if i >= left.len() {
            false
        } else {
            assert(lo <= left@[i as int] < mid && mid <= right@[j as int] < hi);
            compare_records(&records[left[i]], &records[right[j]], keys) <= 0
        };
        if take_left {
            let x: usize = left[i];
            assert(lo <= left@[i as int] < mid);
            out.push(x);
            proof {
                assert forall|b: int| j <= b < right.len() implies comes_before(
                    views,
                    keys@,
                    x as int,
                    #[trigger] right@[b] as int,
                ) by {
                    assert(mid <= right@[j as int] < hi);
                    assert(comes_before(views, keys@, x as int, right@[j as int] as int));
                    if b > j {
                        lemma_comes_before(
                            views,
                            keys@,
                            x as int,
                            right@[j as int] as int,
                            right@[b] as int,
                        );
                    }
                }
            }
            i += 1;
        } else {
            let y: usize = right[j];
            assert(mid <= right@[j as int] < hi);
            out.push(y);
            proof {
                assert forall|b: int| i <= b < left.len() implies comes_before(
                    views,
                    keys@,
                    y as int,
                    #[trigger] left@[b] as int,
                ) by {
                    assert(lo <= left@[i as int] < mid);
                    lemma_record_order(
                        views[left@[i as int] as int],
                        views[y as int],
                        views[y as int],
                        keys@,
                    );
                    assert(comes_before(views, keys@, y as int, left@[i as int] as int));
                    if b > i {
                        lemma_comes_before(
                            views,
                            keys@,
                            y as int,
                            left@[i as int] as int,
                            left@[b] as int,
                        );
                    }
                }
            }
            j += 1;
        }
        proof {
            assert forall|a: int| 0 <= a < i implies out@.contains(#[trigger] left@[a]) by {
                if before.contains(left@[a]) {
                    let w = choose|w: int| 0 <= w < before.len() && before[w] == left@[a];
                    assert(out@[w] == left@[a]);
                } else {
                    assert(out@[before.len() as int] == left@[a]);
                }
            }
            assert forall|b: int| 0 <= b < j implies out@.contains(#[trigger] right@[b]) by {
                if before.contains(right@[b]) {
                    let w = choose|w: int| 0 <= w < before.len() && before[w] == right@[b];
                    assert(out@[w] == right@[b]);
                } else {
                    assert(out@[before.len() as int] == right@[b]);
                }
            }
        }
    }
    proof {
        assert forall|x: usize| lo <= x < hi implies #[trigger] out@.contains(x) by {
            if x < mid {
                assert(left@.contains(x));
                let a = choose|a: int| 0 <= a < left@.len() && left@[a] == x;
                assert(out@.contains(left@[a]));
            } else {
                assert(right@.contains(x));
                let b = choose|b: int| 0 <= b < right@.len() && right@[b] == x;
                assert(out@.contains(right@[b]));
            }
        }
    }
    out
}

fn sort_range(records: &Vec<Item>, keys: &Vec<GroupingType>, lo: usize, hi: usize) -> (out: Vec<
    usize,
>)
    requires
        lo <= hi <= records.len(),
    ensures
        sorts_range(records.deep_view(), keys@, out@, lo as int, hi as int),
    decreases hi - lo,
{
    if hi - lo == 0 {
        Vec::new()
    } else if hi - lo == 1 {
        let mut out: Vec<usize> = Vec::new();
        out.push(lo);
        assert(out@[0] == lo);
        out
    } else {
        let mid: usize = lo + (hi - lo) / 2;
        let left = sort_range(records, keys, lo, mid);
        let right = sort_range(records, keys, mid, hi);
        merge(records, keys, &left, &right, Ghost(lo as int), Ghost(mid as int), Ghost(hi as int))
    }
}

/// The stable arrangement of `records` by the composite order under `keys`:
/// the positions of the records, each once, in the order in which the
/// records are to stand.
pub fn sort_order(records: &Vec<Item>, keys: &Vec<GroupingType>) -> (order: Vec<usize>)
    ensures
        is_sorted_order(records.deep_view(), keys@, order@),
{
    sort_range(records, keys, 0, records.len())
}

/// Copies of the records at the positions that `order` lists, in that order.
pub fn arrange(records: &Vec<Item>, order: &Vec<usize>) -> (out: Vec<Item>)
    requires
        forall|k: int| 0 <= k < order.len() ==> #[trigger] order@[k] < records.len(),
    ensures
        out.deep_view() == arranged(records.deep_view(), order@),
{
    let mut out: Vec<Item> = Vec::new();
    let mut k: usize = 0;
    while k < order.len()
        invariant
            k <= order.len(),
            out.len() == k,
            forall|k: int| 0 <= k < order.len() ==> #[trigger] order@[k] < records.len(),
            forall|m: int| 0 <= m < k ==> out@[m]@ == records@[order@[m] as int]@,
        decreases order.len() - k,
    {
        out.push(records[order[k]].duplicate());
        k += 1;
    }
    assert(out.deep_view() =~= arranged(records.deep_view(), order@));
    out
}

/// The records sorted by the grouping dimensions of `keys` in their order,
/// and by capture instant among records that agree on all of them. The sort
/// is stable: records that are equal in this order stay in the order in
/// which they stood.
pub fn sort_records(records: &Vec<Item>, keys: &Vec<GroupingType>) -> (sorted: Vec<Item>)
    ensures
        sorted.deep_view() == stably_sorted(records.deep_view(), keys@),
        sorted.len() == records.len(),
        forall|a: int, b: int|
            0 <= a < b < sorted.len() ==> record_order(
                #[trigger] sorted@[a]@,
                #[trigger] sorted@[b]@,
                keys@,
            ) <= 0,
        forall|a: int, b: int|
            0 <= a < b < sorted.len() && keys_order(
                #[trigger] sorted@[a]@,
                #[trigger] sorted@[b]@,
                keys@,
            ) == 0 ==> sorted@[a]@.timestamp <= sorted@[b]@.timestamp,
{
    let order = sort_order(records, keys);
    let sorted = arrange(records, &order);
    proof {
        let views = records.deep_view();
        let chosen = choose|order: Seq<usize>| is_sorted_order(views, keys@, order);
        lemma_sorted_order_is_unique(views, keys@, order@, chosen);
        assert(sorted.deep_view().len() == sorted.len());
        assert forall|a: int, b: int| 0 <= a < b < sorted.len() implies record_order(
            #[trigger] sorted@[a]@,
            #[trigger] sorted@[b]@,
            keys@,
        ) <= 0 by {
            assert(sorted.deep_view()[a] == views[order@[a] as int]);
            assert(sorted.deep_view()[b] == views[order@[b] as int]);
            assert(comes_before(views, keys@, order@[a] as int, order@[b] as int));
        }
    }
    sorted
}

/// Both buses in one view: the records of `first` followed by those of
/// `second`, stably sorted by capture instant. Records captured at the same
/// instant keep their order, those of `first` before those of `second`.
pub fn merge_views(first: &Vec<Item>, second: &Vec<Item>) -> (all: Vec<Item>)
    ensures
        all.deep_view() == merged(first.deep_view(), second.deep_view()),
        all.len() == first.len() + second.len(),
        forall|a: int, b: int|
            0 <= a < b < all.len() ==> (#[trigger] all@[a]@).timestamp <= (
            #[trigger] all@[b]@).timestamp,
{
    let mut both: Vec<Item> = Vec::new();
    let mut i: usize = 0;
    while i < first.len()
        invariant
            i <= first.len(),
            both.len() == i,
            forall|m: int| 0 <= m < i ==> both@[m]@ == first@[m]@,
        decreases first.len() - i,
    {
        both.push(first[i].duplicate());
        i += 1;
    }
    let mut j: usize = 0;
    while j < second.len()
        invariant
            j <= second.len(),
            both.len() == first.len() + j,
            forall|m: int| 0 <= m < first.len() ==> both@[m]@ == first@[m]@,
            forall|m: int| 0 <= m < j ==> both@[first.len() + m]@ == second@[m]@,
        decreases second.len() - j,
    {
        both.push(second[j].duplicate());
        j += 1;
    }
    assert(both.deep_view() =~= first.deep_view() + second.deep_view());
    let keys: Vec<GroupingType> = Vec::new();
    let all = sort_records(&both, &keys);
    proof {
        assert(keys@ =~= Seq::<GroupingType>::empty());
        assert forall|a: int, b: int| 0 <= a < b < all.len() implies (
        #[trigger] all@[a]@).timestamp <= (#[trigger] all@[b]@).timestamp by {
            assert(record_order(all@[a]@, all@[b]@, keys@) <= 0);
        }
    }
    all
}

} // verus!
