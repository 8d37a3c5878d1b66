//! Lists of entries under text keys, searched by key.

use vstd::prelude::*;

verus! {

/// Whether no key occurs twice.
pub open spec fn distinct_keys<V>(entries: Seq<(Seq<char>, V)>) -> bool {
    forall|i: int, j: int|
        0 <= i < j < entries.len() ==> (#[trigger] entries[i]).0 != (#[trigger] entries[j]).0
}

/// The position of the first entry under `key`, or the length where there
/// is none.
pub open spec fn position_of<V>(entries: Seq<(Seq<char>, V)>, key: Seq<char>) -> int
    decreases entries.len(),
{
    if entries.len() == 0 {
        0
    } else if entries[0].0 == key {
        0
    } else {
        1 + position_of(entries.drop_first(), key)
    }
}

/// What stands under `key`, if anything does.
pub open spec fn value_under<V>(entries: Seq<(Seq<char>, V)>, key: Seq<char>) -> Option<V> {
    if position_of(entries, key) < entries.len() {
        Some(entries[position_of(entries, key)].1)
    } else {
        None
    }
}

/// The entries with `value` under `key`, in place of what stood under that
/// key before, or at the end where nothing did.
pub open spec fn with_entry<V>(entries: Seq<(Seq<char>, V)>, key: Seq<char>, value: V) -> Seq<
    (Seq<char>, V),
> {
    if position_of(entries, key) < entries.len() {
        entries.update(position_of(entries, key), (key, value))
    } else {
        entries.push((key, value))
    }
}

/// The entries without the first entry under `key`.
pub open spec fn without_entry<V>(entries: Seq<(Seq<char>, V)>, key: Seq<char>) -> Seq<
    (Seq<char>, V),
> {
    if position_of(entries, key) < entries.len() {
        entries.remove(position_of(entries, key))
    } else {
        entries
    }
}

/// `position_of` finds the first entry under `key`.
pub proof fn lemma_position_of<V>(entries: Seq<(Seq<char>, V)>, key: Seq<char>)
    ensures
        0 <= position_of(entries, key) <= entries.len(),
        position_of(entries, key) < entries.len() ==> entries[position_of(entries, key)].0 == key,
        forall|i: int| 0 <= i < position_of(entries, key) ==> (#[trigger] entries[i]).0 != key,
    decreases entries.len(),
{
    if entries.len() > 0 && entries[0].0 != key {
        let rest = entries.drop_first();
        lemma_position_of(rest, key);
        assert forall|i: int| 0 <= i < position_of(entries, key) implies (
        #[trigger] entries[i]).0 != key by {
            if i > 0 {
                assert(entries[i] == rest[i - 1]);
            }
        }
    }
}

/// Putting a value under a key and taking a key away keep keys distinct;
/// what was put under a key is found there, and other keys are untouched;
/// and a key that was taken away is found no more.
pub proof fn lemma_keyed_updates<V>(
    entries: Seq<(Seq<char>, V)>,
    key: Seq<char>,
    value: V,
    other: Seq<char>,
)
    requires
        distinct_keys(entries),
    ensures
        distinct_keys(with_entry(entries, key, value)),
        distinct_keys(without_entry(entries, key)),
        value_under(with_entry(entries, key, value), key) == Some(value),
        other != key ==> value_under(with_entry(entries, key, value), other) == value_under(
            entries,
            other,
        ),
        value_under(without_entry(entries, key), key) is None,
        other != key ==> value_under(without_entry(entries, key), other) == value_under(
            entries,
            other,
        ),
{
    let at = position_of(entries, key);
    let put = with_entry(entries, key, value);
    let cut = without_entry(entries, key);
    lemma_position_of(entries, key);
    lemma_position_of(entries, other);
    lemma_position_of(put, key);
    lemma_position_of(put, other);
    lemma_position_of(cut, key);
    lemma_position_of(cut, other);
    let at_other = position_of(entries, other);
    if at < entries.len() {
        assert(put[at].0 == key);
        if position_of(put, key) != at {
            assert(put[position_of(put, key)] == entries[position_of(put, key)]);
        }
        if other != key {
            if at_other < entries.len() {
                assert(put[at_other] == entries[at_other]);
            }
            if position_of(put, other) < put.len() {
                assert(put[position_of(put, other)] == entries[position_of(put, other)]);
            }
        }
        if position_of(cut, key) < cut.len() {
            let p = position_of(cut, key);
            assert(cut[p] == entries[if p < at {
                p
            } else {
                p + 1
            }]);
        }
        if other != key {
            if at_other < entries.len() {
                let q = if at_other < at {
                    at_other
                } else {
                    at_other - 1
                };
                assert(cut[q] == entries[at_other]);
            }
            if position_of(cut, other) < cut.len() {
                let p = position_of(cut, other);
                assert(cut[p] == entries[if p < at {
                    p
                } else {
                    p + 1
                }]);
            }
        }
    } else {
        assert(put[entries.len() as int].0 == key);
        if position_of(put, key) < entries.len() {
            assert(put[position_of(put, key)] == entries[position_of(put, key)]);
        }
        if other != key {
            if at_other < entries.len() {
                assert(put[at_other] == entries[at_other]);
            }
            if position_of(put, other) < entries.len() {
                assert(put[position_of(put, other)] == entries[position_of(put, other)]);
            }
        }
    }
}

} // verus!
