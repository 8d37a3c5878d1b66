//! The list of active grouping dimensions and how a choice changes it.

use crate::bus::GroupingType;
use vstd::prelude::*;

verus! {

/// The list that stands for a set of dimensions: the chosen ones in the
/// fixed order sender, member, path, serial; `Ungrouped` alone where none
/// is chosen.
pub open spec fn listed(sender: bool, member: bool, path: bool, serial: bool) -> Seq<GroupingType> {
    let chosen = (if sender {
        seq![GroupingType::Sender]
    } else {
        Seq::empty()
    }) + (if member {
        seq![GroupingType::Member]
    } else {
        Seq::empty()
    }) + (if path {
        seq![GroupingType::Path]
    } else {
        Seq::empty()
    }) + (if serial {
        seq![GroupingType::Serial]
    } else {
        Seq::empty()
    });
    if chosen.len() == 0 {
        seq![GroupingType::Ungrouped]
    } else {
        chosen
    }
}

/// Whether a dimension is chosen after `choice` was toggled: the choice
/// itself is if it was not, any other is if it was.
pub open spec fn chosen_after(
    keys: Seq<GroupingType>,
    choice: GroupingType,
    key: GroupingType,
) -> bool {
    if key == choice {
        !keys.contains(key)
    } else {
        keys.contains(key)
    }
}

/// The list of dimensions after `choice` was toggled. Choosing `Ungrouped`
/// drops every dimension. Choosing a dimension adds it where it was absent,
/// which drops `Ungrouped`, and removes it where it was present, which
/// brings `Ungrouped` back once no dimension is left.
pub open spec fn toggled(keys: Seq<GroupingType>, choice: GroupingType) -> Seq<GroupingType> {
    if choice == GroupingType::Ungrouped {
        seq![GroupingType::Ungrouped]
    } else {
        listed(
            chosen_after(keys, choice, GroupingType::Sender),
            chosen_after(keys, choice, GroupingType::Member),
            chosen_after(keys, choice, GroupingType::Path),
            chosen_after(keys, choice, GroupingType::Serial),
        )
    }
}

/// Whether a list of dimensions is one that toggling produces: it stands for
/// the set of the actual dimensions it holds.
pub open spec fn is_canonical(keys: Seq<GroupingType>) -> bool {
    keys == listed(
        keys.contains(GroupingType::Sender),
        keys.contains(GroupingType::Member),
        keys.contains(GroupingType::Path),
        keys.contains(GroupingType::Serial),
    )
}

/// The dimension at a position of the selection list, which shows sender,
/// member, path, serial and `None` in this order.
pub open spec fn option_at(index: nat) -> Option<GroupingType> {
    if index == 0 {
        Some(GroupingType::Sender)
    } else if index == 1 {
        Some(GroupingType::Member)
    } else if index == 2 {
        Some(GroupingType::Path)
    } else if index == 3 {
        Some(GroupingType::Serial)
    } else if index == 4 {
        Some(GroupingType::Ungrouped)
    } else {
        None
    }
}

/// The dimension at a position of the selection list.
pub fn grouping_option(index: usize) -> (option: Option<GroupingType>)
    ensures
        option == option_at(index as nat),
{
    if index == 0 {
        Some(GroupingType::Sender)
    } else if index == 1 {
        Some(GroupingType::Member)
    } else if index == 2 {
        Some(GroupingType::Path)
    } else if index == 3 {
        Some(GroupingType::Serial)
    } else if index == 4 {
        Some(GroupingType::Ungrouped)
    } else {
        None
    }
}

/// Decides whether `key` is in the list.
pub fn is_active(keys: &Vec<GroupingType>, key: GroupingType) -> (yes: bool)
    ensures
        yes == keys@.contains(key),
{
    let mut i: usize = 0;
    while i < keys.len()
        invariant
            i <= keys.len(),
            forall|j: int| 0 <= j < i ==> keys@[j] != key,
        decreases keys.len() - i,
    {
        if keys[i] == key {
            return true;
        }
        i += 1;
    }
    false
}

/// Toggles `choice` in the list of dimensions.
pub fn toggle_grouping(keys: &mut Vec<GroupingType>, choice: GroupingType)
    ensures
        final(keys)@ == toggled(old(keys)@, choice),
{
    let mut next: Vec<GroupingType> = Vec::new();
    if choice != GroupingType::Ungrouped {
        if is_active(keys, GroupingType::Sender) != (choice == GroupingType::Sender) {
            next.push(GroupingType::Sender);
        }
        if is_active(keys, GroupingType::Member) != (choice == GroupingType::Member) {
            next.push(GroupingType::Member);
        }
        if is_active(keys, GroupingType::Path) != (choice == GroupingType::Path) {
            next.push(GroupingType::Path);
        }
        if is_active(keys, GroupingType::Serial) != (choice == GroupingType::Serial) {
            next.push(GroupingType::Serial);
        }
    }
    if next.len() == 0 {
        next.push(GroupingType::Ungrouped);
    }
    assert(next@ =~= toggled(old(keys)@, choice));
    *keys = next;
}

/// After any toggle the list is not empty, names no dimension twice, keeps
/// the fixed order, and holds `Ungrouped` only alone.
pub proof fn lemma_toggled_is_canonical(keys: Seq<GroupingType>, choice: GroupingType)
    ensures
        toggled(keys, choice).len() > 0,
        is_canonical(toggled(keys, choice)),
        forall|i: int, j: int|
            0 <= i < j < toggled(keys, choice).len() ==> toggled(keys, choice)[i].rank() < toggled(
                keys,
                choice,
            )[j].rank(),
        toggled(keys, choice).contains(GroupingType::Ungrouped) ==> toggled(keys, choice) == seq![
            GroupingType::Ungrouped,
        ],
{
    let after = toggled(keys, choice);
    lemma_listed_members(
        chosen_after(keys, choice, GroupingType::Sender),
        chosen_after(keys, choice, GroupingType::Member),
        chosen_after(keys, choice, GroupingType::Path),
        chosen_after(keys, choice, GroupingType::Serial),
    );
    if choice == GroupingType::Ungrouped {
        lemma_listed_members(false, false, false, false);
        assert(after[0] == GroupingType::Ungrouped);
        assert(!after.contains(GroupingType::Sender));
        assert(!after.contains(GroupingType::Member));
        assert(!after.contains(GroupingType::Path));
        assert(!after.contains(GroupingType::Serial));
        assert(after =~= listed(false, false, false, false));
    }
}

/// What a list that stands for a set holds: each chosen dimension, in the
/// fixed order, and `Ungrouped` only where none is chosen.
pub proof fn lemma_listed_members(sender: bool, member: bool, path: bool, serial: bool)
    ensures
        listed(sender, member, path, serial).len() > 0,
        listed(sender, member, path, serial).contains(GroupingType::Sender) == sender,
        listed(sender, member, path, serial).contains(GroupingType::Member) == member,
        listed(sender, member, path, serial).contains(GroupingType::Path) == path,
        listed(sender, member, path, serial).contains(GroupingType::Serial) == serial,
        listed(sender, member, path, serial).contains(GroupingType::Ungrouped) == (!sender
            && !member && !path && !serial),
        forall|i: int, j: int|
            0 <= i < j < listed(sender, member, path, serial).len() ==> listed(
                sender,
                member,
                path,
                serial,
            )[i].rank() < listed(sender, member, path, serial)[j].rank(),
{
    let list = listed(sender, member, path, serial);
    let a: Seq<GroupingType> = if sender {
        seq![GroupingType::Sender]
    } else {
        Seq::empty()
    };
    let b: Seq<GroupingType> = if member {
        seq![GroupingType::Member]
    } else {
        Seq::empty()
    };
    let c: Seq<GroupingType> = if path {
        seq![GroupingType::Path]
    } else {
        Seq::empty()
    };
    let d: Seq<GroupingType> = if serial {
        seq![GroupingType::Serial]
    } else {
        Seq::empty()
    };
    let chosen = a + b + c + d;
    if sender {
        assert(chosen[0] == GroupingType::Sender);
    }
    if member {
        assert(chosen[a.len() as int] == GroupingType::Member);
    }
    if path {
        assert(chosen[(a.len() + b.len()) as int] == GroupingType::Path);
    }
    if serial {
        assert(chosen[(a.len() + b.len() + c.len()) as int] == GroupingType::Serial);
    }
    if chosen.len() == 0 {
        assert(list[0] == GroupingType::Ungrouped);
    }
    assert forall|i: int| 0 <= i < chosen.len() implies (#[trigger] chosen[i]).rank() == (if i
        < a.len() {
        0nat
    } else if i < a.len() + b.len() {
        1nat
    } else if i < a.len() + b.len() + c.len() {
        2nat
    } else {
        3nat
    }) by {}
}

/// Toggling a dimension twice leaves a list that toggling produced as it
/// was.
pub proof fn lemma_toggle_twice(keys: Seq<GroupingType>, choice: GroupingType)
    requires
        is_canonical(keys),
        choice != GroupingType::Ungrouped,
    ensures
        toggled(toggled(keys, choice), choice) == keys,
{
    lemma_listed_members(
        chosen_after(keys, choice, GroupingType::Sender),
        chosen_after(keys, choice, GroupingType::Member),
        chosen_after(keys, choice, GroupingType::Path),
        chosen_after(keys, choice, GroupingType::Serial),
    );
}

} // verus!
