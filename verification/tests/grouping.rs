use d_buddy::bus::GroupingType;
use d_buddy::bus::GroupingType::{Member, Path, Sender, Serial, Ungrouped};
use d_buddy::grouping::{grouping_option, is_active, toggle_grouping};

fn after(keys: &[GroupingType], choice: GroupingType) -> Vec<GroupingType> {
    let mut keys = keys.to_vec();
    toggle_grouping(&mut keys, choice);
    keys
}

#[test]
fn choosing_a_dimension_drops_none() {
    assert_eq!(after(&[Ungrouped], Member), vec![Member]);
    assert_eq!(after(&[Ungrouped], Sender), vec![Sender]);
    assert_eq!(after(&[Ungrouped], Serial), vec![Serial]);
}

#[test]
fn removing_the_last_dimension_restores_none() {
    assert_eq!(after(&[Member], Member), vec![Ungrouped]);
    assert_eq!(after(&[Path], Path), vec![Ungrouped]);
}

#[test]
fn choosing_none_drops_every_dimension() {
    assert_eq!(after(&[Sender, Member, Path, Serial], Ungrouped), vec![Ungrouped]);
    assert_eq!(after(&[Ungrouped], Ungrouped), vec![Ungrouped]);
    assert_eq!(after(&[], Ungrouped), vec![Ungrouped]);
}

#[test]
fn dimensions_are_kept_in_the_fixed_order() {
    assert_eq!(after(&[Path], Sender), vec![Sender, Path]);
    assert_eq!(after(&[Sender, Path], Serial), vec![Sender, Path, Serial]);
    assert_eq!(after(&[Sender, Path, Serial], Member), vec![Sender, Member, Path, Serial]);
    assert_eq!(after(&[Sender, Member, Path, Serial], Path), vec![Sender, Member, Serial]);
    assert_eq!(after(&[Serial, Sender], Member), vec![Sender, Member, Serial]);
}

#[test]
fn toggling_twice_changes_nothing() {
    let lists: [&[GroupingType]; 4] =
        [&[Ungrouped], &[Sender], &[Member, Serial], &[Sender, Member, Path, Serial]];
    for keys in lists {
        for choice in [Sender, Member, Path, Serial] {
            assert_eq!(after(&after(keys, choice), choice), keys.to_vec());
        }
    }
}

#[test]
fn none_never_stands_beside_a_dimension() {
    assert_eq!(after(&[Ungrouped, Sender], Path), vec![Sender, Path]);
    assert_eq!(after(&[Sender, Ungrouped], Sender), vec![Ungrouped]);
    assert_eq!(after(&[], Path), vec![Path]);
}

#[test]
fn the_selection_list_shows_none_last() {
    assert_eq!(grouping_option(0), Some(Sender));
    assert_eq!(grouping_option(1), Some(Member));
    assert_eq!(grouping_option(2), Some(Path));
    assert_eq!(grouping_option(3), Some(Serial));
    assert_eq!(grouping_option(4), Some(Ungrouped));
    assert_eq!(grouping_option(5), None);
    assert!(is_active(&vec![Sender, Path], Path));
    assert!(!is_active(&vec![Sender, Path], Member));
    assert!(!is_active(&vec![], Ungrouped));
}
