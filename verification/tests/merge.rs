//! Merging change times.
use jpdb::merge::merge_changes;

#[test]
fn merge_of_nothing_is_empty() {
    assert_eq!(merge_changes(vec![]), Vec::<u32>::new());
}

#[test]
fn merge_is_in_order_and_keeps_repetitions() {
    let a = [0u32, 3, 7];
    let b = [1u32, 3];
    let c = [3u32, 9, 9];
    assert_eq!(merge_changes(vec![&a[..], &b[..], &c[..]]), vec![0, 1, 3, 3, 3, 7, 9, 9]);
    assert_eq!(merge_changes(vec![&a[..]]), vec![0, 3, 7]);
    assert_eq!(merge_changes(vec![&c[..], &a[..], &b[..]]), vec![0, 1, 3, 3, 3, 7, 9, 9]);
}

#[test]
fn merge_takes_the_least_next_entry() {
    let a = [5u32, 1];
    let b = [2u32, 6];
    assert_eq!(merge_changes(vec![&a[..], &b[..]]), vec![2, 5, 1, 6]);
}

#[test]
fn merge_reaches_the_largest_time() {
    let a = [u32::MAX];
    let b = [0u32, u32::MAX];
    assert_eq!(merge_changes(vec![&a[..], &b[..]]), vec![0, u32::MAX, u32::MAX]);
}
