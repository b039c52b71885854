use chat_history_manager::smart_slice::{SliceBound, SmartSlice};

fn msgs() -> Vec<i32> {
    (0..10).collect()
}

#[test]
fn first_and_last_elements() {
    let v = msgs();
    assert_eq!(v.smart_slice(SliceBound::Unbounded, SliceBound::Included(0)), &[0]);
    assert_eq!(v.smart_slice(SliceBound::Unbounded, SliceBound::Included(1)), &[0, 1]);
    assert_eq!(v.smart_slice(SliceBound::Included(-1), SliceBound::Unbounded), &[9]);
    assert_eq!(v.smart_slice(SliceBound::Included(-2), SliceBound::Unbounded), &[8, 9]);
    assert_eq!(v.smart_slice(SliceBound::Unbounded, SliceBound::Unbounded), v.as_slice());
}

#[test]
fn negative_indexes_count_from_the_end() {
    let v = msgs();
    assert_eq!(v.smart_slice(SliceBound::Included(1), SliceBound::Excluded(-1)), &[1, 2, 3, 4, 5, 6, 7, 8]);
    assert_eq!(v.smart_slice(SliceBound::Included(1), SliceBound::Included(-2)), &[1, 2, 3, 4, 5, 6, 7, 8]);
    assert_eq!(v.smart_slice(SliceBound::Included(1), SliceBound::Excluded(3)), &[1, 2]);
    assert_eq!(v.smart_slice(SliceBound::Included(1), SliceBound::Included(2)), &[1, 2]);
}

#[test]
fn indexes_past_the_ends_are_ignored() {
    let v = msgs();
    assert_eq!(v.smart_slice(SliceBound::Included(-100), SliceBound::Unbounded), v.as_slice());
    assert_eq!(v.smart_slice(SliceBound::Unbounded, SliceBound::Included(100)), v.as_slice());
    assert_eq!(v.smart_slice(SliceBound::Unbounded, SliceBound::Excluded(100)), v.as_slice());
    assert!(v.smart_slice(SliceBound::Included(10), SliceBound::Unbounded).is_empty());
    assert!(v.smart_slice(SliceBound::Unbounded, SliceBound::Included(-11)).is_empty());
    assert!(v.smart_slice(SliceBound::Included(5), SliceBound::Included(2)).is_empty());
}
