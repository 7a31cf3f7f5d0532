use rcstring::refcount::{exceeds_ceiling, is_last_release, INITIAL_COUNT, MAX_REFCOUNT};

#[test]
fn ceiling_is_the_largest_isize() {
    assert_eq!(MAX_REFCOUNT, isize::MAX as usize);
    assert_eq!(INITIAL_COUNT, 1);
}

#[test]
fn clone_is_turned_away_above_the_ceiling() {
    assert!(!exceeds_ceiling(0));
    assert!(!exceeds_ceiling(1));
    assert!(!exceeds_ceiling(MAX_REFCOUNT - 1));
    assert!(!exceeds_ceiling(MAX_REFCOUNT));
    assert!(exceeds_ceiling(MAX_REFCOUNT + 1));
    assert!(exceeds_ceiling(usize::MAX));
}

#[test]
fn only_the_drop_that_saw_one_is_the_last() {
    assert!(is_last_release(1));
    assert!(!is_last_release(2));
    assert!(!is_last_release(3));
    assert!(!is_last_release(0));
    assert!(!is_last_release(usize::MAX));
}
