use blusher_collections::{
    bl_ptr_set_contains, bl_ptr_set_free, bl_ptr_set_insert, bl_ptr_set_new, bl_ptr_set_remove,
};

#[test]
fn set_insert_twice_remove_twice_scenario() {
    let mut s = bl_ptr_set_new();
    assert_eq!(bl_ptr_set_insert(&mut s, 1), true);
    assert_eq!(bl_ptr_set_insert(&mut s, 1), false);
    assert_eq!(bl_ptr_set_remove(&mut s, 1), true);
    assert_eq!(bl_ptr_set_remove(&mut s, 1), false);
    bl_ptr_set_free(s);
}

#[test]
fn set_new_is_empty() {
    let mut s = bl_ptr_set_new();
    for value in [0u64, 1, 7, u64::MAX] {
        assert_eq!(bl_ptr_set_contains(&s, value), false);
        assert_eq!(bl_ptr_set_remove(&mut s, value), false);
    }
    bl_ptr_set_free(s);
}

#[test]
fn set_second_insert_changes_nothing() {
    let mut s = bl_ptr_set_new();
    assert!(bl_ptr_set_insert(&mut s, 3));
    assert!(bl_ptr_set_insert(&mut s, 5));
    assert!(!bl_ptr_set_insert(&mut s, 3));
    for (value, member) in [(2u64, false), (3, true), (4, false), (5, true), (6, false)] {
        assert_eq!(bl_ptr_set_contains(&s, value), member);
    }
    assert!(bl_ptr_set_remove(&mut s, 3));
    assert!(!bl_ptr_set_contains(&s, 3));
    bl_ptr_set_free(s);
}

#[test]
fn set_removal_succeeds_once_per_insert() {
    let mut s = bl_ptr_set_new();
    let mut added = 0;
    let mut removed = 0;
    for round in 0..5 {
        if bl_ptr_set_insert(&mut s, 42) {
            added += 1;
        }
        if bl_ptr_set_insert(&mut s, 42) {
            added += 1;
        }
        assert_eq!(added, removed + 1);
        if bl_ptr_set_remove(&mut s, 42) {
            removed += 1;
        }
        if bl_ptr_set_remove(&mut s, 42) {
            removed += 1;
        }
        assert_eq!(added, removed);
        assert_eq!(added, round + 1);
    }
    assert_eq!(bl_ptr_set_contains(&s, 42), false);
    bl_ptr_set_free(s);
}

#[test]
fn set_removal_leaves_other_members() {
    let mut s = bl_ptr_set_new();
    for value in [0u64, 1, 2, u64::MAX] {
        assert!(bl_ptr_set_insert(&mut s, value));
    }
    assert!(bl_ptr_set_remove(&mut s, 1));
    assert!(!bl_ptr_set_remove(&mut s, 9));
    assert_eq!(bl_ptr_set_contains(&s, 0), true);
    assert_eq!(bl_ptr_set_contains(&s, 1), false);
    assert_eq!(bl_ptr_set_contains(&s, 2), true);
    assert_eq!(bl_ptr_set_contains(&s, u64::MAX), true);
    bl_ptr_set_free(s);
}

#[test]
fn set_value_can_be_added_again_after_removal() {
    let mut s = bl_ptr_set_new();
    assert!(bl_ptr_set_insert(&mut s, 0));
    assert!(bl_ptr_set_remove(&mut s, 0));
    assert!(bl_ptr_set_insert(&mut s, 0));
    assert!(bl_ptr_set_contains(&s, 0));
    bl_ptr_set_free(s);
}

#[test]
fn set_handles_do_not_interfere() {
    let mut alone = bl_ptr_set_new();
    let mut a = bl_ptr_set_new();
    let mut b = bl_ptr_set_new();

    assert!(bl_ptr_set_insert(&mut alone, 1));
    assert!(bl_ptr_set_insert(&mut alone, 2));
    assert!(bl_ptr_set_remove(&mut alone, 1));

    assert!(bl_ptr_set_insert(&mut a, 1));
    assert!(bl_ptr_set_insert(&mut b, 1));
    assert!(bl_ptr_set_insert(&mut b, 3));
    assert!(bl_ptr_set_insert(&mut a, 2));
    assert!(bl_ptr_set_remove(&mut b, 1));
    assert!(bl_ptr_set_remove(&mut a, 1));
    bl_ptr_set_free(b);

    for value in 0u64..5 {
        assert_eq!(bl_ptr_set_contains(&a, value), bl_ptr_set_contains(&alone, value));
    }
    assert_eq!(bl_ptr_set_contains(&a, 2), true);
    assert_eq!(bl_ptr_set_contains(&a, 3), false);
    bl_ptr_set_free(a);
    bl_ptr_set_free(alone);
}
