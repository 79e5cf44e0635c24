use sync_primitives::refcount::{
    count_in_op, count_out_op, is_excess, is_last, is_sole, look_op, CountOp, Counted, RefCount,
    MAX_REFS,
};
use sync_primitives::word::{LoadOrder, Order};

#[test]
fn threshold_is_half_the_range() {
    assert_eq!(MAX_REFS, usize::MAX / 2);
}

#[test]
fn first_handle_is_unique() {
    let count = RefCount::new();
    assert!(count.is_unique().yes);
    assert!(count.release().yes);
}

#[test]
fn clone_then_drop_both() {
    let count = RefCount::new();
    assert!(count.retain().yes);
    assert!(!count.is_unique().yes);
    assert!(!count.release().yes);
    assert!(count.is_unique().yes);
    assert!(count.release().yes);
}

#[test]
fn value_is_destroyed_once_after_the_last_of_many_handles() {
    let clones = 1000;
    let count = RefCount::new();
    for _ in 0..clones {
        assert!(count.retain().yes);
    }
    let mut destroyed = 0;
    for dropped in 0..clones + 1 {
        assert_eq!(destroyed, 0);
        assert_eq!(count.is_unique().yes, dropped == clones);
        if count.release().yes {
            destroyed += 1;
        }
    }
    assert_eq!(destroyed, 1);
}

#[test]
fn clones_and_drops_in_any_order() {
    let count = RefCount::new();
    let mut handles = 1;
    let mut destroyed = 0;
    for round in 0..200 {
        if round % 3 != 2 {
            assert!(count.retain().yes);
            handles += 1;
        } else {
            assert!(!count.release().yes);
            handles -= 1;
        }
        assert_eq!(count.is_unique().yes, handles == 1);
    }
    while handles > 0 {
        if count.release().yes {
            destroyed += 1;
        }
        handles -= 1;
        assert_eq!(destroyed, if handles == 0 { 1 } else { 0 });
    }
    assert_eq!(destroyed, 1);
}

#[test]
fn count_above_the_threshold_is_refused() {
    assert!(!is_excess(0));
    assert!(!is_excess(1));
    assert!(!is_excess(MAX_REFS));
    assert!(is_excess(MAX_REFS + 1));
    assert!(is_excess(usize::MAX));
}

#[test]
fn last_and_sole_are_at_one() {
    assert!(is_last(1));
    assert!(!is_last(0));
    assert!(!is_last(2));
    assert!(is_sole(1));
    assert!(!is_sole(0));
    assert!(!is_sole(2));
    assert!(!is_sole(usize::MAX));
}

#[test]
fn operations_report_the_count_they_found() {
    let count = RefCount::new();
    assert_eq!(count.is_unique(), Counted { found: 1, yes: true });
    assert_eq!(count.retain(), Counted { found: 1, yes: true });
    assert_eq!(count.retain(), Counted { found: 2, yes: true });
    assert_eq!(count.is_unique(), Counted { found: 3, yes: false });
    assert_eq!(count.release(), Counted { found: 3, yes: false });
    assert_eq!(count.release(), Counted { found: 2, yes: false });
    assert_eq!(count.release(), Counted { found: 1, yes: true });
}

#[test]
fn count_is_operated_as_named() {
    assert_eq!(look_op(), CountOp::Load { order: LoadOrder::Relaxed });
    assert_eq!(count_in_op(), CountOp::FetchAdd { value: 1, order: Order::Relaxed });
    assert_eq!(count_out_op(), CountOp::FetchSub { value: 1, order: Order::Release });
}
