use std::sync::atomic::AtomicU64;
use std::sync::atomic::Ordering::Relaxed;
use sync_primitives::refcount::RefCount;

#[test]
fn get_x() {
    let x = AtomicU64::new(0);
    let calculate_x = || 100;
    let mut value = x.load(Relaxed);

    if value == 0 {
        value = calculate_x();
        x.store(value, Relaxed);
    }

    let value = x.load(Relaxed);
    assert_eq!(value, 100);
}

#[test]
fn count_starts_at_one() {
    let count = RefCount::new();
    assert!(count.is_unique().yes);
}
