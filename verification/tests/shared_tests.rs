//! Tests for shared and weak handles.

use fastalloc::FixedPool;

#[test]
fn shared_handle_clone() {
    let mut pool = FixedPool::<i32>::new(10).unwrap();

    let shared = pool.allocate_shared(42).unwrap();
    assert_eq!(shared.strong_count(&pool), 1);

    let shared2 = pool.clone_shared(&shared);
    assert_eq!(shared.strong_count(&pool), 2);
    assert_eq!(shared2.strong_count(&pool), 2);

    pool.drop_shared(shared2);
    assert_eq!(shared.strong_count(&pool), 1);
}

#[test]
fn weak_handle_upgrade() {
    let mut pool = FixedPool::<i32>::new(10).unwrap();

    let shared = pool.allocate_shared(42).unwrap();
    let weak = shared.downgrade(&mut pool);

    assert_eq!(weak.strong_count(&pool), 1);

    // Can upgrade while a shared handle exists
    let upgraded = weak.upgrade(&mut pool);
    assert!(upgraded.is_some());
    assert_eq!(weak.strong_count(&pool), 2);

    pool.drop_shared(shared);
    pool.drop_shared(upgraded.unwrap());

    // Cannot upgrade after all strong references are gone
    let upgraded = weak.upgrade(&mut pool);
    assert!(upgraded.is_none());
}

#[test]
fn weak_handle_clone() {
    let mut pool = FixedPool::<i32>::new(10).unwrap();

    let shared = pool.allocate_shared(42).unwrap();
    let weak = shared.downgrade(&mut pool);
    let weak2 = pool.clone_weak(&weak);

    assert_eq!(weak.weak_count(&pool), weak2.weak_count(&pool));

    pool.drop_shared(shared);
}

#[test]
fn weak_count_follows_observers() {
    let mut pool = FixedPool::<i32>::new(4).unwrap();

    let shared = pool.allocate_shared(9).unwrap();
    let weak = shared.downgrade(&mut pool);
    assert_eq!(weak.weak_count(&pool), 1);

    // Cloning a weak handle adds an observer; taking one back removes it.
    let weak2 = pool.clone_weak(&weak);
    assert_eq!(weak.weak_count(&pool), 2);
    assert_eq!(weak2.weak_count(&pool), 2);

    pool.drop_weak(weak2);
    assert_eq!(weak.weak_count(&pool), 1);

    // Weak observers alone never keep the slot alive.
    pool.drop_shared(shared);
    assert!(weak.upgrade(&mut pool).is_none());
    assert_eq!(pool.available(), 4);
    pool.drop_weak(weak);
}

#[test]
fn shared_value_is_readable() {
    let mut pool = FixedPool::<String>::new(4).unwrap();
    let shared = pool.allocate_shared(String::from("shared text")).unwrap();
    let idx = shared.index();
    assert!(idx < pool.capacity());
    pool.drop_shared(shared);
    assert_eq!(pool.available(), 4);
}

#[test]
fn shared_weak_lifecycle_scenario() {
    let mut pool = FixedPool::<i32>::new(4).unwrap();

    let shared = pool.allocate_shared(7).unwrap();
    let weak = shared.downgrade(&mut pool);
    let shared2 = pool.clone_shared(&shared);
    assert_eq!(shared.strong_count(&pool), 2);

    pool.drop_shared(shared);
    // The slot stays live while one strong handle remains.
    assert_eq!(pool.allocated(), 1);

    pool.drop_shared(shared2);
    // The slot was released exactly once: all slots are available again.
    assert_eq!(pool.available(), pool.capacity());

    // After the last strong handle is gone the weak handle cannot come back.
    assert!(weak.upgrade(&mut pool).is_none());
    assert_eq!(weak.strong_count(&pool), 0);
    assert_eq!(weak.weak_count(&pool), 0);
}

#[test]
fn upgrade_then_downgrade_is_identity() {
    let mut pool = FixedPool::<i32>::new(4).unwrap();

    let shared = pool.allocate_shared(5).unwrap();
    let weak = shared.downgrade(&mut pool);

    // With a strong handle alive, going up and back down lands on the
    // same observer.
    let upgraded = weak.upgrade(&mut pool).unwrap();
    let weak2 = upgraded.downgrade(&mut pool);
    assert_eq!(weak2.index(), weak.index());
    assert_eq!(weak2.strong_count(&pool), weak.strong_count(&pool));

    pool.drop_shared(upgraded);
    pool.drop_shared(shared);
}

#[test]
fn stale_weak_does_not_attach_to_reused_slot() {
    let mut pool = FixedPool::<i32>::new(1).unwrap();

    let shared = pool.allocate_shared(1).unwrap();
    let weak = shared.downgrade(&mut pool);
    pool.drop_shared(shared);

    // The same slot is reused by a fresh shared group.
    let fresh = pool.allocate_shared(2).unwrap();
    assert_eq!(fresh.index(), weak.index());

    // The stale weak handle still cannot upgrade.
    assert!(weak.upgrade(&mut pool).is_none());
    assert_eq!(weak.strong_count(&pool), 0);

    pool.drop_shared(fresh);
}
