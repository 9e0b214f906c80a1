//! Tests for the growing pool and its growth behavior.

use fastalloc::Error;
use fastalloc::GrowingPool;
use fastalloc::GrowthStrategy;
use fastalloc::PoolConfig;

#[test]
fn growing_new_pool() {
    let config = PoolConfig::builder()
        .capacity(100)
        .growth_strategy(GrowthStrategy::Linear { amount: 50 })
        .build()
        .unwrap();

    let pool = GrowingPool::<i32>::with_config(config).unwrap();
    assert_eq!(pool.capacity(), 100);
    assert_eq!(pool.available(), 100);
}

#[test]
fn pool_grows_on_demand() {
    let config = PoolConfig::builder()
        .capacity(2)
        .growth_strategy(GrowthStrategy::Linear { amount: 2 })
        .build()
        .unwrap();

    let mut pool = GrowingPool::with_config(config).unwrap();

    let _h1 = pool.allocate(1).unwrap();
    let _h2 = pool.allocate(2).unwrap();
    assert_eq!(pool.capacity(), 2);

    // This should trigger growth
    let _h3 = pool.allocate(3).unwrap();
    assert_eq!(pool.capacity(), 4);
}

#[test]
fn respects_max_capacity() {
    let config = PoolConfig::builder()
        .capacity(2)
        .max_capacity(Some(4))
        .growth_strategy(GrowthStrategy::Linear { amount: 2 })
        .build()
        .unwrap();

    let mut pool = GrowingPool::with_config(config).unwrap();

    let _h1 = pool.allocate(1).unwrap();
    let _h2 = pool.allocate(2).unwrap();
    let _h3 = pool.allocate(3).unwrap(); // Grows to 4
    let _h4 = pool.allocate(4).unwrap();

    assert_eq!(pool.capacity(), 4);

    // Should fail - cannot grow beyond max
    let result = pool.allocate(5);
    assert!(matches!(result, Err(Error::MaxCapacityExceeded { .. })));
}

#[test]
fn test_growing_pool() {
    let config = PoolConfig::builder()
        .capacity(5)
        .growth_strategy(GrowthStrategy::Linear { amount: 5 })
        .build()
        .unwrap();

    let mut pool = GrowingPool::with_config(config).unwrap();

    assert_eq!(pool.capacity(), 5);

    let mut handles = Vec::new();
    for i in 0..10 {
        handles.push(pool.allocate(i).unwrap());
    }

    assert_eq!(pool.capacity(), 10);
    assert_eq!(pool.allocated(), 10);
}

#[test]
fn test_growing_pool_max_capacity() {
    let config = PoolConfig::builder()
        .capacity(2)
        .max_capacity(Some(5))
        .growth_strategy(GrowthStrategy::Linear { amount: 2 })
        .build()
        .unwrap();

    let mut pool = GrowingPool::with_config(config).unwrap();

    let mut handles = Vec::new();
    for i in 0..4 {
        handles.push(pool.allocate(i).unwrap());
    }
    assert_eq!(pool.capacity(), 4); // 2 + 2

    // Growing by two from four would pass the maximum of five, so the
    // fifth element fails instead: the pool stays within its bounds.
    let result = pool.allocate(4);
    assert!(result.is_err());
    assert_eq!(pool.capacity(), 4);
}

#[test]
fn test_linear_growth() {
    let config = PoolConfig::builder()
        .capacity(10)
        .growth_strategy(GrowthStrategy::Linear { amount: 5 })
        .build()
        .unwrap();

    let mut pool = GrowingPool::<i32>::with_config(config).unwrap();

    assert_eq!(pool.capacity(), 10);

    // Fill initial capacity
    let mut handles = Vec::new();
    for i in 0..10 {
        handles.push(pool.allocate(i).unwrap());
    }

    // Trigger growth
    handles.push(pool.allocate(10).unwrap());
    assert_eq!(pool.capacity(), 15);

    // Trigger another growth
    for i in 11..16 {
        handles.push(pool.allocate(i).unwrap());
    }
    assert_eq!(pool.capacity(), 20);
}

#[test]
fn test_exponential_growth() {
    let config = PoolConfig::builder()
        .capacity(10)
        .growth_strategy(GrowthStrategy::Exponential { numerator: 2, denominator: 1 })
        .build()
        .unwrap();

    let mut pool = GrowingPool::<i32>::with_config(config).unwrap();

    let mut handles = Vec::new();

    // Fill initial capacity
    for i in 0..10 {
        handles.push(pool.allocate(i).unwrap());
    }
    assert_eq!(pool.capacity(), 10);

    // Trigger growth - should double
    handles.push(pool.allocate(10).unwrap());
    assert_eq!(pool.capacity(), 20);

    // Fill to trigger next growth
    for i in 11..21 {
        handles.push(pool.allocate(i).unwrap());
    }
    assert_eq!(pool.capacity(), 40);
}

#[test]
fn test_no_growth_behaves_like_fixed() {
    let config = PoolConfig::builder()
        .capacity(5)
        .growth_strategy(GrowthStrategy::Fixed)
        .build()
        .unwrap();

    let mut pool = GrowingPool::<i32>::with_config(config).unwrap();

    let mut handles = Vec::new();
    for i in 0..5 {
        handles.push(pool.allocate(i).unwrap());
    }

    assert_eq!(pool.capacity(), 5);
    assert!(pool.is_full());

    // Should fail to allocate
    let result = pool.allocate(5);
    assert!(result.is_err());
}

#[test]
fn test_max_capacity_limit() {
    let config = PoolConfig::builder()
        .capacity(5)
        .max_capacity(Some(10))
        .growth_strategy(GrowthStrategy::Linear { amount: 10 })
        .build()
        .unwrap();

    let mut pool = GrowingPool::<i32>::with_config(config).unwrap();

    let mut handles = Vec::new();
    for i in 0..5 {
        handles.push(pool.allocate(i).unwrap());
    }
    assert_eq!(pool.capacity(), 5);

    // A step of ten from five would pass the maximum of ten, so the
    // pool refuses to grow rather than growing part of the way.
    let result = pool.allocate(5);
    assert!(matches!(result, Err(Error::MaxCapacityExceeded { .. })));
    assert_eq!(pool.capacity(), 5);
}

#[test]
fn test_growing_pool_exact_max_capacity() {
    let config = PoolConfig::builder()
        .capacity(5)
        .max_capacity(Some(5))
        .growth_strategy(GrowthStrategy::Linear { amount: 10 })
        .build()
        .unwrap();

    let mut pool = GrowingPool::<i32>::with_config(config).unwrap();

    let mut handles = Vec::new();
    for i in 0..5 {
        handles.push(pool.allocate(i).unwrap());
    }

    assert_eq!(pool.capacity(), 5);

    // Should not be able to grow
    let result = pool.allocate(5);
    assert!(result.is_err());
}

#[test]
fn test_none_growth_strategy() {
    let config = PoolConfig::builder()
        .capacity(3)
        .growth_strategy(GrowthStrategy::Fixed)
        .build()
        .unwrap();

    let mut pool = GrowingPool::<i32>::with_config(config).unwrap();

    let mut handles = Vec::new();
    for i in 0..3 {
        handles.push(pool.allocate(i).unwrap());
    }

    let result = pool.allocate(3);
    assert!(matches!(result, Err(Error::PoolExhausted { .. })));
}

#[test]
fn test_growth_with_deallocation() {
    let config = PoolConfig::builder()
        .capacity(5)
        .growth_strategy(GrowthStrategy::Linear { amount: 5 })
        .build()
        .unwrap();

    let mut pool = GrowingPool::<i32>::with_config(config).unwrap();

    let mut handles = Vec::new();

    // Fill and grow
    for i in 0..10 {
        handles.push(pool.allocate(i).unwrap());
    }
    assert_eq!(pool.capacity(), 10);

    // Free some
    for h in handles.drain(0..5) {
        pool.return_to_pool(h);
    }
    assert_eq!(pool.allocated(), 5);
    assert_eq!(pool.available(), 5);

    // Should reuse freed slots before growing
    for i in 10..15 {
        handles.push(pool.allocate(i).unwrap());
    }

    assert_eq!(pool.capacity(), 10); // Shouldn't have grown yet
    assert_eq!(pool.allocated(), 10);
}

#[test]
fn test_multiple_growth_cycles() {
    let config = PoolConfig::builder()
        .capacity(2)
        .max_capacity(Some(100))
        .growth_strategy(GrowthStrategy::Exponential { numerator: 2, denominator: 1 })
        .build()
        .unwrap();

    let mut pool = GrowingPool::<i32>::with_config(config).unwrap();

    let mut handles = Vec::new();
    let expected_capacities = vec![2, 4, 8, 16, 32, 64];

    for (cycle, &expected_cap) in expected_capacities.iter().enumerate() {
        // Fill to capacity
        while pool.allocated() < expected_cap {
            handles.push(pool.allocate(cycle as i32).unwrap());
        }

        assert_eq!(pool.capacity(), expected_cap);
    }
}

#[test]
fn growing_exponential_scenario() {
    let config = PoolConfig::builder()
        .capacity(2)
        .max_capacity(Some(8))
        .growth_strategy(GrowthStrategy::Exponential { numerator: 2, denominator: 1 })
        .build()
        .unwrap();
    let mut pool = GrowingPool::<i32>::with_config(config).unwrap();

    let mut handles = Vec::new();
    let mut seen_capacities = Vec::new();
    for i in 0..8 {
        handles.push(pool.allocate(i).unwrap());
        let cap = pool.capacity();
        if seen_capacities.last() != Some(&cap) {
            seen_capacities.push(cap);
        }
    }
    assert_eq!(seen_capacities, vec![2, 4, 8]);

    match pool.allocate(8) {
        Err(Error::MaxCapacityExceeded { current, requested, max }) => {
            assert_eq!(current, 8);
            assert_eq!(requested, 16);
            assert_eq!(max, 8);
        },
        _ => panic!("expected the maximum to hold"),
    }
}

#[test]
fn growing_linear_partial_reuse_scenario() {
    let config = PoolConfig::builder()
        .capacity(5)
        .growth_strategy(GrowthStrategy::Linear { amount: 5 })
        .build()
        .unwrap();
    let mut pool = GrowingPool::<i32>::with_config(config).unwrap();

    let mut handles = Vec::new();
    for i in 0..10 {
        handles.push(pool.allocate(i).unwrap());
    }
    assert_eq!(pool.capacity(), 10);

    // Release half of the slots, then claim five more: the freed slots
    // are reused and the capacity does not move.
    for h in handles.drain(0..5) {
        pool.return_to_pool(h);
    }
    for i in 10..15 {
        handles.push(pool.allocate(i).unwrap());
    }
    assert_eq!(pool.capacity(), 10);
}

#[test]
fn growth_preserves_existing_elements() {
    let config = PoolConfig::builder()
        .capacity(2)
        .growth_strategy(GrowthStrategy::Linear { amount: 3 })
        .build()
        .unwrap();
    let mut pool = GrowingPool::<String>::with_config(config).unwrap();

    let h1 = pool.allocate(String::from("first")).unwrap();
    let h2 = pool.allocate(String::from("second")).unwrap();
    let h3 = pool.allocate(String::from("third")).unwrap();

    // The pool grew for the third element; the earlier two are intact.
    assert_eq!(pool.capacity(), 5);
    assert_eq!(*pool.get(&h1), "first");
    assert_eq!(*pool.get(&h2), "second");
    assert_eq!(*pool.get(&h3), "third");
}

#[test]
fn growth_step_of_zero_surfaces_as_exhaustion() {
    let config = PoolConfig::builder()
        .capacity(1)
        .growth_strategy(GrowthStrategy::Linear { amount: 0 })
        .build()
        .unwrap();
    let mut pool = GrowingPool::<i32>::with_config(config).unwrap();
    let _h = pool.allocate(1).unwrap();
    let result = pool.allocate(2);
    assert!(matches!(result, Err(Error::PoolExhausted { .. })));
}

#[test]
fn growing_pool_statistics_track_growth() {
    let config = PoolConfig::builder()
        .capacity(1)
        .growth_strategy(GrowthStrategy::Linear { amount: 1 })
        .build()
        .unwrap();
    let mut pool = GrowingPool::<i32>::with_config(config).unwrap();
    let _h1 = pool.allocate(1).unwrap();
    let _h2 = pool.allocate(2).unwrap();
    let stats = pool.statistics();
    assert_eq!(stats.growth_count, 1);
    assert_eq!(stats.capacity, 2);
    assert_eq!(stats.total_allocations, 2);
    assert_eq!(stats.current_usage, 2);
}

#[test]
fn growing_can_grow_reports_room() {
    let config = PoolConfig::builder()
        .capacity(2)
        .max_capacity(Some(4))
        .growth_strategy(GrowthStrategy::Linear { amount: 2 })
        .build()
        .unwrap();
    let mut pool = GrowingPool::<i32>::with_config(config).unwrap();
    assert!(pool.can_grow());
    let _h1 = pool.allocate(1).unwrap();
    let _h2 = pool.allocate(2).unwrap();
    let _h3 = pool.allocate(3).unwrap();
    assert_eq!(pool.capacity(), 4);
    assert!(!pool.can_grow());
    assert!(!pool.is_full());
    let _h4 = pool.allocate(4).unwrap();
    assert!(pool.is_full());
}
