//! Tests for the fixed pool, its handles, and the thread-local wrapper.

use fastalloc::Error;
use fastalloc::FixedPool;
use fastalloc::Poolable;
use fastalloc::ThreadLocalPool;

#[test]
fn fixed_new_pool() {
    let pool = FixedPool::<i32>::new(100).unwrap();
    assert_eq!(pool.capacity(), 100);
    assert_eq!(pool.available(), 100);
    assert_eq!(pool.allocated(), 0);
    assert!(pool.is_empty());
    assert!(!pool.is_full());
}

#[test]
fn allocate_and_drop() {
    let mut pool = FixedPool::new(10).unwrap();

    let handle = pool.allocate(42).unwrap();
    assert_eq!(*pool.get(&handle), 42);
    assert_eq!(pool.allocated(), 1);
    assert_eq!(pool.available(), 9);
    pool.return_to_pool(handle);

    // After the return, the slot is back in the pool
    assert_eq!(pool.allocated(), 0);
    assert_eq!(pool.available(), 10);
}

#[test]
fn fixed_allocate_until_full() {
    let mut pool = FixedPool::new(3).unwrap();

    let _h1 = pool.allocate(1).unwrap();
    let _h2 = pool.allocate(2).unwrap();
    let _h3 = pool.allocate(3).unwrap();

    assert!(pool.is_full());

    let result = pool.allocate(4);
    assert!(matches!(result, Err(Error::PoolExhausted { .. })));
}

#[test]
fn reuse_after_free() {
    let mut pool = FixedPool::new(2).unwrap();

    let h1 = pool.allocate(1).unwrap();
    pool.return_to_pool(h1);

    let h2 = pool.allocate(2).unwrap();
    assert_eq!(*pool.get(&h2), 2);
}

#[test]
fn modify_value() {
    let mut pool = FixedPool::new(10).unwrap();

    let handle = pool.allocate(10).unwrap();
    assert_eq!(*pool.get(&handle), 10);

    *pool.get_mut(&handle) = 20;
    assert_eq!(*pool.get(&handle), 20);
}

#[test]
fn handle_deref() {
    let mut pool = FixedPool::new(10).unwrap();
    let handle = pool.allocate(42).unwrap();

    assert_eq!(*pool.get(&handle), 42);
}

#[test]
fn handle_deref_mut() {
    let mut pool = FixedPool::new(10).unwrap();
    let handle = pool.allocate(10).unwrap();

    *pool.get_mut(&handle) = 20;
    assert_eq!(*pool.get(&handle), 20);
}

#[test]
fn handle_drop() {
    let mut pool = FixedPool::new(10).unwrap();

    let handle = pool.allocate(42).unwrap();
    assert_eq!(pool.allocated(), 1);
    pool.return_to_pool(handle);

    assert_eq!(pool.allocated(), 0);
}

#[test]
fn handle_equality() {
    let mut pool = FixedPool::new(10).unwrap();
    let h1 = pool.allocate(42).unwrap();
    let h2 = pool.allocate(42).unwrap();
    let h3 = pool.allocate(99).unwrap();

    // Handles compare as the elements they refer to
    assert!(pool.handles_equal(&h1, &h2));
    assert!(!pool.handles_equal(&h1, &h3));
}

#[test]
fn test_fixed_pool_basic() {
    let pool = FixedPool::<i32>::new(10).unwrap();

    assert_eq!(pool.capacity(), 10);
    assert_eq!(pool.available(), 10);
    assert_eq!(pool.allocated(), 0);
}

#[test]
fn test_allocate_and_drop() {
    let mut pool = FixedPool::new(5).unwrap();

    let h1 = pool.allocate(42).unwrap();
    assert_eq!(*pool.get(&h1), 42);
    assert_eq!(pool.allocated(), 1);
    pool.return_to_pool(h1);

    assert_eq!(pool.allocated(), 0);
}

#[test]
fn test_multiple_allocations() {
    let mut pool = FixedPool::new(10).unwrap();

    let mut handles = Vec::new();
    for i in 0..5 {
        handles.push(pool.allocate(i).unwrap());
    }

    assert_eq!(pool.allocated(), 5);
    assert_eq!(pool.available(), 5);

    for (i, handle) in handles.iter().enumerate() {
        assert_eq!(*pool.get(handle), i as i32);
    }
}

#[test]
fn test_pool_exhaustion() {
    let mut pool = FixedPool::new(3).unwrap();

    let _h1 = pool.allocate(1).unwrap();
    let _h2 = pool.allocate(2).unwrap();
    let _h3 = pool.allocate(3).unwrap();

    assert!(pool.is_full());

    let result = pool.allocate(4);
    assert!(result.is_err());
}

#[test]
fn test_reuse_after_drop() {
    let mut pool = FixedPool::new(2).unwrap();

    let h1 = pool.allocate(1).unwrap();
    let h2 = pool.allocate(2).unwrap();
    assert!(pool.is_full());
    pool.return_to_pool(h1);
    pool.return_to_pool(h2);

    assert!(pool.is_empty());

    let _h3 = pool.allocate(3).unwrap();
    assert_eq!(pool.allocated(), 1);
}

#[test]
fn test_modify_allocated_value() {
    let mut pool = FixedPool::new(5).unwrap();

    let handle = pool.allocate(10).unwrap();
    assert_eq!(*pool.get(&handle), 10);

    *pool.get_mut(&handle) = 20;
    assert_eq!(*pool.get(&handle), 20);

    *pool.get_mut(&handle) += 5;
    assert_eq!(*pool.get(&handle), 25);
}

#[derive(Debug, PartialEq)]
struct Point {
    x: i32,
    y: i32,
}

impl Poolable for Point {
    fn acquire_spec(self) -> Self {
        self
    }
    fn release_spec(self) -> Self {
        self
    }
    fn on_acquire(&mut self) {}
    fn on_release(&mut self) {}
}

#[test]
fn test_struct_allocation() {
    let mut pool = FixedPool::<Point>::new(10).unwrap();

    let p = pool.allocate(Point { x: 1, y: 2 }).unwrap();
    assert_eq!(pool.get(&p).x, 1);
    assert_eq!(pool.get(&p).y, 2);

    pool.get_mut(&p).x = 10;
    pool.get_mut(&p).y = 20;
    assert_eq!(*pool.get(&p), Point { x: 10, y: 20 });
}

#[test]
fn test_string_allocation() {
    let mut pool = FixedPool::<String>::new(5).unwrap();

    let s = pool.allocate(String::from("Hello")).unwrap();
    assert_eq!(*pool.get(&s), "Hello");

    pool.get_mut(&s).push_str(", World!");
    assert_eq!(*pool.get(&s), "Hello, World!");
}

#[test]
fn test_vec_allocation() {
    let mut pool = FixedPool::<Vec<i32>>::new(5).unwrap();

    let v = pool.allocate(vec![1, 2, 3]).unwrap();
    assert_eq!(*pool.get(&v), vec![1, 2, 3]);

    pool.get_mut(&v).push(4);
    assert_eq!(*pool.get(&v), vec![1, 2, 3, 4]);
}

#[test]
fn test_zero_capacity_rejected() {
    let result = FixedPool::<i32>::new(0);
    assert!(result.is_err());
}

#[test]
fn test_single_element_pool() {
    let mut pool = FixedPool::<i32>::new(1).unwrap();

    assert_eq!(pool.capacity(), 1);

    let h1 = pool.allocate(42).unwrap();
    assert_eq!(*pool.get(&h1), 42);
    assert!(pool.is_full());

    let result = pool.allocate(99);
    assert!(result.is_err());

    pool.return_to_pool(h1);
    assert!(pool.is_empty());
}

#[test]
fn test_large_capacity() {
    let pool = FixedPool::<u8>::new(1_000_000).unwrap();
    assert_eq!(pool.capacity(), 1_000_000);
    assert_eq!(pool.available(), 1_000_000);
}

#[derive(Debug, PartialEq)]
struct ZeroSized;

impl Poolable for ZeroSized {
    fn acquire_spec(self) -> Self {
        self
    }
    fn release_spec(self) -> Self {
        self
    }
    fn on_acquire(&mut self) {}
    fn on_release(&mut self) {}
}

#[test]
fn test_zst_allocation() {
    let mut pool = FixedPool::<ZeroSized>::new(10).unwrap();

    let h1 = pool.allocate(ZeroSized).unwrap();
    let h2 = pool.allocate(ZeroSized).unwrap();

    assert_eq!(*pool.get(&h1), ZeroSized);
    assert_eq!(*pool.get(&h2), ZeroSized);
}

#[test]
fn test_invalid_alignment() {
    let result = fastalloc::PoolConfig::<i32>::builder()
        .capacity(10)
        .alignment(7) // Not a power of 2
        .build();

    assert!(result.is_err());
}

#[test]
fn test_max_capacity_less_than_capacity() {
    let result = fastalloc::PoolConfig::<i32>::builder().capacity(100).max_capacity(
        Some(50),
    ).build();

    assert!(result.is_err());
}

#[test]
fn test_rapid_alloc_dealloc() {
    let mut pool = FixedPool::<i32>::new(10).unwrap();

    for i in 0..1000 {
        let handle = pool.allocate(i).unwrap();
        pool.return_to_pool(handle);
    }

    assert!(pool.is_empty());
}

#[test]
fn test_allocation_order_independence() {
    let mut pool = FixedPool::<i32>::new(5).unwrap();

    let h1 = pool.allocate(1).unwrap();
    let h2 = pool.allocate(2).unwrap();
    let h3 = pool.allocate(3).unwrap();

    pool.return_to_pool(h2); // Return middle handle
    pool.return_to_pool(h1); // Return first handle

    let h4 = pool.allocate(4).unwrap();
    let h5 = pool.allocate(5).unwrap();

    assert_eq!(*pool.get(&h3), 3);
    assert_eq!(*pool.get(&h4), 4);
    assert_eq!(*pool.get(&h5), 5);
}

#[test]
fn test_drop_order_doesnt_matter() {
    let mut pool = FixedPool::<String>::new(5).unwrap();

    let h1 = pool.allocate(String::from("one")).unwrap();
    let h2 = pool.allocate(String::from("two")).unwrap();
    let h3 = pool.allocate(String::from("three")).unwrap();

    // Return in a different order
    pool.return_to_pool(h3);
    pool.return_to_pool(h1);
    pool.return_to_pool(h2);

    assert_eq!(pool.available(), 5);
}

#[test]
fn test_handle_comparison() {
    let mut pool = FixedPool::<i32>::new(5).unwrap();

    let h1 = pool.allocate(42).unwrap();
    let h2 = pool.allocate(42).unwrap();
    let h3 = pool.allocate(99).unwrap();

    assert!(pool.handles_equal(&h1, &h2)); // Same value
    assert!(!pool.handles_equal(&h1, &h3)); // Different value
    assert!(pool.handles_less_than(&h1, &h3));
    assert!(!pool.handles_less_than(&h3, &h1));
}

struct LargeObject {
    data: [u8; 1024 * 10], // 10 KB
}

impl Poolable for LargeObject {
    fn acquire_spec(self) -> Self {
        self
    }
    fn release_spec(self) -> Self {
        self
    }
    fn on_acquire(&mut self) {}
    fn on_release(&mut self) {}
}

#[test]
fn test_large_object_allocation() {
    let mut pool = FixedPool::<LargeObject>::new(10).unwrap();

    let obj = LargeObject { data: [0; 1024 * 10] };
    let handle = pool.allocate(obj).unwrap();

    assert_eq!(pool.get(&handle).data[0], 0);
}

#[test]
fn poolable_default_impl() {
    struct TestType {
        value: i32,
    }

    impl Poolable for TestType {
        fn acquire_spec(self) -> Self {
            self
        }
        fn release_spec(self) -> Self {
            self
        }
        fn on_acquire(&mut self) {}
        fn on_release(&mut self) {}
    }

    let mut obj = TestType { value: 42 };

    // The hooks run and leave the value alone
    obj.on_acquire();
    obj.on_release();

    assert_eq!(obj.value, 42);
}

#[test]
fn poolable_custom_impl() {
    struct CustomType {
        counter: i32,
    }

    impl Poolable for CustomType {
        fn acquire_spec(self) -> Self {
            self
        }
        fn release_spec(self) -> Self {
            self
        }
        fn on_acquire(&mut self) {
            self.counter = 0;
        }

        fn on_release(&mut self) {
            self.counter = -1;
        }
    }

    let mut obj = CustomType { counter: 100 };
    obj.on_acquire();
    assert_eq!(obj.counter, 0);

    obj.counter = 50;
    obj.on_release();
    assert_eq!(obj.counter, -1);
}

#[test]
fn thread_local_pool_basic() {
    let mut pool = ThreadLocalPool::<i32>::new(10).unwrap();

    let handle = pool.allocate(42).unwrap();
    assert_eq!(*pool.get(&handle), 42);
    assert_eq!(pool.allocated(), 1);

    pool.return_to_pool(handle);
    assert_eq!(pool.allocated(), 0);
}

#[test]
fn thread_local_pool_multiple_allocations() {
    let mut pool = ThreadLocalPool::new(5).unwrap();

    let _h1 = pool.allocate(1).unwrap();
    let _h2 = pool.allocate(2).unwrap();
    let _h3 = pool.allocate(3).unwrap();

    assert_eq!(pool.allocated(), 3);
    assert_eq!(pool.available(), 2);
}

#[test]
fn thread_local_pool_capacity() {
    let mut pool = ThreadLocalPool::<i32>::new(3).unwrap();

    let _h1 = pool.allocate(1).unwrap();
    let _h2 = pool.allocate(2).unwrap();
    let _h3 = pool.allocate(3).unwrap();

    assert!(pool.is_full());

    let result = pool.allocate(4);
    assert!(result.is_err());
}

#[test]
fn test_thread_local_pool_basic() {
    let mut pool = ThreadLocalPool::<i32>::new(50).unwrap();

    let handle = pool.allocate(42).unwrap();
    assert_eq!(*pool.get(&handle), 42);
}

#[test]
fn batch_allocation_and_empty_batch() {
    let mut pool = FixedPool::new(100).unwrap();
    let values = vec![1, 2, 3, 4, 5];
    let handles = pool.allocate_batch(values).unwrap();
    assert_eq!(handles.len(), 5);
    for (i, h) in handles.iter().enumerate() {
        assert_eq!(*pool.get(h), (i + 1) as i32);
    }

    // An empty batch succeeds and hands back an empty list.
    let none: Vec<i32> = Vec::new();
    let empty = pool.allocate_batch(none).unwrap();
    assert!(empty.is_empty());
}

#[test]
fn batch_allocation_fails_without_room() {
    let mut pool = FixedPool::<i32>::new(3).unwrap();
    let _h = pool.allocate(0).unwrap();
    let result = pool.allocate_batch(vec![1, 2, 3]);
    assert!(matches!(result, Err(Error::PoolExhausted { .. })));
    // Nothing was taken by the failed batch.
    assert_eq!(pool.available(), 2);
}

#[test]
fn try_allocate_some_and_none() {
    let mut pool = FixedPool::<i32>::new(1).unwrap();
    let h = pool.try_allocate(42).unwrap();
    assert_eq!(*pool.get(&h), 42);
    assert!(pool.try_allocate(43).is_none());
}

#[test]
fn lifecycle_scenario_fixed_capacity_three() {
    let mut pool = FixedPool::<i32>::new(3).unwrap();
    let h1 = pool.allocate(10).unwrap();
    let h2 = pool.allocate(20).unwrap();
    let h3 = pool.allocate(30).unwrap();
    assert_eq!(pool.available(), 0);

    pool.return_to_pool(h2);
    let _h4 = pool.allocate(40).unwrap();

    match pool.allocate(50) {
        Err(Error::PoolExhausted { capacity, allocated }) => {
            assert_eq!(capacity, 3);
            assert_eq!(allocated, 3);
        },
        _ => panic!("expected exhaustion"),
    }
    assert_eq!(*pool.get(&h1), 10);
    assert_eq!(*pool.get(&h3), 30);
}

#[test]
fn lifo_reuse_scenario() {
    let mut pool = FixedPool::<char>::new(2).unwrap();
    let a = pool.allocate('A').unwrap();
    let b = pool.allocate('B').unwrap();
    let a_index = a.index();
    let b_index = b.index();

    pool.return_to_pool(a);
    let c = pool.allocate('C').unwrap();
    assert_eq!(c.index(), a_index);

    pool.return_to_pool(b);
    let d = pool.allocate('D').unwrap();
    assert_eq!(d.index(), b_index);
}

#[test]
fn allocate_then_release_restores_the_pool() {
    let mut pool = FixedPool::<i32>::new(4).unwrap();
    let anchor = pool.allocate(7).unwrap();
    let available_before = pool.available();

    let h = pool.allocate(99).unwrap();
    pool.return_to_pool(h);

    assert_eq!(pool.available(), available_before);
    // The same slot comes back for the next claim.
    let again = pool.allocate(100).unwrap();
    assert_eq!(*pool.get(&again), 100);
    assert_eq!(*pool.get(&anchor), 7);
}

#[test]
fn pool_statistics_and_reset() {
    let mut pool = FixedPool::<i32>::new(4).unwrap();
    let h1 = pool.allocate(1).unwrap();
    let _h2 = pool.allocate(2).unwrap();
    pool.return_to_pool(h1);

    let stats = pool.statistics();
    assert_eq!(stats.total_allocations, 2);
    assert_eq!(stats.total_deallocations, 1);
    assert_eq!(stats.current_usage, 1);
    assert_eq!(stats.peak_usage, 2);
    assert_eq!(stats.capacity, 4);

    pool.reset_statistics();
    pool.reset_statistics();
    let cleared = pool.statistics();
    assert_eq!(cleared.total_allocations, 0);
    assert_eq!(cleared.total_deallocations, 0);
    assert_eq!(cleared.peak_usage, 0);
    assert_eq!(cleared.capacity, 4);
    // Usage is read from the pool itself, not the counters.
    assert_eq!(cleared.current_usage, 1);
}
