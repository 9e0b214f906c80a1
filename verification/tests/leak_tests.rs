//! Tests that every slot taken comes back to the pool.

use fastalloc::FixedPool;
use fastalloc::Poolable;

#[test]
fn test_no_leak_on_normal_usage() {
    let mut pool = FixedPool::<Vec<u8>>::new(10).unwrap();

    for _ in 0..100 {
        let handle = pool.allocate(vec![0u8; 1024]).unwrap();
        pool.return_to_pool(handle);
    }

    assert_eq!(pool.allocated(), 0);
    assert_eq!(pool.available(), pool.capacity());
}

#[test]
fn test_no_leak_with_vec_of_handles() {
    let mut pool = FixedPool::<String>::new(50).unwrap();

    let mut handles = Vec::new();
    for i in 0..50 {
        handles.push(pool.allocate(format!("String {}", i)).unwrap());
    }

    assert_eq!(pool.allocated(), 50);

    for h in handles {
        pool.return_to_pool(h);
    }

    assert_eq!(pool.allocated(), 0);
}

#[test]
fn test_no_leak_with_partial_drops() {
    let mut pool = FixedPool::<Vec<i32>>::new(20).unwrap();

    for _ in 0..10 {
        let mut handles = Vec::new();
        for i in 0..20 {
            handles.push(pool.allocate(vec![i; 10]).unwrap());
        }

        // Return half
        for h in handles.drain(0..10) {
            pool.return_to_pool(h);
        }
        assert_eq!(pool.allocated(), 10);

        // Return the rest
        for h in handles {
            pool.return_to_pool(h);
        }
        assert_eq!(pool.allocated(), 0);
    }
}

#[test]
fn test_nested_allocation() {
    let mut pool = FixedPool::<Vec<Vec<u8>>>::new(10).unwrap();

    let handle = pool.allocate(Vec::new()).unwrap();
    for _ in 0..10 {
        pool.get_mut(&handle).push(vec![0u8; 100]);
    }

    assert_eq!(pool.get(&handle).len(), 10);
    pool.return_to_pool(handle);

    assert_eq!(pool.allocated(), 0);
}

#[test]
fn test_drop_in_different_scopes() {
    let mut pool = FixedPool::<String>::new(5).unwrap();

    let h1 = pool.allocate(String::from("outer")).unwrap();
    let h2 = pool.allocate(String::from("inner")).unwrap();
    assert_eq!(pool.allocated(), 2);
    pool.return_to_pool(h2);
    assert_eq!(pool.allocated(), 1);
    pool.return_to_pool(h1);
    assert_eq!(pool.allocated(), 0);
}

#[derive(Clone)]
struct Cloneable {
    data: Vec<u8>,
}

impl Poolable for Cloneable {
    fn acquire_spec(self) -> Self {
        self
    }
    fn release_spec(self) -> Self {
        self
    }
    fn on_acquire(&mut self) {}
    fn on_release(&mut self) {}
}

#[test]
fn test_leak_detection_with_clone() {
    let mut pool = FixedPool::<Cloneable>::new(10).unwrap();

    let handle = pool.allocate(Cloneable { data: vec![1, 2, 3] }).unwrap();
    let _cloned_data = pool.get(&handle).data.clone();
    // The handle itself is not cloned, only the element's data
    pool.return_to_pool(handle);

    assert_eq!(pool.allocated(), 0);
}
