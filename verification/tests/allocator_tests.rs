//! Tests for the slot trackers.

use fastalloc::allocator::Allocator;
use fastalloc::allocator::BitmapAllocator;
use fastalloc::allocator::FreeListAllocator;
use fastalloc::allocator::StackAllocator;

fn exercise_allocator<A: Allocator>(mut allocator: A) {
    let capacity = allocator.capacity();
    assert_eq!(allocator.available(), capacity);
    assert!(allocator.is_empty());
    assert!(!allocator.is_full());

    // Allocate all slots
    let mut indices = Vec::new();
    for _ in 0..capacity {
        let idx = allocator.allocate().expect("should allocate");
        indices.push(idx);
    }

    assert_eq!(allocator.available(), 0);
    assert!(!allocator.is_empty());
    assert!(allocator.is_full());

    // Should fail when full
    assert!(allocator.allocate().is_none());

    // Free all slots
    for idx in indices {
        allocator.free(idx);
    }

    assert_eq!(allocator.available(), capacity);
    assert!(allocator.is_empty());
    assert!(!allocator.is_full());
}

#[test]
fn test_stack_allocator() {
    exercise_allocator(StackAllocator::new(100));
}

#[test]
fn test_freelist_allocator() {
    exercise_allocator(FreeListAllocator::new(100));
}

#[test]
fn test_bitmap_allocator() {
    exercise_allocator(BitmapAllocator::new(100));
}

#[test]
fn new_allocator_has_all_slots_available() {
    let allocator = StackAllocator::new(10);
    assert_eq!(allocator.available(), 10);
    assert_eq!(allocator.capacity(), 10);
    assert!(allocator.is_empty());
    assert!(!allocator.is_full());
}

#[test]
fn allocate_returns_indices_in_order() {
    let mut allocator = StackAllocator::new(5);

    // Should allocate 0, 1, 2, 3, 4 in order
    assert_eq!(allocator.allocate(), Some(0));
    assert_eq!(allocator.allocate(), Some(1));
    assert_eq!(allocator.allocate(), Some(2));
    assert_eq!(allocator.allocate(), Some(3));
    assert_eq!(allocator.allocate(), Some(4));
    assert_eq!(allocator.allocate(), None);
}

#[test]
fn lifo_behavior() {
    let mut allocator = StackAllocator::new(3);

    let idx0 = allocator.allocate().unwrap();
    let idx1 = allocator.allocate().unwrap();
    let idx2 = allocator.allocate().unwrap();

    // Free in order: idx0, idx1, idx2
    allocator.free(idx0);
    allocator.free(idx1);
    allocator.free(idx2);

    // Should get them back in LIFO order: idx2, idx1, idx0
    assert_eq!(allocator.allocate(), Some(idx2));
    assert_eq!(allocator.allocate(), Some(idx1));
    assert_eq!(allocator.allocate(), Some(idx0));
}

#[test]
fn with_additional_capacity() {
    let mut allocator = StackAllocator::new(2);

    allocator.allocate();
    allocator.allocate();
    assert!(allocator.is_full());

    allocator.with_additional_capacity(3);
    assert_eq!(allocator.capacity(), 5);
    assert_eq!(allocator.available(), 3);

    // Should be able to allocate new indices
    assert_eq!(allocator.allocate(), Some(2));
    assert_eq!(allocator.allocate(), Some(3));
    assert_eq!(allocator.allocate(), Some(4));
    assert!(allocator.is_full());
}

#[test]
fn freelist_new_allocator_is_empty() {
    let allocator = FreeListAllocator::new(10);
    assert_eq!(allocator.available(), 10);
    assert_eq!(allocator.capacity(), 10);
    assert!(allocator.is_empty());
}

#[test]
fn freelist_allocate_and_free() {
    let mut allocator = FreeListAllocator::new(5);

    let idx0 = allocator.allocate().unwrap();
    let idx1 = allocator.allocate().unwrap();
    assert_eq!(allocator.available(), 3);

    allocator.free(idx0);
    assert_eq!(allocator.available(), 4);

    allocator.free(idx1);
    assert_eq!(allocator.available(), 5);
    assert!(allocator.is_empty());
}

#[test]
fn freelist_allocate_until_full() {
    let mut allocator = FreeListAllocator::new(3);

    assert!(allocator.allocate().is_some());
    assert!(allocator.allocate().is_some());
    assert!(allocator.allocate().is_some());
    assert!(allocator.is_full());
    assert!(allocator.allocate().is_none());
}

#[test]
fn freelist_extend_capacity() {
    let mut allocator = FreeListAllocator::new(2);

    allocator.allocate();
    allocator.allocate();
    assert!(allocator.is_full());

    allocator.extend(3);
    assert_eq!(allocator.capacity(), 5);
    assert_eq!(allocator.available(), 3);
    assert!(!allocator.is_full());

    assert!(allocator.allocate().is_some());
    assert!(allocator.allocate().is_some());
    assert!(allocator.allocate().is_some());
    assert!(allocator.is_full());
}

#[test]
fn freelist_reuse_freed_slots() {
    let mut allocator = FreeListAllocator::new(3);

    let idx0 = allocator.allocate().unwrap();
    let _idx1 = allocator.allocate().unwrap();

    allocator.free(idx0);

    let idx2 = allocator.allocate().unwrap();
    // Should reuse the freed slot
    assert_eq!(idx2, idx0);
}

#[test]
fn bitmap_new_allocator_is_empty() {
    let allocator = BitmapAllocator::new(100);
    assert_eq!(allocator.available(), 100);
    assert_eq!(allocator.capacity(), 100);
    assert!(allocator.is_empty());
}

#[test]
fn bitmap_allocate_and_free() {
    let mut allocator = BitmapAllocator::new(10);

    let idx0 = allocator.allocate().unwrap();
    let idx1 = allocator.allocate().unwrap();
    assert_eq!(allocator.available(), 8);
    assert_eq!(allocator.capacity() - allocator.available(), 2);

    allocator.free(idx0);
    assert_eq!(allocator.available(), 9);
    assert_eq!(allocator.capacity() - allocator.available(), 1);

    allocator.free(idx1);
    assert!(allocator.is_empty());
}

#[test]
fn bitmap_allocate_until_full() {
    let mut allocator = BitmapAllocator::new(5);

    for _ in 0..5 {
        assert!(allocator.allocate().is_some());
    }

    assert!(allocator.is_full());
    assert!(allocator.allocate().is_none());
}

#[test]
fn bitmap_extend_capacity() {
    let mut allocator = BitmapAllocator::new(2);

    allocator.allocate();
    allocator.allocate();
    assert!(allocator.is_full());

    allocator.extend(3);
    assert_eq!(allocator.capacity(), 5);
    assert_eq!(allocator.available(), 3);

    assert!(allocator.allocate().is_some());
    assert!(allocator.allocate().is_some());
    assert!(allocator.allocate().is_some());
    assert!(allocator.is_full());
}

#[test]
fn large_capacity() {
    let mut allocator = BitmapAllocator::new(1000);

    // Allocate many slots
    let mut indices = Vec::new();
    for _ in 0..500 {
        indices.push(allocator.allocate().unwrap());
    }

    assert_eq!(allocator.available(), 500);

    // Free them
    for idx in indices {
        allocator.free(idx);
    }

    assert!(allocator.is_empty());
}

#[test]
fn bitmap_reuse_freed_slots() {
    let mut allocator = BitmapAllocator::new(10);

    let idx = allocator.allocate().unwrap();
    allocator.free(idx);

    let reused_idx = allocator.allocate().unwrap();
    assert_eq!(reused_idx, idx);
}

#[test]
fn bitmap_lowest_free_wins_from_fresh_hint() {
    let mut allocator = BitmapAllocator::new(70);
    let mut held = Vec::new();
    for _ in 0..70 {
        held.push(allocator.allocate().unwrap());
    }
    // Free a few out of order; freeing moves the hint to the freed word.
    allocator.free(65);
    allocator.free(3);
    allocator.free(40);
    // The hint now sits on the first word, so the lowest free index wins.
    assert_eq!(allocator.allocate(), Some(3));
}

#[test]
fn bitmap_find_free_slots_counts() {
    let mut allocator = BitmapAllocator::new(8);
    let found = allocator.find_free_slots(3).unwrap();
    assert_eq!(found.len(), 3);
    assert!(allocator.find_free_slots(9).is_none());
    let none_needed = allocator.find_free_slots(0).unwrap();
    assert!(none_needed.is_empty());
}
