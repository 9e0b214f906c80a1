//! Slot trackers: the structures that record which slot indices are free.
//!
//! Three interchangeable variants stand behind one contract: a LIFO stack,
//! a free list, and a bitmap with a scan hint.

mod bitmap;
mod freelist;
mod stack;

pub use bitmap::lemma_bitmap_lowest_free;
pub use bitmap::BitmapAllocator;
pub use freelist::FreeListAllocator;
pub use stack::StackAllocator;

use vstd::prelude::*;

verus! {

/// Whether some position of `s` holds the index `i`.
pub open spec fn has_index(s: Seq<usize>, i: int) -> bool {
    exists|k: int| 0 <= k < s.len() && (#[trigger] s[k]) as int == i
}

/// Dropping the last element of a duplicate-free sequence removes exactly
/// that index from the contents.
pub proof fn lemma_drop_last_has_index(s: Seq<usize>, i: int)
    requires
        s.no_duplicates(),
        s.len() > 0,
    ensures
        has_index(s.drop_last(), i) <==> (has_index(s, i) && i != s.last() as int),
{
    if has_index(s.drop_last(), i) {
        let k = choose|k: int| 0 <= k < s.drop_last().len() && (#[trigger] s.drop_last()[k])
            as int == i;
        assert(s[k] as int == i);
        assert(s[k] != s[s.len() - 1] || k == s.len() - 1);
    }
    if has_index(s, i) && i != s.last() as int {
        let k = choose|k: int| 0 <= k < s.len() && (#[trigger] s[k]) as int == i;
        assert(k != s.len() - 1);
        assert(s.drop_last()[k] as int == i);
    }
}

/// Pushing an index onto a sequence adds exactly that index to the contents.
pub proof fn lemma_push_has_index(s: Seq<usize>, x: usize, i: int)
    ensures
        has_index(s.push(x), i) <==> (has_index(s, i) || i == x as int),
{
    if has_index(s, i) {
        let k = choose|k: int| 0 <= k < s.len() && (#[trigger] s[k]) as int == i;
        assert(s.push(x)[k] as int == i);
    }
    if i == x as int {
        assert(s.push(x)[s.len() as int] as int == i);
    }
    if has_index(s.push(x), i) && i != x as int {
        let k = choose|k: int| 0 <= k < s.push(x).len() && (#[trigger] s.push(x)[k]) as int == i;
        assert(k != s.len());
        assert(s[k] as int == i);
    }
}

/// Concatenation joins the contents of the two sequences.
pub proof fn lemma_concat_has_index(s: Seq<usize>, t: Seq<usize>, i: int)
    ensures
        has_index(s + t, i) <==> (has_index(s, i) || has_index(t, i)),
{
    if has_index(s, i) {
        let k = choose|k: int| 0 <= k < s.len() && (#[trigger] s[k]) as int == i;
        assert((s + t)[k] as int == i);
    }
    if has_index(t, i) {
        let k = choose|k: int| 0 <= k < t.len() && (#[trigger] t[k]) as int == i;
        assert((s + t)[s.len() + k] as int == i);
    }
    if has_index(s + t, i) {
        let k = choose|k: int| 0 <= k < (s + t).len() && (#[trigger] (s + t)[k]) as int == i;
        if k < s.len() {
            assert(s[k] as int == i);
        } else {
            assert(t[k - s.len()] as int == i);
        }
    }
}

/// The internal consistency shared by the list-backed trackers: the free
/// list holds each index at most once, only in-range indices, exactly the
/// indices that are not live, and together the free and the live indices
/// number `capacity`.
pub open spec fn tracker_inv(s: Seq<usize>, live: Set<int>, capacity: int) -> bool {
    &&& live.finite()
    &&& forall|i: int| live.contains(i) ==> 0 <= i < capacity
    &&& s.no_duplicates()
    &&& forall|k: int| 0 <= k < s.len() ==> (#[trigger] s[k]) < capacity
    &&& forall|i: int| 0 <= i < capacity ==> (has_index(s, i) <==> !live.contains(i))
    &&& s.len() + live.len() == capacity
}

/// Claiming the last listed index preserves the tracker invariant and
/// changes the freeness of exactly that index.
pub proof fn lemma_tracker_pop(s: Seq<usize>, live: Set<int>, capacity: int)
    requires
        tracker_inv(s, live, capacity),
        s.len() > 0,
    ensures
        tracker_inv(s.drop_last(), live.insert(s.last() as int), capacity),
        !live.contains(s.last() as int),
        has_index(s, s.last() as int),
        (s.last() as int) < capacity,
        !has_index(s.drop_last(), s.last() as int),
        forall|j: int| j != s.last() as int ==> has_index(s.drop_last(), j) == has_index(s, j),
{
    let x = s.last() as int;
    assert(s[s.len() - 1] as int == x);
    assert(s[s.len() - 1] < capacity);
    assert(has_index(s, x));
    lemma_drop_last_has_index(s, x);
    assert forall|j: int| j != x implies has_index(s.drop_last(), j) == has_index(s, j) by {
        lemma_drop_last_has_index(s, j);
    }
    assert forall|k1: int, k2: int|
        0 <= k1 < s.drop_last().len() && 0 <= k2 < s.drop_last().len() && k1
            != k2 implies s.drop_last()[k1] != s.drop_last()[k2] by {
        assert(s[k1] != s[k2]);
    }
    assert forall|i: int|
        0 <= i < capacity implies (has_index(s.drop_last(), i) <==> !live.insert(x).contains(
        i,
    )) by {
        if i != x {
            lemma_drop_last_has_index(s, i);
        }
    }
}

/// Releasing an index preserves the tracker invariant and changes the
/// freeness of exactly that index.
pub proof fn lemma_tracker_push(s: Seq<usize>, live: Set<int>, capacity: int, index: usize)
    requires
        tracker_inv(s, live, capacity),
        index < capacity,
        !has_index(s, index as int),
    ensures
        tracker_inv(s.push(index), live.remove(index as int), capacity),
        live.contains(index as int),
        has_index(s.push(index), index as int),
        forall|j: int| j != index as int ==> has_index(s.push(index), j) == has_index(s, j),
{
    let x = index as int;
    lemma_push_has_index(s, index, x);
    assert forall|j: int| j != x implies has_index(s.push(index), j) == has_index(s, j) by {
        lemma_push_has_index(s, index, j);
    }
    assert forall|k1: int, k2: int|
        0 <= k1 < s.push(index).len() && 0 <= k2 < s.push(index).len() && k1 != k2 implies s.push(
        index,
    )[k1] != s.push(index)[k2] by {
        if k1 < s.len() && k2 < s.len() {
            assert(s[k1] != s[k2]);
        } else if k1 < s.len() {
            assert(s[k1] as int != x);
        } else if k2 < s.len() {
            assert(s[k2] as int != x);
        }
    }
    assert forall|i: int|
        0 <= i < capacity implies (has_index(s.push(index), i) <==> !live.remove(x).contains(
        i,
    )) by {
        lemma_push_has_index(s, index, i);
    }
}

/// Appending fresh indices above the old capacity preserves the tracker
/// invariant at the grown capacity; old indices keep their state and all
/// the new ones are free.
pub proof fn lemma_tracker_extend(
    s: Seq<usize>,
    live: Set<int>,
    capacity: int,
    tail: Seq<usize>,
    new_capacity: int,
)
    requires
        tracker_inv(s, live, capacity),
        new_capacity == capacity + tail.len(),
        tail.no_duplicates(),
        forall|k: int| 0 <= k < tail.len() ==> capacity <= (#[trigger] tail[k]) < new_capacity,
        forall|j: int| capacity <= j < new_capacity ==> has_index(tail, j),
    ensures
        tracker_inv(s + tail, live, new_capacity),
        forall|j: int| 0 <= j < capacity ==> has_index(s + tail, j) == has_index(s, j),
        forall|j: int| capacity <= j < new_capacity ==> has_index(s + tail, j),
{
    assert forall|j: int| 0 <= j < capacity implies has_index(s + tail, j) == has_index(s, j) by {
        lemma_concat_has_index(s, tail, j);
        if has_index(tail, j) {
            let k = choose|k: int| 0 <= k < tail.len() && (#[trigger] tail[k]) as int == j;
        }
    }
    assert forall|j: int| capacity <= j < new_capacity implies has_index(s + tail, j) by {
        lemma_concat_has_index(s, tail, j);
    }
    assert forall|k1: int, k2: int|
        0 <= k1 < (s + tail).len() && 0 <= k2 < (s + tail).len() && k1 != k2 implies (s
        + tail)[k1] != (s + tail)[k2] by {
        if k1 < s.len() && k2 < s.len() {
            assert(s[k1] != s[k2]);
        } else if k1 >= s.len() && k2 >= s.len() {
            assert(tail[k1 - s.len()] != tail[k2 - s.len()]);
        } else if k1 < s.len() {
            assert(s[k1] < capacity && tail[k2 - s.len()] >= capacity);
        } else {
            assert(s[k2] < capacity && tail[k1 - s.len()] >= capacity);
        }
    }
    assert forall|i: int|
        0 <= i < new_capacity implies (has_index(s + tail, i) <==> !live.contains(i)) by {
        lemma_concat_has_index(s, tail, i);
        if i >= capacity {
            assert(!live.contains(i));
        }
    }
    assert forall|k: int| 0 <= k < (s + tail).len() implies (#[trigger] (s + tail)[k])
        < new_capacity by {
        if k < s.len() {
            assert(s[k] < capacity);
        } else {
            assert(tail[k - s.len()] < new_capacity);
        }
    }
}

/// The common contract of the slot trackers.
///
/// A tracker over `capacity` slots keeps every index in `[0, capacity)`
/// either free or live, never both: `is_free` is the authoritative state,
/// `claim` moves one free index to live, `free` moves one live index back.
pub trait Allocator: Sized {
    /// Total number of slots tracked.
    spec fn capacity_spec(&self) -> nat;

    /// Whether index `i` is currently free (false outside `[0, capacity)`).
    spec fn is_free(&self, i: int) -> bool;

    /// The number of free slots.
    spec fn available_spec(&self) -> nat;

    /// Internal consistency of the tracker.
    spec fn wf(&self) -> bool;

    /// There are never more free slots than slots.
    proof fn lemma_available_bounded(&self)
        requires
            self.wf(),
        ensures
            self.available_spec() <= self.capacity_spec(),
    ;

    /// A free index is always in range.
    proof fn lemma_free_in_range(&self, i: int)
        requires
            self.wf(),
            self.is_free(i),
        ensures
            0 <= i < self.capacity_spec(),
    ;

    /// When every slot is available, every index in range is free: after
    /// as many releases as claims the tracker is back to its initial
    /// contents.
    proof fn lemma_all_available_all_free(&self)
        requires
            self.wf(),
            self.available_spec() == self.capacity_spec(),
        ensures
            forall|i: int| 0 <= i < self.capacity_spec() ==> self.is_free(i),
    ;

    /// Allocates a slot index, returning the index if successful.
    ///
    /// Fails exactly when no slot is free, and then leaves the tracker
    /// unchanged.
    fn allocate(&mut self) -> (r: Option<usize>)
        requires
            old(self).wf(),
        ensures
            final(self).wf(),
            final(self).capacity_spec() == old(self).capacity_spec(),
            match r {
                Some(i) => {
                    &&& old(self).is_free(i as int)
                    &&& i < old(self).capacity_spec()
                    &&& !final(self).is_free(i as int)
                    &&& forall|j: int|
                        j != i as int ==> final(self).is_free(j) == old(self).is_free(j)
                    &&& final(self).available_spec() == old(self).available_spec() - 1
                },
                None => {
                    &&& old(self).available_spec() == 0
                    &&& final(self).available_spec() == 0
                    &&& forall|j: int| final(self).is_free(j) == old(self).is_free(j)
                },
            },
    ;

    /// Frees a previously allocated slot.
    fn free(&mut self, index: usize)
        requires
            old(self).wf(),
            index < old(self).capacity_spec(),
            !old(self).is_free(index as int),
        ensures
            final(self).wf(),
            final(self).capacity_spec() == old(self).capacity_spec(),
            final(self).is_free(index as int),
            forall|j: int| j != index as int ==> final(self).is_free(j) == old(self).is_free(j),
            final(self).available_spec() == old(self).available_spec() + 1,
    ;

    /// Returns the number of available slots.
    fn available(&self) -> (r: usize)
        requires
            self.wf(),
        ensures
            r == self.available_spec(),
    ;

    /// Returns the total capacity.
    fn capacity(&self) -> (r: usize)
        ensures
            r == self.capacity_spec(),
    ;

    /// Returns whether the allocator is full.
    fn is_full(&self) -> (r: bool)
        requires
            self.wf(),
        ensures
            r == (self.available_spec() == 0),
    ;

    /// Returns whether the allocator is empty (all slots free).
    fn is_empty(&self) -> (r: bool)
        requires
            self.wf(),
        ensures
            r == (self.available_spec() == self.capacity_spec()),
    ;
}

/// No index is ever both free and live: for any tracker in a consistent
/// state, an index handed out by `allocate` (and still live) cannot be
/// handed out again while it stays live, because every later claim takes
/// a free index and freeness excludes liveness.
pub proof fn lemma_live_free_exclusive<A: Allocator>(t: &A, i: int, j: int)
    requires
        t.wf(),
        t.is_free(j),
        0 <= i < t.capacity_spec(),
        !t.is_free(i),
    ensures
        i != j,
{
}

} // verus!
