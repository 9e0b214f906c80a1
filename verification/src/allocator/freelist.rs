//! Free-list slot tracker.

use vstd::prelude::*;

verus! {

use crate::allocator::{
    has_index, lemma_tracker_extend, lemma_tracker_pop, lemma_tracker_push, tracker_inv, Allocator,
};

/// A tracker that keeps the free indices in an unordered list.
///
/// The order between a release and a later claim is not part of the common
/// contract, but it is deterministic: a claim takes the most recently
/// listed index. Claim and release are constant time.
pub struct FreeListAllocator {
    /// List of free indices
    free_list: Vec<usize>,
    /// Total capacity
    capacity: usize,
    /// The set of indices handed out and not yet returned
    live: Ghost<Set<int>>,
}

impl FreeListAllocator {
    /// The list of free indices; the last is claimed next.
    pub closed spec fn free_seq(&self) -> Seq<usize> {
        self.free_list@
    }

    /// An index is free exactly when the free list holds it.
    pub proof fn lemma_is_free_iff_listed(&self, i: int)
        ensures
            self.is_free(i) == has_index(self.free_seq(), i),
    {
    }

    /// The number of free slots is the free list's length.
    pub proof fn lemma_available_is_free_len(&self)
        ensures
            self.available_spec() == self.free_seq().len(),
    {
    }

    /// The free list never lists an index twice.
    pub proof fn lemma_free_seq_no_duplicates(&self)
        requires
            self.wf(),
        ensures
            self.free_seq().no_duplicates(),
    {
    }

    /// Creates a new free-list tracker with the given capacity; the list
    /// holds the indices in ascending order.
    pub fn new(capacity: usize) -> (r: FreeListAllocator)
        ensures
            r.wf(),
            r.capacity_spec() == capacity,
            r.available_spec() == capacity,
            r.free_seq() == Seq::new(capacity as nat, |k: int| k as usize),
    {
        let mut free_list: Vec<usize> = Vec::new();
        let mut i: usize = 0;
        while i < capacity
            invariant
                i <= capacity,
                free_list@ == Seq::new(i as nat, |k: int| k as usize),
            decreases capacity - i,
        {
            free_list.push(i);
            i = i + 1;
            proof {
                assert(free_list@ =~= Seq::new(i as nat, |k: int| k as usize));
            }
        }
        let r = FreeListAllocator { free_list, capacity, live: Ghost(Set::empty()) };
        proof {
            assert forall|j: int| 0 <= j < capacity implies has_index(r.free_list@, j) by {
                assert(r.free_list@[j] as int == j);
            }
        }
        r
    }

    /// Extends the tracker with additional capacity; the new indices are
    /// appended in ascending order.
    pub fn extend(&mut self, additional: usize)
        requires
            old(self).wf(),
            old(self).capacity_spec() + additional <= usize::MAX,
        ensures
            final(self).wf(),
            final(self).capacity_spec() == old(self).capacity_spec() + additional,
            final(self).available_spec() == old(self).available_spec() + additional,
            forall|j: int|
                0 <= j < old(self).capacity_spec() ==> final(self).is_free(j) == old(
                self).is_free(j),
            forall|j: int|
                old(self).capacity_spec() <= j < final(self).capacity_spec() ==> final(
                self).is_free(j),
            final(self).free_seq() == old(self).free_seq() + Seq::new(
                additional as nat,
                |k: int| (old(self).capacity_spec() + k) as usize,
            ),
    {
        let old_capacity = self.capacity;
        self.capacity = self.capacity + additional;
        let ghost tail = Seq::new(additional as nat, |k: int| (old_capacity + k) as usize);
        let mut i: usize = old_capacity;
        while i < self.capacity
            invariant
                old_capacity <= i <= self.capacity,
                self.capacity == old_capacity + additional,
                self.live == old(self).live,
                self.free_list@ == old(self).free_seq() + tail.take(i - old_capacity),
                tail == Seq::new(additional as nat, |k: int| (old_capacity + k) as usize),
            decreases self.capacity - i,
        {
            self.free_list.push(i);
            i = i + 1;
            proof {
                assert(self.free_list@ =~= old(self).free_seq() + tail.take(i - old_capacity));
            }
        }
        proof {
            assert(self.free_list@ =~= old(self).free_seq() + tail);
            assert forall|j: int|
                old_capacity <= j < old_capacity + additional implies has_index(tail, j) by {
                assert(tail[j - old_capacity] as int == j);
            }
            lemma_tracker_extend(
                old(self).free_seq(),
                self.live@,
                old_capacity as int,
                tail,
                self.capacity as int,
            );
        }
    }
}

impl Allocator for FreeListAllocator {
    closed spec fn capacity_spec(&self) -> nat {
        self.capacity as nat
    }

    closed spec fn is_free(&self, i: int) -> bool {
        has_index(self.free_list@, i)
    }

    closed spec fn available_spec(&self) -> nat {
        self.free_list@.len()
    }

    closed spec fn wf(&self) -> bool {
        tracker_inv(self.free_list@, self.live@, self.capacity as int)
    }

    proof fn lemma_available_bounded(&self) {
    }

    proof fn lemma_free_in_range(&self, i: int) {
        let k = choose|k: int|
            0 <= k < self.free_list@.len() && (#[trigger] self.free_list@[k]) as int == i;
    }

    proof fn lemma_all_available_all_free(&self) {
        assert forall|i: int| 0 <= i < self.capacity_spec() implies self.is_free(i) by {
            if self.live@.contains(i) {
                vstd::set::axiom_set_remove_len(self.live@, i);
            }
        }
    }

    /// Claims the most recently listed index.
    fn allocate(&mut self) -> (r: Option<usize>)
        ensures
            r == (if old(self).free_seq().len() == 0 {
                None::<usize>
            } else {
                Some(old(self).free_seq().last())
            }),
            final(self).free_seq() == (if old(self).free_seq().len() == 0 {
                old(self).free_seq()
            } else {
                old(self).free_seq().drop_last()
            }),
    {
        match self.free_list.pop() {
            Some(index) => {
                proof {
                    lemma_tracker_pop(
                        old(self).free_list@,
                        old(self).live@,
                        old(self).capacity as int,
                    );
                    assert(index == old(self).free_list@.last());
                    self.live@ = self.live@.insert(index as int);
                }
                Some(index)
            },
            None => None,
        }
    }

    /// Appends the index to the free list.
    fn free(&mut self, index: usize)
        ensures
            final(self).free_seq() == old(self).free_seq().push(index),
    {
        proof {
            lemma_tracker_push(self.free_list@, self.live@, self.capacity as int, index);
            self.live@ = self.live@.remove(index as int);
        }
        self.free_list.push(index);
    }

    fn available(&self) -> (r: usize) {
        self.free_list.len()
    }

    fn capacity(&self) -> (r: usize) {
        self.capacity
    }

    fn is_full(&self) -> (r: bool) {
        self.free_list.len() == 0
    }

    fn is_empty(&self) -> (r: bool) {
        self.free_list.len() == self.capacity
    }
}

} // verus!
