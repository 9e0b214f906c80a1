//! Stack-based (LIFO) slot tracker.

use vstd::prelude::*;

verus! {

use crate::allocator::{
    has_index, lemma_tracker_extend, lemma_tracker_pop, lemma_tracker_push, tracker_inv, Allocator,
};

/// A stack-based tracker that hands out indices in LIFO order.
///
/// A just-released index is the next to be claimed, which keeps recently
/// touched slots warm in cache. Claim and release are constant time.
pub struct StackAllocator {
    /// Stack of available indices (LIFO)
    free_stack: Vec<usize>,
    /// Total capacity
    capacity: usize,
    /// The set of indices handed out and not yet returned
    live: Ghost<Set<int>>,
}

impl StackAllocator {
    /// The stack of free indices, bottom first; the last is claimed next.
    pub closed spec fn free_seq(&self) -> Seq<usize> {
        self.free_stack@
    }

    /// An index is free exactly when the free list holds it.
    pub proof fn lemma_is_free_iff_listed(&self, i: int)
        ensures
            self.is_free(i) == has_index(self.free_seq(), i),
    {
    }

    /// The number of free slots is the free list's length.
    pub proof fn lemma_available_is_free_len(&self)
        ensures
            self.available_spec() == self.free_seq().len(),
    {
    }

    /// The free list never lists an index twice.
    pub proof fn lemma_free_seq_no_duplicates(&self)
        requires
            self.wf(),
        ensures
            self.free_seq().no_duplicates(),
    {
    }

    /// Creates a new stack tracker with the given capacity.
    ///
    /// The stack holds every index, arranged so that index 0 is claimed
    /// first.
    pub fn new(capacity: usize) -> (r: StackAllocator)
        ensures
            r.wf(),
            r.capacity_spec() == capacity,
            r.available_spec() == capacity,
            r.free_seq() == Seq::new(capacity as nat, |k: int| (capacity - 1 - k) as usize),
    {
        let mut free_stack: Vec<usize> = Vec::new();
        let mut i: usize = capacity;
        while i > 0
            invariant
                i <= capacity,
                free_stack@ == Seq::new((capacity - i) as nat, |k: int| (capacity - 1 - k) as usize),
            decreases i,
        {
            i = i - 1;
            free_stack.push(i);
            proof {
                assert(free_stack@ =~= Seq::new(
                    (capacity - i) as nat,
                    |k: int| (capacity - 1 - k) as usize,
                ));
            }
        }
        let r = StackAllocator { free_stack, capacity, live: Ghost(Set::empty()) };
        proof {
            assert forall|j: int| 0 <= j < capacity implies has_index(r.free_stack@, j) by {
                assert(r.free_stack@[capacity - 1 - j] as int == j);
            }
        }
        r
    }

    /// Grows the tracker by `additional` slots; the new indices are free,
    /// arranged so the lowest new index is claimed first.
    pub fn with_additional_capacity(&mut self, additional: usize)
        requires
            old(self).wf(),
            old(self).capacity_spec() + additional <= usize::MAX,
        ensures
            final(self).wf(),
            final(self).capacity_spec() == old(self).capacity_spec() + additional,
            final(self).available_spec() == old(self).available_spec() + additional,
            forall|j: int|
                0 <= j < old(self).capacity_spec() ==> final(self).is_free(j) == old(
                self).is_free(j),
            forall|j: int|
                old(self).capacity_spec() <= j < final(self).capacity_spec() ==> final(
                self).is_free(j),
            final(self).free_seq() == old(self).free_seq() + Seq::new(
                additional as nat,
                |k: int| (old(self).capacity_spec() + additional - 1 - k) as usize,
            ),
    {
        let old_capacity = self.capacity;
        self.capacity = self.capacity + additional;
        let ghost tail = Seq::new(
            additional as nat,
            |k: int| (old_capacity + additional - 1 - k) as usize,
        );
        let mut i: usize = self.capacity;
        while i > old_capacity
            invariant
                old_capacity <= i <= self.capacity,
                self.capacity == old_capacity + additional,
                self.live == old(self).live,
                self.free_stack@ == old(self).free_seq() + tail.take(self.capacity - i),
                tail == Seq::new(
                    additional as nat,
                    |k: int| (old_capacity + additional - 1 - k) as usize,
                ),
            decreases i,
        {
            i = i - 1;
            self.free_stack.push(i);
            proof {
                assert(self.free_stack@ =~= old(self).free_seq() + tail.take(
                    self.capacity - i,
                ));
            }
        }
        proof {
            assert(self.free_stack@ =~= old(self).free_seq() + tail);
            assert forall|j: int|
                old_capacity <= j < old_capacity + additional implies has_index(tail, j) by {
                assert(tail[old_capacity + additional - 1 - j] as int == j);
            }
            lemma_tracker_extend(
                old(self).free_seq(),
                self.live@,
                old_capacity as int,
                tail,
                self.capacity as int,
            );
        }
    }
}

impl Allocator for StackAllocator {
    closed spec fn capacity_spec(&self) -> nat {
        self.capacity as nat
    }

    closed spec fn is_free(&self, i: int) -> bool {
        has_index(self.free_stack@, i)
    }

    closed spec fn available_spec(&self) -> nat {
        self.free_stack@.len()
    }

    closed spec fn wf(&self) -> bool {
        tracker_inv(self.free_stack@, self.live@, self.capacity as int)
    }

    proof fn lemma_available_bounded(&self) {
    }

    proof fn lemma_free_in_range(&self, i: int) {
        let k = choose|k: int|
            0 <= k < self.free_stack@.len() && (#[trigger] self.free_stack@[k]) as int == i;
    }

    proof fn lemma_all_available_all_free(&self) {
        assert forall|i: int| 0 <= i < self.capacity_spec() implies self.is_free(i) by {
            if self.live@.contains(i) {
                vstd::set::axiom_set_remove_len(self.live@, i);
            }
        }
    }

    /// Claims the most recently released index.
    fn allocate(&mut self) -> (r: Option<usize>)
        ensures
            r == (if old(self).free_seq().len() == 0 {
                None::<usize>
            } else {
                Some(old(self).free_seq().last())
            }),
            final(self).free_seq() == (if old(self).free_seq().len() == 0 {
                old(self).free_seq()
            } else {
                old(self).free_seq().drop_last()
            }),
    {
        match self.free_stack.pop() {
            Some(index) => {
                proof {
                    lemma_tracker_pop(
                        old(self).free_stack@,
                        old(self).live@,
                        old(self).capacity as int,
                    );
                    assert(index == old(self).free_stack@.last());
                    self.live@ = self.live@.insert(index as int);
                }
                Some(index)
            },
            None => None,
        }
    }

    /// Pushes the index back; it will be the next one claimed.
    fn free(&mut self, index: usize)
        ensures
            final(self).free_seq() == old(self).free_seq().push(index),
    {
        proof {
            lemma_tracker_push(self.free_stack@, self.live@, self.capacity as int, index);
            self.live@ = self.live@.remove(index as int);
        }
        self.free_stack.push(index);
    }

    fn available(&self) -> (r: usize) {
        self.free_stack.len()
    }

    fn capacity(&self) -> (r: usize) {
        self.capacity
    }

    fn is_full(&self) -> (r: bool) {
        self.free_stack.len() == 0
    }

    fn is_empty(&self) -> (r: bool) {
        self.free_stack.len() == self.capacity
    }
}

} // verus!
