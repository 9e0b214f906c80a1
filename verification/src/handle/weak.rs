//! Weak handle that does not keep its slot alive.

use vstd::prelude::*;

verus! {

use crate::handle::SharedHandle;
use crate::pool::FixedPool;
use crate::traits::Poolable;

/// A weak handle to a pool-allocated object.
///
/// Weak handles do not contribute to the strong count and do not prevent
/// the slot from being released. While at least one shared handle on the
/// same occupancy exists, a weak handle can be upgraded to a new shared
/// handle; after the last one is gone, upgrading fails. Handles cannot
/// be copied: the pool hands out and takes back every one (through
/// `downgrade`, `clone_weak` and `drop_weak`), which keeps its weak
/// count exact.
#[derive(Debug)]
pub struct WeakHandle {
    index: usize,
    generation: u64,
}

impl WeakHandle {
    /// The slot index this handle observes.
    pub closed spec fn index_spec(&self) -> usize {
        self.index
    }

    /// The slot generation this handle belongs to.
    pub closed spec fn generation_spec(&self) -> u64 {
        self.generation
    }

    /// Creates a new weak handle; only the pool and
    /// `SharedHandle::downgrade` do this.
    pub(crate) fn new(index: usize, generation: u64) -> (r: WeakHandle)
        ensures
            r.index_spec() == index,
            r.generation_spec() == generation,
    {
        WeakHandle { index, generation }
    }

    /// Reads the recorded generation; only the pool does this.
    pub(crate) fn generation_value(&self) -> (r: u64)
        ensures
            r == self.generation_spec(),
    {
        self.generation
    }

    /// Attempts to upgrade this weak handle to a shared handle.
    ///
    /// Succeeds exactly while the observed occupancy is still alive:
    /// the slot is on the same generation and at least one (but not a
    /// machine-limit number of) shared handles exist. On success the
    /// strong count goes up by one.
    pub fn upgrade<T: Poolable>(&self, pool: &mut FixedPool<T>) -> (r: Option<SharedHandle>)
        requires
            old(pool).wf(),
            self.index_spec() < old(pool).capacity_spec(),
        ensures
            final(pool).wf(),
            r is Some <==> ({
                &&& old(pool).gen_at(self.index_spec() as int) == self.generation_spec()
                &&& 1 <= old(pool).strong_at(self.index_spec() as int) < usize::MAX
            }),
            r matches Some(sh) ==> {
                &&& sh.index_spec() == self.index_spec()
                &&& sh.generation_spec() == self.generation_spec()
                &&& final(pool).strong_at(self.index_spec() as int) == old(pool).strong_at(
                    self.index_spec() as int,
                ) + 1
                &&& final(pool).valid_shared(sh)
            },
            r is None ==> final(pool).strong_at(self.index_spec() as int) == old(pool).strong_at(
                self.index_spec() as int,
            ),
            final(pool).capacity_spec() == old(pool).capacity_spec(),
            final(pool).available_spec() == old(pool).available_spec(),
            final(pool).free_order() == old(pool).free_order(),
            final(pool).stats_spec() == old(pool).stats_spec(),
            forall|j: int| final(pool).slot_spec(j) == old(pool).slot_spec(j),
            forall|j: int| final(pool).is_live(j) == old(pool).is_live(j),
            forall|j: int|
                0 <= j < old(pool).capacity_spec() ==> final(pool).weak_at(j) == old(pool).weak_at(j) && final(pool).gen_at(j) == old(pool).gen_at(j),
            forall|j: int|
                0 <= j < old(pool).capacity_spec() && j != self.index_spec() as int ==> final(pool).strong_at(j) == old(pool).strong_at(j),
    {
        if pool.try_retain(self.index(), self.generation) {
            Some(SharedHandle::new(self.index, self.generation))
        } else {
            None
        }
    }

    /// Returns the number of shared handles still on the observed
    /// occupancy, or zero when it is gone.
    pub fn strong_count<T: Poolable>(&self, pool: &FixedPool<T>) -> (r: usize)
        requires
            pool.wf(),
            self.index_spec() < pool.capacity_spec(),
        ensures
            r == (if pool.gen_at(self.index_spec() as int) == self.generation_spec() {
                pool.strong_at(self.index_spec() as int)
            } else {
                0
            }),
    {
        if pool.generation_at(self.index()) == self.generation {
            pool.strong_count_at(self.index())
        } else {
            0
        }
    }

    /// Returns the number of weak observers of the observed occupancy,
    /// or zero when no shared handle remains.
    pub fn weak_count<T: Poolable>(&self, pool: &FixedPool<T>) -> (r: usize)
        requires
            pool.wf(),
            self.index_spec() < pool.capacity_spec(),
        ensures
            r == (if pool.gen_at(self.index_spec() as int) == self.generation_spec()
                && pool.strong_at(self.index_spec() as int) >= 1 {
                pool.weak_at(self.index_spec() as int)
            } else {
                0
            }),
    {
        if pool.generation_at(self.index()) == self.generation && pool.strong_count_at(
            self.index(),
        ) >= 1 {
            pool.weak_count_at(self.index())
        } else {
            0
        }
    }

    /// Returns the internal index of this handle.
    pub fn index(&self) -> (r: usize)
        ensures
            r == self.index_spec(),
    {
        self.index
    }
}

} // verus!
