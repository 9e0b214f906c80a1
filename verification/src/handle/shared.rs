//! Shared handle: one of a counted group referring to the same slot.

use vstd::prelude::*;

verus! {

use crate::handle::WeakHandle;
use crate::pool::FixedPool;
use crate::traits::Poolable;

/// A shared handle to a pool-allocated object.
///
/// Several shared handles may refer to the same slot; the pool keeps the
/// group's strong count and releases the slot when the count drops to
/// zero. A handle records the slot's generation, so it can be told apart
/// from handles onto a later occupancy of the same slot. Handles cannot
/// be copied: the pool hands out and takes back every one, which keeps
/// its counts exact.
#[derive(Debug)]
pub struct SharedHandle {
    index: usize,
    generation: u64,
}

impl SharedHandle {
    /// The slot index this handle refers to.
    pub closed spec fn index_spec(&self) -> usize {
        self.index
    }

    /// The slot generation this handle belongs to.
    pub closed spec fn generation_spec(&self) -> u64 {
        self.generation
    }

    /// Creates a new shared handle; only pools do this.
    pub(crate) fn new(index: usize, generation: u64) -> (r: SharedHandle)
        ensures
            r.index_spec() == index,
            r.generation_spec() == generation,
    {
        SharedHandle { index, generation }
    }

    /// Returns the internal index of this handle.
    pub fn index(&self) -> (r: usize)
        ensures
            r == self.index_spec(),
    {
        self.index
    }

    /// Returns the number of shared handles on this handle's slot.
    pub fn strong_count<T: Poolable>(&self, pool: &FixedPool<T>) -> (r: usize)
        requires
            pool.wf(),
            self.index_spec() < pool.capacity_spec(),
        ensures
            r == pool.strong_at(self.index_spec() as int),
    {
        pool.strong_count_at(self.index())
    }

    /// Creates a weak handle observing this handle's slot.
    ///
    /// The weak handle does not keep the slot alive; the pool counts it
    /// among the slot's weak observers until it is taken back with
    /// `drop_weak`.
    pub fn downgrade<T: Poolable>(&self, pool: &mut FixedPool<T>) -> (r: WeakHandle)
        requires
            old(pool).wf(),
            old(pool).valid_shared(*self),
        ensures
            final(pool).wf(),
            final(pool).valid_shared(*self),
            r.index_spec() == self.index_spec(),
            r.generation_spec() == self.generation_spec(),
            final(pool).weak_at(self.index_spec() as int) == crate::stats::spec_sat_inc(
                old(pool).weak_at(self.index_spec() as int),
            ),
            final(pool).capacity_spec() == old(pool).capacity_spec(),
            final(pool).available_spec() == old(pool).available_spec(),
            final(pool).free_order() == old(pool).free_order(),
            final(pool).stats_spec() == old(pool).stats_spec(),
            forall|j: int| final(pool).slot_spec(j) == old(pool).slot_spec(j),
            forall|j: int| final(pool).is_live(j) == old(pool).is_live(j),
            forall|j: int|
                0 <= j < old(pool).capacity_spec() ==> final(pool).strong_at(j) == old(pool).strong_at(j) && final(pool).gen_at(j) == old(pool).gen_at(j),
            forall|j: int|
                0 <= j < old(pool).capacity_spec() && j != self.index_spec() as int ==> final(pool).weak_at(j) == old(pool).weak_at(j),
    {
        proof {
            pool.lemma_live_in_range(self.index_spec() as int);
        }
        pool.note_downgrade(self.index());
        WeakHandle::new(self.index(), self.generation)
    }
}

/// Taking a weak handle from a shared handle and upgrading it back, while
/// a strong handle exists, comes back to the same observer: upgrading
/// hands out a shared handle on the weak handle's slot and generation,
/// and downgrading that hands back the weak handle's own coordinates.
pub proof fn lemma_upgrade_downgrade_identity(w: WeakHandle, sh: SharedHandle, w2: WeakHandle)
    requires
        sh.index_spec() == w.index_spec(),
        sh.generation_spec() == w.generation_spec(),
        w2.index_spec() == sh.index_spec(),
        w2.generation_spec() == sh.generation_spec(),
    ensures
        w2.index_spec() == w.index_spec(),
        w2.generation_spec() == w.generation_spec(),
{
}

} // verus!
