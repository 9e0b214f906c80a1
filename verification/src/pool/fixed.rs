//! Fixed-size memory pool implementation.

use vstd::prelude::*;

verus! {

use crate::allocator::{Allocator, StackAllocator};
use crate::config::PoolConfig;
use crate::error::{Error, PoolResult};
use crate::handle::{OwnedHandle, SharedHandle, WeakHandle};
use crate::stats::collector::{
    spec_record_allocation, spec_record_allocations, spec_record_deallocation, spec_reset,
    StatisticsCollector,
};
use crate::stats::{spec_stats_new, PoolStatistics};
use crate::traits::Poolable;
use vstd::std_specs::cmp::{PartialEqSpec, PartialOrdSpec};

/// Per-slot bookkeeping for shared and weak handles.
#[derive(Debug, Clone, Copy)]
pub(crate) struct SlotMeta {
    /// Number of shared handles on the slot; zero for exclusively owned
    /// or free slots.
    pub(crate) strong: usize,
    /// Number of weak observers of the slot's current occupancy.
    pub(crate) weak: usize,
    /// Bumped each time the slot is released, so stale weak handles
    /// cannot attach to a later occupant.
    pub(crate) generation: u64,
}

/// A fixed-size memory pool with constant-time allocation and release.
///
/// The pool pre-allocates a fixed number of slots and never grows. A
/// stack tracker hands out slots, so the most recently released slot is
/// reused first.
pub struct FixedPool<T> {
    /// Storage for pool objects; a free slot holds nothing
    storage: Vec<Option<T>>,
    /// Tracker managing which slots are free
    tracker: StackAllocator,
    /// Total capacity
    capacity: usize,
    /// Pool configuration
    config: PoolConfig<T>,
    /// Per-slot counts for shared and weak handles
    meta: Vec<SlotMeta>,
    /// Statistics collector
    stats: StatisticsCollector,
}

impl<T> FixedPool<T> {
    /// The total number of slots.
    pub closed spec fn capacity_spec(&self) -> usize {
        self.capacity
    }

    /// The stack of free slot indices; the last is claimed next.
    pub closed spec fn free_order(&self) -> Seq<usize> {
        self.tracker.free_seq()
    }

    /// The number of free slots.
    pub closed spec fn available_spec(&self) -> nat {
        self.tracker.available_spec()
    }

    /// The number of live slots.
    pub open spec fn allocated_spec(&self) -> nat {
        (self.capacity_spec() - self.available_spec()) as nat
    }

    /// Whether slot `i` currently holds an element.
    pub closed spec fn is_live(&self, i: int) -> bool {
        0 <= i < self.capacity && !self.tracker.is_free(i)
    }

    /// What slot `i` holds.
    pub closed spec fn slot_spec(&self, i: int) -> Option<T> {
        self.storage@[i]
    }

    /// The number of shared handles on slot `i`; zero for exclusively
    /// owned or free slots.
    pub closed spec fn strong_at(&self, i: int) -> usize {
        self.meta@[i].strong
    }

    /// The number of weak observers of slot `i`'s current occupancy.
    pub closed spec fn weak_at(&self, i: int) -> usize {
        self.meta@[i].weak
    }

    /// The release generation of slot `i`.
    pub closed spec fn gen_at(&self, i: int) -> u64 {
        self.meta@[i].generation
    }

    /// The statistics gathered so far.
    pub closed spec fn stats_spec(&self) -> PoolStatistics {
        self.stats.stats_spec()
    }

    /// Internal consistency: the tracker spans exactly the slots, a free
    /// slot holds nothing and has no shared handles, and a live slot
    /// holds an element.
    pub closed spec fn wf(&self) -> bool {
        &&& self.tracker.wf()
        &&& self.tracker.capacity_spec() == self.capacity
        &&& self.storage@.len() == self.capacity
        &&& self.meta@.len() == self.capacity
        &&& forall|i: int|
            0 <= i < self.capacity && #[trigger] self.tracker.is_free(i) ==> self.slot_spec(i)
                is None && self.strong_at(i) == 0
        &&& forall|i: int|
            0 <= i < self.capacity && !(#[trigger] self.tracker.is_free(i)) ==> self.slot_spec(i)
                is Some
    }

    /// Whether `h` is a shared handle on the slot's current occupancy.
    pub open spec fn valid_shared(&self, h: SharedHandle) -> bool {
        &&& self.is_live(h.index_spec() as int)
        &&& self.gen_at(h.index_spec() as int) == h.generation_spec()
        &&& self.strong_at(h.index_spec() as int) >= 1
    }

    /// Reads slot `index`'s strong count.
    pub fn strong_count_at(&self, index: usize) -> (r: usize)
        requires
            self.wf(),
            index < self.capacity_spec(),
        ensures
            r == self.strong_at(index as int),
    {
        self.meta[index].strong
    }

    /// Reads slot `index`'s weak-observer count.
    pub fn weak_count_at(&self, index: usize) -> (r: usize)
        requires
            self.wf(),
            index < self.capacity_spec(),
        ensures
            r == self.weak_at(index as int),
    {
        self.meta[index].weak
    }

    /// Reads slot `index`'s release generation.
    pub fn generation_at(&self, index: usize) -> (r: u64)
        requires
            self.wf(),
            index < self.capacity_spec(),
        ensures
            r == self.gen_at(index as int),
    {
        self.meta[index].generation
    }

    /// Counts one more weak observer on slot `index`; the counter
    /// saturates at the machine limit.
    pub(crate) fn note_downgrade(&mut self, index: usize)
        requires
            old(self).wf(),
            index < old(self).capacity_spec(),
        ensures
            final(self).wf(),
            final(self).weak_at(index as int) == crate::stats::spec_sat_inc(
                old(self).weak_at(index as int),
            ),
            final(self).capacity_spec() == old(self).capacity_spec(),
            final(self).available_spec() == old(self).available_spec(),
            final(self).free_order() == old(self).free_order(),
            final(self).stats_spec() == old(self).stats_spec(),
            forall|j: int| final(self).slot_spec(j) == old(self).slot_spec(j),
            forall|j: int| final(self).is_live(j) == old(self).is_live(j),
            forall|j: int|
                0 <= j < old(self).capacity_spec() ==> final(self).strong_at(j) == old(self).strong_at(j) && final(self).gen_at(j) == old(self).gen_at(j),
            forall|j: int|
                0 <= j < old(self).capacity_spec() && j != index as int ==> final(self).weak_at(j)
                    == old(self).weak_at(j),
    {
        let m = self.meta[index];
        let new_weak: usize = if m.weak < usize::MAX {
            m.weak + 1
        } else {
            m.weak
        };
        self.meta[index] = SlotMeta { strong: m.strong, weak: new_weak, generation: m.generation };
    }

    /// Adds one shared handle to slot `index` if its occupancy on the
    /// given generation is still alive and the count has room; says
    /// whether it did.
    pub(crate) fn try_retain(&mut self, index: usize, generation: u64) -> (r: bool)
        requires
            old(self).wf(),
            index < old(self).capacity_spec(),
        ensures
            final(self).wf(),
            r == ({
                &&& old(self).gen_at(index as int) == generation
                &&& 1 <= old(self).strong_at(index as int) < usize::MAX
            }),
            r ==> final(self).strong_at(index as int) == old(self).strong_at(index as int) + 1
                && final(self).is_live(index as int) && final(self).gen_at(index as int)
                == generation,
            !r ==> final(self).strong_at(index as int) == old(self).strong_at(index as int),
            final(self).capacity_spec() == old(self).capacity_spec(),
            final(self).available_spec() == old(self).available_spec(),
            final(self).free_order() == old(self).free_order(),
            final(self).stats_spec() == old(self).stats_spec(),
            forall|j: int| final(self).slot_spec(j) == old(self).slot_spec(j),
            forall|j: int| final(self).is_live(j) == old(self).is_live(j),
            forall|j: int|
                0 <= j < old(self).capacity_spec() ==> final(self).weak_at(j) == old(self).weak_at(j) && final(self).gen_at(j) == old(self).gen_at(j),
            forall|j: int|
                0 <= j < old(self).capacity_spec() && j != index as int ==> final(self).strong_at(
                    j,
                ) == old(self).strong_at(j),
    {
        let m = self.meta[index];
        if m.generation == generation && m.strong >= 1 && m.strong < usize::MAX {
            self.meta[index] = SlotMeta {
                strong: m.strong + 1,
                weak: m.weak,
                generation: m.generation,
            };
            true
        } else {
            false
        }
    }

    /// Adds one weak observer to the occupancy a weak handle observes:
    /// hands back a second weak handle on the same slot and generation.
    /// A handle whose occupancy is gone is copied without touching any
    /// count. The counter saturates at the machine limit.
    pub fn clone_weak(&mut self, handle: &WeakHandle) -> (r: WeakHandle)
        requires
            old(self).wf(),
            handle.index_spec() < old(self).capacity_spec(),
        ensures
            final(self).wf(),
            r.index_spec() == handle.index_spec(),
            r.generation_spec() == handle.generation_spec(),
            old(self).gen_at(handle.index_spec() as int) == handle.generation_spec() ==> final(self).weak_at(handle.index_spec() as int) == crate::stats::spec_sat_inc(
                old(self).weak_at(handle.index_spec() as int),
            ),
            old(self).gen_at(handle.index_spec() as int) != handle.generation_spec() ==> final(self).weak_at(handle.index_spec() as int) == old(self).weak_at(
                handle.index_spec() as int,
            ),
            final(self).capacity_spec() == old(self).capacity_spec(),
            final(self).available_spec() == old(self).available_spec(),
            final(self).free_order() == old(self).free_order(),
            final(self).stats_spec() == old(self).stats_spec(),
            forall|j: int| final(self).slot_spec(j) == old(self).slot_spec(j),
            forall|j: int| final(self).is_live(j) == old(self).is_live(j),
            forall|j: int|
                0 <= j < old(self).capacity_spec() ==> final(self).strong_at(j) == old(self).strong_at(j) && final(self).gen_at(j) == old(self).gen_at(j),
            forall|j: int|
                0 <= j < old(self).capacity_spec() && j != handle.index_spec() as int ==> final(self).weak_at(j) == old(self).weak_at(j),
    {
        let index = handle.index();
        let m = self.meta[index];
        if m.generation == handle.generation_value() {
            let new_weak: usize = if m.weak < usize::MAX {
                m.weak + 1
            } else {
                m.weak
            };
            self.meta[index] = SlotMeta {
                strong: m.strong,
                weak: new_weak,
                generation: m.generation,
            };
        }
        WeakHandle::new(index, handle.generation_value())
    }

    /// Takes back one weak observer: the observed occupancy's weak
    /// count drops by one. A handle whose occupancy is gone touches no
    /// count.
    pub fn drop_weak(&mut self, handle: WeakHandle)
        requires
            old(self).wf(),
            handle.index_spec() < old(self).capacity_spec(),
        ensures
            final(self).wf(),
            old(self).gen_at(handle.index_spec() as int) == handle.generation_spec() ==> final(self).weak_at(handle.index_spec() as int) == (if old(self).weak_at(
                handle.index_spec() as int,
            ) > 0 {
                (old(self).weak_at(handle.index_spec() as int) - 1) as usize
            } else {
                0
            }),
            old(self).gen_at(handle.index_spec() as int) != handle.generation_spec() ==> final(self).weak_at(handle.index_spec() as int) == old(self).weak_at(
                handle.index_spec() as int,
            ),
            final(self).capacity_spec() == old(self).capacity_spec(),
            final(self).available_spec() == old(self).available_spec(),
            final(self).free_order() == old(self).free_order(),
            final(self).stats_spec() == old(self).stats_spec(),
            forall|j: int| final(self).slot_spec(j) == old(self).slot_spec(j),
            forall|j: int| final(self).is_live(j) == old(self).is_live(j),
            forall|j: int|
                0 <= j < old(self).capacity_spec() ==> final(self).strong_at(j) == old(self).strong_at(j) && final(self).gen_at(j) == old(self).gen_at(j),
            forall|j: int|
                0 <= j < old(self).capacity_spec() && j != handle.index_spec() as int ==> final(self).weak_at(j) == old(self).weak_at(j),
    {
        let index = handle.index();
        let m = self.meta[index];
        if m.generation == handle.generation_value() {
            let new_weak: usize = if m.weak > 0 {
                m.weak - 1
            } else {
                0
            };
            self.meta[index] = SlotMeta {
                strong: m.strong,
                weak: new_weak,
                generation: m.generation,
            };
        }
    }

    /// The number of free slots is the free order's length.
    pub proof fn lemma_free_order_length(&self)
        requires
            self.wf(),
        ensures
            self.available_spec() == self.free_order().len(),
    {
        self.tracker.lemma_available_is_free_len();
    }

    /// The free order lists an index at most once.
    pub proof fn lemma_free_order_no_duplicates(&self)
        requires
            self.wf(),
        ensures
            self.free_order().no_duplicates(),
    {
        self.tracker.lemma_free_seq_no_duplicates();
    }

    /// A live slot index is always in range.
    pub proof fn lemma_live_in_range(&self, i: int)
        ensures
            self.is_live(i) ==> 0 <= i < self.capacity_spec(),
    {
    }

    /// The stack-backed ordering rule: the slot released last is the
    /// slot claimed next. Releasing a slot pushes its index onto the
    /// free order, and a claim takes the last index of the free order,
    /// so a claim right after a release returns the released index.
    pub proof fn lemma_release_then_claim_lifo(before: Seq<usize>, released: usize)
        ensures
            before.push(released).last() == released,
    {
    }

    /// Allocating a value and returning it at once leaves the pool
    /// indistinguishable from before: the free order, every slot's
    /// content, and every slot's liveness are as they were. The facts
    /// assumed here are exactly what `allocate` ensures of the step from
    /// `p0` to `p1` and what `return_to_pool` ensures of the step from
    /// `p1` to `p2`.
    pub proof fn lemma_allocate_release_roundtrip(
        p0: &FixedPool<T>,
        p1: &FixedPool<T>,
        p2: &FixedPool<T>,
        h: OwnedHandle,
    )
        requires
            p0.wf(),
            p0.available_spec() > 0,
            h.index_spec() == p0.free_order().last(),
            p1.free_order() == p0.free_order().drop_last(),
            p1.capacity_spec() == p0.capacity_spec(),
            forall|j: int|
                0 <= j < p0.capacity_spec() && j != h.index_spec() as int ==> p1.slot_spec(j)
                    == p0.slot_spec(j),
            forall|j: int| j != h.index_spec() as int ==> p1.is_live(j) == p0.is_live(j),
            p2.free_order() == p1.free_order().push(h.index_spec()),
            p2.capacity_spec() == p1.capacity_spec(),
            p2.slot_spec(h.index_spec() as int) is None,
            !p2.is_live(h.index_spec() as int),
            forall|j: int|
                0 <= j < p1.capacity_spec() && j != h.index_spec() as int ==> p2.slot_spec(j)
                    == p1.slot_spec(j),
            forall|j: int| j != h.index_spec() as int ==> p2.is_live(j) == p1.is_live(j),
        ensures
            p2.free_order() == p0.free_order(),
            p2.capacity_spec() == p0.capacity_spec(),
            forall|j: int| 0 <= j < p0.capacity_spec() ==> p2.slot_spec(j) == p0.slot_spec(j),
            forall|j: int| p2.is_live(j) == p0.is_live(j),
    {
        p0.tracker.lemma_available_is_free_len();
        assert(p0.free_order().len() > 0);
        assert(p2.free_order() =~= p0.free_order());
        let idx = h.index_spec() as int;
        assert(p0.free_order()[p0.free_order().len() - 1] as int == idx);
        p0.tracker.lemma_is_free_iff_listed(idx);
        assert(crate::allocator::has_index(p0.free_order(), idx));
        assert(p0.tracker.is_free(idx));
        p0.tracker.lemma_free_in_range(idx);
        assert(0 <= idx < p0.capacity_spec());
        assert(p0.slot_spec(idx) is None);
        assert(!p0.is_live(idx));
    }

    /// The free and the live slots together are always the whole pool.
    pub proof fn lemma_conservation(&self)
        requires
            self.wf(),
        ensures
            self.available_spec() + self.allocated_spec() == self.capacity_spec(),
    {
        self.tracker.lemma_available_bounded();
    }

    /// A slot listed as free is never live: a newly claimed index cannot
    /// collide with any index a live handle already holds.
    pub proof fn lemma_free_never_live(&self, i: int)
        requires
            self.wf(),
        ensures
            crate::allocator::has_index(self.free_order(), i) ==> !self.is_live(i),
    {
        self.tracker.lemma_is_free_iff_listed(i);
    }

    /// As many releases as claims restore full availability: over a run
    /// of states in which each successor releases one slot — what
    /// `return_to_pool` ensures of each step — the availability rises by
    /// the length of the run. A pool that had claimed some number of
    /// slots is back to its old availability after that many releases
    /// with no claims in between; when that restores full availability,
    /// `lemma_all_available_means_empty` says every slot is free again.
    pub proof fn lemma_releases_restore_availability(states: Seq<FixedPool<T>>)
        requires
            states.len() >= 1,
            forall|t: int|
                0 <= t < states.len() - 1 ==> (#[trigger] states[t]).available_spec() + 1
                    == states[t + 1].available_spec() && states[t].capacity_spec() == states[t
                    + 1].capacity_spec(),
        ensures
            states.last().available_spec() == states[0].available_spec() + states.len() - 1,
            states.last().capacity_spec() == states[0].capacity_spec(),
        decreases states.len(),
    {
        if states.len() > 1 {
            let front = states.drop_last();
            assert forall|t: int|
                0 <= t < front.len() - 1 implies (#[trigger] front[t]).available_spec() + 1
                == front[t + 1].available_spec() && front[t].capacity_spec() == front[t
                + 1].capacity_spec() by {
                assert(front[t] == states[t]);
                assert(front[t + 1] == states[t + 1]);
            }
            Self::lemma_releases_restore_availability(front);
            assert(front[0] == states[0]);
            assert(front.last() == states[states.len() - 2]);
            assert(states[states.len() - 2].available_spec() + 1 == states[states.len()
                - 1].available_spec());
        }
    }

    /// When every slot is available, no slot is live and none holds an
    /// element.
    pub proof fn lemma_all_available_means_empty(&self)
        requires
            self.wf(),
            self.available_spec() == self.capacity_spec(),
        ensures
            forall|i: int| 0 <= i < self.capacity_spec() ==> !self.is_live(i),
            forall|i: int| 0 <= i < self.capacity_spec() ==> self.slot_spec(i) is None,
    {
        self.tracker.lemma_all_available_all_free();
        assert forall|i: int| 0 <= i < self.capacity_spec() implies self.slot_spec(i) is None by {
            assert(self.tracker.is_free(i));
        }
    }
}

impl<T: Poolable> FixedPool<T> {
    /// Creates a new fixed-size pool with the specified capacity.
    ///
    /// Fails exactly when the capacity is zero.
    pub fn new(capacity: usize) -> (r: PoolResult<FixedPool<T>>)
        ensures
            r is Ok <==> capacity >= 1,
            r matches Ok(p) ==> {
                &&& p.wf()
                &&& p.capacity_spec() == capacity
                &&& p.available_spec() == capacity
                &&& p.free_order() == Seq::new(
                    capacity as nat,
                    |k: int| (capacity - 1 - k) as usize,
                )
                &&& forall|i: int| 0 <= i < capacity ==> p.gen_at(i) == 0
                &&& p.stats_spec() == spec_stats_new(capacity)
            },
            r matches Err(e) ==> e == (Error::InvalidConfiguration {
                message: "capacity must be at least 1",
            }),
    {
        let config = match PoolConfig::builder().capacity(capacity).build() {
            Ok(c) => c,
            Err(e) => {
                return Err(e);
            },
        };
        Self::with_config(config)
    }

    /// Creates a new fixed-size pool with the specified configuration.
    pub fn with_config(config: PoolConfig<T>) -> (r: PoolResult<FixedPool<T>>)
        requires
            config.valid(),
        ensures
            r is Ok,
            r matches Ok(p) ==> {
                &&& p.wf()
                &&& p.capacity_spec() == config.capacity_spec()
                &&& p.available_spec() == config.capacity_spec()
                &&& p.free_order() == Seq::new(
                    config.capacity_spec() as nat,
                    |k: int| (config.capacity_spec() - 1 - k) as usize,
                )
                &&& forall|i: int| 0 <= i < config.capacity_spec() ==> p.gen_at(i) == 0
                &&& p.stats_spec() == spec_stats_new(config.capacity_spec())
            },
    {
        let capacity = config.capacity();
        let mut storage: Vec<Option<T>> = Vec::new();
        let mut meta: Vec<SlotMeta> = Vec::new();
        let mut k: usize = 0;
        while k < capacity
            invariant
                k <= capacity,
                storage@.len() == k,
                meta@.len() == k,
                forall|i: int| 0 <= i < k ==> (#[trigger] storage@[i]) is None,
                forall|i: int|
                    0 <= i < k ==> (#[trigger] meta@[i]) == (SlotMeta {
                        strong: 0,
                        weak: 0,
                        generation: 0,
                    }),
            decreases capacity - k,
        {
            storage.push(None);
            meta.push(SlotMeta { strong: 0, weak: 0, generation: 0 });
            k = k + 1;
        }
        let pool = FixedPool {
            storage,
            tracker: StackAllocator::new(capacity),
            capacity,
            config,
            meta,
            stats: StatisticsCollector::new(capacity),
        };
        proof {
            assert forall|i: int|
                0 <= i < capacity implies pool.slot_spec(i) is None && pool.strong_at(i) == 0
                && pool.gen_at(i) == 0 by {
                assert(pool.storage@[i] is None);
                assert(pool.meta@[i] == (SlotMeta { strong: 0, weak: 0, generation: 0 }));
            }
            assert forall|i: int| 0 <= i < capacity implies pool.tracker.is_free(i) by {
                pool.tracker.lemma_is_free_iff_listed(i);
                assert(pool.tracker.free_seq()[capacity - 1 - i] as int == i);
            }
        }
        Ok(pool)
    }

    /// Allocates an object from the pool with the given initial value.
    ///
    /// Succeeds exactly when a slot is free; the claimed slot is the
    /// most recently released one, and after the acquire hook it holds
    /// the given value. Fails with `PoolExhausted` when the pool is at
    /// capacity, leaving the pool unchanged.
    pub fn allocate(&mut self, value: T) -> (r: PoolResult<OwnedHandle>)
        requires
            old(self).wf(),
        ensures
            final(self).wf(),
            final(self).capacity_spec() == old(self).capacity_spec(),
            r is Ok <==> old(self).available_spec() > 0,
            r matches Ok(h) ==> {
                &&& h.index_spec() == old(self).free_order().last()
                &&& h.index_spec() < old(self).capacity_spec()
                &&& !old(self).is_live(h.index_spec() as int)
                &&& final(self).is_live(h.index_spec() as int)
                &&& final(self).free_order() == old(self).free_order().drop_last()
                &&& final(self).available_spec() == old(self).available_spec() - 1
                &&& final(self).slot_spec(h.index_spec() as int) == Some(value.acquire_spec())
                &&& final(self).strong_at(h.index_spec() as int) == 0
                &&& forall|j: int|
                    0 <= j < old(self).capacity_spec() && j != h.index_spec() as int ==> final(self).slot_spec(j) == old(self).slot_spec(j)
                &&& forall|j: int|
                    j != h.index_spec() as int ==> final(self).is_live(j) == old(self).is_live(j)
                &&& forall|j: int|
                    0 <= j < old(self).capacity_spec() ==> final(self).gen_at(j) == old(self).gen_at(j) && final(self).weak_at(j) == old(self).weak_at(j) && final(self).strong_at(j) == old(self).strong_at(j)
                &&& final(self).stats_spec() == spec_record_allocation(old(self).stats_spec())
            },
            r matches Err(e) ==> {
                &&& e == (Error::PoolExhausted {
                    capacity: old(self).capacity_spec(),
                    allocated: old(self).capacity_spec(),
                })
                &&& final(self).free_order() == old(self).free_order()
                &&& final(self).available_spec() == old(self).available_spec()
                &&& final(self).stats_spec() == old(self).stats_spec()
                &&& forall|j: int| final(self).slot_spec(j) == old(self).slot_spec(j)
                &&& forall|j: int| final(self).is_live(j) == old(self).is_live(j)
                &&& forall|j: int|
                    0 <= j < old(self).capacity_spec() ==> final(self).strong_at(j) == old(self).strong_at(j) && final(self).weak_at(j) == old(self).weak_at(j) && final(self).gen_at(j) == old(self).gen_at(j)
            },
    {
        let index = match self.tracker.allocate() {
            Some(index) => index,
            None => {
                return Err(
                    Error::PoolExhausted { capacity: self.capacity, allocated: self.capacity },
                );
            },
        };
        self.stats.record_allocation();
        let mut value = value;
        value.on_acquire();
        self.storage[index] = Some(value);
        Ok(OwnedHandle::new(index))
    }

    /// Allocates multiple objects from the pool in a single operation.
    ///
    /// Reserves all the slots or none: succeeds exactly when as many
    /// slots are free as there are values, and then every value lands in
    /// its own freshly claimed slot, in the tracker's order.
    pub fn allocate_batch(&mut self, values: Vec<T>) -> (r: PoolResult<Vec<OwnedHandle>>)
        requires
            old(self).wf(),
        ensures
            final(self).wf(),
            final(self).capacity_spec() == old(self).capacity_spec(),
            r is Ok <==> values@.len() <= old(self).available_spec(),
            r matches Ok(hs) ==> {
                &&& hs@.len() == values@.len()
                &&& final(self).available_spec() == old(self).available_spec() - values@.len()
                &&& forall|k: int|
                    0 <= k < hs@.len() ==> (#[trigger] hs@[k]).index_spec() == old(self).free_order()[old(self).free_order().len() - 1 - k]
                &&& forall|k: int|
                    0 <= k < hs@.len() ==> final(self).is_live(hs@[k].index_spec() as int)
                        && final(self).slot_spec(hs@[k].index_spec() as int) == Some(
                        (#[trigger] values@[k]).acquire_spec(),
                    )
                &&& forall|k1: int, k2: int|
                    0 <= k1 < hs@.len() && 0 <= k2 < hs@.len() && k1 != k2 ==> (
                    #[trigger] hs@[k1]).index_spec() != (#[trigger] hs@[k2]).index_spec()
                &&& forall|j: int|
                    0 <= j < old(self).capacity_spec() && (forall|t: int|
                        0 <= t < hs@.len() ==> j != (#[trigger] hs@[t]).index_spec() as int)
                        ==> final(self).slot_spec(j) == old(self).slot_spec(j) && final(self).is_live(j) == old(self).is_live(j)
                &&& final(self).free_order() == old(self).free_order().subrange(
                    0,
                    old(self).free_order().len() - values@.len(),
                )
                &&& final(self).stats_spec() == spec_record_allocations(
                    old(self).stats_spec(),
                    values@.len(),
                )
            },
            r matches Err(e) ==> {
                &&& e == (Error::PoolExhausted {
                    capacity: old(self).capacity_spec(),
                    allocated: old(self).allocated_spec() as usize,
                })
                &&& final(self).free_order() == old(self).free_order()
                &&& final(self).available_spec() == old(self).available_spec()
                &&& final(self).stats_spec() == old(self).stats_spec()
                &&& forall|j: int| final(self).slot_spec(j) == old(self).slot_spec(j)
                &&& forall|j: int| final(self).is_live(j) == old(self).is_live(j)
                &&& forall|j: int|
                    0 <= j < old(self).capacity_spec() ==> final(self).strong_at(j) == old(self).strong_at(j) && final(self).weak_at(j) == old(self).weak_at(j) && final(self).gen_at(j) == old(self).gen_at(j)
            },
    {
        proof {
            self.tracker.lemma_available_bounded();
        }
        if values.len() > self.available() {
            let allocated = self.allocated();
            return Err(Error::PoolExhausted { capacity: self.capacity, allocated });
        }
        let ghost vals0 = values@;
        let ghost free0 = old(self).free_order();
        proof {
            self.tracker.lemma_available_is_free_len();
            self.tracker.lemma_free_seq_no_duplicates();
        }
        let mut values = values;
        let mut handles: Vec<OwnedHandle> = Vec::new();
        let n = values.len();
        let mut k: usize = 0;
        while k < n
            invariant
                self.wf(),
                k <= n,
                n == vals0.len(),
                n <= free0.len(),
                values@ == vals0.subrange(k as int, n as int),
                handles@.len() == k,
                self.capacity_spec() == old(self).capacity_spec(),
                self.free_order() == free0.subrange(0, free0.len() - k),
                self.stats_spec() == spec_record_allocations(old(self).stats_spec(), k as nat),
                forall|t: int|
                    0 <= t < k ==> (#[trigger] handles@[t]).index_spec() == free0[free0.len() - 1
                        - t],
                forall|t: int|
                    0 <= t < k ==> self.is_live((#[trigger] handles@[t]).index_spec() as int)
                        && self.slot_spec(handles@[t].index_spec() as int) == Some(
                        vals0[t].acquire_spec(),
                    ),
                forall|j: int|
                    0 <= j < old(self).capacity_spec() && (forall|t: int|
                        0 <= t < k ==> j != (#[trigger] handles@[t]).index_spec() as int)
                        ==> self.slot_spec(j) == old(self).slot_spec(j) && self.is_live(j) == old(self).is_live(j),
            decreases n - k,
        {
            proof {
                self.tracker.lemma_available_is_free_len();
                assert(self.free_order() =~= free0.subrange(0, free0.len() - k));
                assert(self.free_order().last() == free0[free0.len() - 1 - k]);
            }
            let value = values.remove(0);
            let ghost pre = *self;
            let h = match self.allocate(value) {
                Ok(h) => h,
                Err(e) => {
                    proof {
                        assert(false);
                    }
                    return Err(e);
                },
            };
            let ghost pre_handles = handles@;
            handles.push(h);
            proof {
                assert(self.free_order() =~= free0.subrange(0, free0.len() - (k + 1)));
                assert(vals0.subrange(k as int, n as int)[0] == vals0[k as int]);
                assert(values@ =~= vals0.subrange(k + 1, n as int));
                assert forall|t: int|
                    0 <= t < k + 1 implies (#[trigger] handles@[t]).index_spec() == free0[free0.len()
                    - 1 - t] by {
                    if t < k {
                        assert(handles@[t] == pre_handles[t]);
                    } else {
                        assert(handles@[t] == h);
                    }
                }
                assert forall|t: int|
                    0 <= t < k + 1 implies self.is_live((#[trigger] handles@[t]).index_spec()
                        as int) && self.slot_spec(handles@[t].index_spec() as int) == Some(
                    vals0[t].acquire_spec()) by {
                    if t < k {
                        assert(handles@[t] == pre_handles[t]);
                        assert(pre.is_live(pre_handles[t].index_spec() as int));
                        assert(!pre.is_live(h.index_spec() as int));
                        assert(pre_handles[t].index_spec() as int != h.index_spec() as int);
                    } else {
                        assert(handles@[t] == h);
                    }
                }
                assert forall|j: int|
                    0 <= j < old(self).capacity_spec() && (forall|t: int|
                        0 <= t < k + 1 ==> j != (#[trigger] handles@[t]).index_spec() as int)
                        implies self.slot_spec(j) == old(self).slot_spec(j) && self.is_live(j)
                    == old(self).is_live(j) by {
                    assert forall|t: int| 0 <= t < k implies j != (
                    #[trigger] pre_handles[t]).index_spec() as int by {
                        assert(handles@[t] == pre_handles[t]);
                        assert(j != handles@[t].index_spec() as int);
                    }
                    assert(j != handles@[k as int].index_spec() as int);
                    assert(j != h.index_spec() as int);
                }
            }
            k = k + 1;
        }
        proof {
            assert(self.free_order() =~= free0.subrange(0, free0.len() - n));
            self.tracker.lemma_available_bounded();
            self.tracker.lemma_available_is_free_len();
            self.lemma_handles_distinct(handles@, free0);
        }
        Ok(handles)
    }

    /// Handles drawn from distinct positions of the duplicate-free free
    /// list carry distinct indices: no two live owned handles ever share
    /// a slot.
    proof fn lemma_handles_distinct(&self, hs: Seq<OwnedHandle>, free0: Seq<usize>)
        requires
            free0.no_duplicates(),
            hs.len() <= free0.len(),
            forall|t: int|
                0 <= t < hs.len() ==> (#[trigger] hs[t]).index_spec() == free0[free0.len() - 1 - t],
        ensures
            forall|k1: int, k2: int|
                0 <= k1 < hs.len() && 0 <= k2 < hs.len() && k1 != k2 ==> (
                #[trigger] hs[k1]).index_spec() != (#[trigger] hs[k2]).index_spec(),
    {
        assert forall|k1: int, k2: int|
            0 <= k1 < hs.len() && 0 <= k2 < hs.len() && k1 != k2 implies (
        #[trigger] hs[k1]).index_spec() != (#[trigger] hs[k2]).index_spec() by {
            assert(free0[free0.len() - 1 - k1] != free0[free0.len() - 1 - k2]);
        }
    }

    /// Attempts to allocate from the pool, returning nothing if the pool
    /// is exhausted.
    pub fn try_allocate(&mut self, value: T) -> (r: Option<OwnedHandle>)
        requires
            old(self).wf(),
        ensures
            final(self).wf(),
            final(self).capacity_spec() == old(self).capacity_spec(),
            r is Some <==> old(self).available_spec() > 0,
            r matches Some(h) ==> {
                &&& h.index_spec() == old(self).free_order().last()
                &&& final(self).is_live(h.index_spec() as int)
                &&& final(self).free_order() == old(self).free_order().drop_last()
                &&& final(self).slot_spec(h.index_spec() as int) == Some(value.acquire_spec())
            },
            r is None ==> final(self).free_order() == old(self).free_order(),
    {
        match self.allocate(value) {
            Ok(h) => Some(h),
            Err(_) => None,
        }
    }

    /// Compares two owned handles as the elements they refer to compare
    /// for equality.
    pub fn handles_equal(&self, a: &OwnedHandle, b: &OwnedHandle) -> (r: bool) where T: PartialEq
        requires
            self.wf(),
            self.is_live(a.index_spec() as int),
            self.is_live(b.index_spec() as int),
        ensures
            <T as vstd::std_specs::cmp::PartialEqSpec>::obeys_eq_spec() ==> ({
                &&& self.slot_spec(a.index_spec() as int) matches Some(va)
                &&& self.slot_spec(b.index_spec() as int) matches Some(vb)
                &&& r == va.eq_spec(&vb)
            }),
    {
        self.get(a).eq(self.get(b))
    }

    /// Compares two owned handles as the elements they refer to compare
    /// for order.
    pub fn handles_less_than(&self, a: &OwnedHandle, b: &OwnedHandle) -> (r: bool) where
        T: PartialOrd,

        requires
            self.wf(),
            self.is_live(a.index_spec() as int),
            self.is_live(b.index_spec() as int),
        ensures
            <T as vstd::std_specs::cmp::PartialOrdSpec>::obeys_partial_cmp_spec() ==> ({
                &&& self.slot_spec(a.index_spec() as int) matches Some(va)
                &&& self.slot_spec(b.index_spec() as int) matches Some(vb)
                &&& r == (va.partial_cmp_spec(&vb) == Some(core::cmp::Ordering::Less))
            }),
    {
        self.get(a).lt(self.get(b))
    }

    /// Returns the total capacity of the pool.
    pub fn capacity(&self) -> (r: usize)
        ensures
            r == self.capacity_spec(),
    {
        self.capacity
    }

    /// Returns the number of available (free) slots in the pool.
    pub fn available(&self) -> (r: usize)
        requires
            self.wf(),
        ensures
            r == self.available_spec(),
    {
        self.tracker.available()
    }

    /// Returns the number of currently allocated objects.
    pub fn allocated(&self) -> (r: usize)
        requires
            self.wf(),
        ensures
            r == self.allocated_spec(),
    {
        proof {
            self.tracker.lemma_available_bounded();
        }
        self.capacity - self.tracker.available()
    }

    /// Returns whether the pool is full (no available slots).
    pub fn is_full(&self) -> (r: bool)
        requires
            self.wf(),
        ensures
            r == (self.available_spec() == 0),
    {
        self.tracker.is_full()
    }

    /// Returns whether the pool is empty (all slots available).
    pub fn is_empty(&self) -> (r: bool)
        requires
            self.wf(),
        ensures
            r == (self.available_spec() == self.capacity_spec()),
    {
        self.tracker.is_empty()
    }

    /// Reads the element an owned handle refers to.
    pub fn get(&self, handle: &OwnedHandle) -> (r: &T)
        requires
            self.wf(),
            self.is_live(handle.index_spec() as int),
        ensures
            self.slot_spec(handle.index_spec() as int) == Some(*r),
    {
        let idx = handle.index();
        match self.storage[idx].as_ref() {
            Some(v) => v,
            None => vstd::pervasive::unreached(),
        }
    }

    /// Writes through an owned handle: hands out a mutable reference to
    /// the element in the handle's slot, leaving everything else in the
    /// pool as it was.
    pub fn get_mut(&mut self, handle: &OwnedHandle) -> (r: &mut T)
        requires
            old(self).wf(),
            old(self).is_live(handle.index_spec() as int),
        ensures
            old(self).slot_spec(handle.index_spec() as int) == Some(*r),
            final(self).slot_spec(handle.index_spec() as int) == Some(*final(r)),
            final(self).wf(),
            final(self).capacity_spec() == old(self).capacity_spec(),
            final(self).free_order() == old(self).free_order(),
            final(self).available_spec() == old(self).available_spec(),
            final(self).stats_spec() == old(self).stats_spec(),
            forall|j: int|
                0 <= j < old(self).capacity_spec() && j != handle.index_spec() as int ==> final(self).slot_spec(j) == old(self).slot_spec(j),
            forall|j: int|
                j != handle.index_spec() as int ==> final(self).is_live(j) == old(self).is_live(j),
    {
        let idx = handle.index();
        match self.storage[idx].as_mut() {
            Some(v) => v,
            None => vstd::pervasive::unreached(),
        }
    }

    /// Returns an owned slot to the pool.
    ///
    /// The release hook runs on the element, the element is destroyed,
    /// and the slot becomes the next one to be claimed. The slot's
    /// generation moves on, so weak handles from an earlier shared
    /// occupancy of the slot cannot come back.
    pub fn return_to_pool(&mut self, handle: OwnedHandle)
        requires
            old(self).wf(),
            old(self).is_live(handle.index_spec() as int),
            old(self).strong_at(handle.index_spec() as int) == 0,
        ensures
            final(self).wf(),
            final(self).capacity_spec() == old(self).capacity_spec(),
            final(self).available_spec() == old(self).available_spec() + 1,
            final(self).free_order() == old(self).free_order().push(handle.index_spec()),
            !final(self).is_live(handle.index_spec() as int),
            final(self).slot_spec(handle.index_spec() as int) is None,
            forall|j: int|
                0 <= j < old(self).capacity_spec() && j != handle.index_spec() as int ==> final(self).slot_spec(j) == old(self).slot_spec(j),
            forall|j: int|
                j != handle.index_spec() as int ==> final(self).is_live(j) == old(self).is_live(j),
            forall|j: int|
                0 <= j < old(self).capacity_spec() && j != handle.index_spec() as int ==> final(self).gen_at(j) == old(self).gen_at(j) && final(self).strong_at(j) == old(self).strong_at(j),
            final(self).stats_spec() == spec_record_deallocation(old(self).stats_spec()),
    {
        let idx = handle.index();
        let value = self.storage[idx].take();
        match value {
            Some(mut v) => {
                v.on_release();
            },
            None => {
                proof {
                    assert(false);
                }
            },
        }
        let m = self.meta[idx];
        let next_gen: u64 = if m.generation < u64::MAX {
            m.generation + 1
        } else {
            m.generation
        };
        self.meta[idx] = SlotMeta { strong: 0, weak: m.weak, generation: next_gen };
        self.tracker.free(idx);
        self.stats.record_deallocation();
    }

    /// Get current pool statistics.
    ///
    /// The returned record carries the live usage count of the moment.
    pub fn statistics(&self) -> (r: PoolStatistics)
        requires
            self.wf(),
        ensures
            r == (PoolStatistics {
                current_usage: self.allocated_spec() as usize,
                ..self.stats_spec()
            }),
    {
        let mut stats = self.stats.snapshot();
        stats.current_usage = self.allocated();
        stats
    }

    /// Allocates an object and hands out the first handle of a shared
    /// group on its slot.
    ///
    /// Succeeds exactly when a slot is free; the group starts with one
    /// shared handle and no downgrades.
    pub fn allocate_shared(&mut self, value: T) -> (r: PoolResult<SharedHandle>)
        requires
            old(self).wf(),
        ensures
            final(self).wf(),
            final(self).capacity_spec() == old(self).capacity_spec(),
            r is Ok <==> old(self).available_spec() > 0,
            r matches Ok(h) ==> {
                &&& h.index_spec() == old(self).free_order().last()
                &&& final(self).valid_shared(h)
                &&& final(self).strong_at(h.index_spec() as int) == 1
                &&& final(self).weak_at(h.index_spec() as int) == 0
                &&& h.generation_spec() == old(self).gen_at(h.index_spec() as int)
                &&& final(self).free_order() == old(self).free_order().drop_last()
                &&& final(self).available_spec() == old(self).available_spec() - 1
                &&& final(self).slot_spec(h.index_spec() as int) == Some(value.acquire_spec())
                &&& forall|j: int|
                    0 <= j < old(self).capacity_spec() && j != h.index_spec() as int ==> final(self).slot_spec(j) == old(self).slot_spec(j) && final(self).strong_at(j) == old(self).strong_at(j) && final(self).weak_at(j) == old(self).weak_at(j)
                &&& forall|j: int|
                    0 <= j < old(self).capacity_spec() ==> final(self).gen_at(j) == old(self).gen_at(j)
                &&& forall|j: int|
                    j != h.index_spec() as int ==> final(self).is_live(j) == old(self).is_live(j)
                &&& final(self).stats_spec() == spec_record_allocation(old(self).stats_spec())
            },
            r matches Err(e) ==> {
                &&& e == (Error::PoolExhausted {
                    capacity: old(self).capacity_spec(),
                    allocated: old(self).capacity_spec(),
                })
                &&& final(self).free_order() == old(self).free_order()
                &&& final(self).available_spec() == old(self).available_spec()
                &&& final(self).stats_spec() == old(self).stats_spec()
                &&& forall|j: int| final(self).slot_spec(j) == old(self).slot_spec(j)
                &&& forall|j: int| final(self).is_live(j) == old(self).is_live(j)
                &&& forall|j: int|
                    0 <= j < old(self).capacity_spec() ==> final(self).strong_at(j) == old(self).strong_at(j) && final(self).weak_at(j) == old(self).weak_at(j) && final(self).gen_at(j) == old(self).gen_at(j)
            },
    {
        let handle = match self.allocate(value) {
            Ok(h) => h,
            Err(e) => {
                return Err(e);
            },
        };
        let index = handle.index();
        let m = self.meta[index];
        self.meta[index] = SlotMeta { strong: 1, weak: 0, generation: m.generation };
        Ok(SharedHandle::new(index, m.generation))
    }

    /// Adds one shared handle to the group of an existing one.
    pub fn clone_shared(&mut self, handle: &SharedHandle) -> (r: SharedHandle)
        requires
            old(self).wf(),
            old(self).valid_shared(*handle),
            old(self).strong_at(handle.index_spec() as int) < usize::MAX,
        ensures
            final(self).wf(),
            r.index_spec() == handle.index_spec(),
            r.generation_spec() == handle.generation_spec(),
            final(self).valid_shared(r),
            final(self).valid_shared(*handle),
            final(self).strong_at(handle.index_spec() as int) == old(self).strong_at(
                handle.index_spec() as int,
            ) + 1,
            final(self).capacity_spec() == old(self).capacity_spec(),
            final(self).available_spec() == old(self).available_spec(),
            final(self).free_order() == old(self).free_order(),
            final(self).stats_spec() == old(self).stats_spec(),
            forall|j: int| final(self).slot_spec(j) == old(self).slot_spec(j),
            forall|j: int| final(self).is_live(j) == old(self).is_live(j),
            forall|j: int|
                0 <= j < old(self).capacity_spec() ==> final(self).weak_at(j) == old(self).weak_at(j) && final(self).gen_at(j) == old(self).gen_at(j),
            forall|j: int|
                0 <= j < old(self).capacity_spec() && j != handle.index_spec() as int ==> final(self).strong_at(j) == old(self).strong_at(j),
    {
        let index = handle.index();
        let m = self.meta[index];
        self.meta[index] = SlotMeta { strong: m.strong + 1, weak: m.weak, generation: m.generation };
        SharedHandle::new(index, m.generation)
    }

    /// Takes back one shared handle.
    ///
    /// While other handles of the group remain, only the count drops;
    /// taking back the last one runs the release hook, destroys the
    /// element, frees the slot, and moves the slot's generation on, so
    /// the group's weak handles can no longer upgrade.
    pub fn drop_shared(&mut self, handle: SharedHandle)
        requires
            old(self).wf(),
            old(self).valid_shared(handle),
        ensures
            final(self).wf(),
            final(self).capacity_spec() == old(self).capacity_spec(),
            old(self).strong_at(handle.index_spec() as int) > 1 ==> {
                &&& final(self).strong_at(handle.index_spec() as int) == old(self).strong_at(
                    handle.index_spec() as int,
                ) - 1
                &&& final(self).free_order() == old(self).free_order()
                &&& final(self).available_spec() == old(self).available_spec()
                &&& final(self).stats_spec() == old(self).stats_spec()
                &&& forall|j: int| final(self).slot_spec(j) == old(self).slot_spec(j)
                &&& forall|j: int| final(self).is_live(j) == old(self).is_live(j)
                &&& forall|j: int|
                    0 <= j < old(self).capacity_spec() ==> final(self).gen_at(j) == old(self).gen_at(j) && final(self).weak_at(j) == old(self).weak_at(j)
                &&& forall|j: int|
                    0 <= j < old(self).capacity_spec() && j != handle.index_spec() as int
                        ==> final(self).strong_at(j) == old(self).strong_at(j)
            },
            old(self).strong_at(handle.index_spec() as int) == 1 ==> {
                &&& !final(self).is_live(handle.index_spec() as int)
                &&& final(self).slot_spec(handle.index_spec() as int) is None
                &&& final(self).strong_at(handle.index_spec() as int) == 0
                &&& final(self).gen_at(handle.index_spec() as int) != handle.generation_spec()
                    || handle.generation_spec() == u64::MAX
                &&& final(self).free_order() == old(self).free_order().push(handle.index_spec())
                &&& final(self).available_spec() == old(self).available_spec() + 1
                &&& final(self).stats_spec() == spec_record_deallocation(old(self).stats_spec())
                &&& forall|j: int|
                    0 <= j < old(self).capacity_spec() && j != handle.index_spec() as int
                        ==> final(self).slot_spec(j) == old(self).slot_spec(j)
                &&& forall|j: int|
                    j != handle.index_spec() as int ==> final(self).is_live(j) == old(self).is_live(j)
                &&& forall|j: int|
                    0 <= j < old(self).capacity_spec() && j != handle.index_spec() as int
                        ==> final(self).strong_at(j) == old(self).strong_at(j) && final(self).weak_at(j) == old(self).weak_at(j) && final(self).gen_at(j) == old(self).gen_at(j)
            },
    {
        let index = handle.index();
        let m = self.meta[index];
        if m.strong > 1 {
            self.meta[index] = SlotMeta {
                strong: m.strong - 1,
                weak: m.weak,
                generation: m.generation,
            };
        } else {
            let value = self.storage[index].take();
            match value {
                Some(mut v) => {
                    v.on_release();
                },
                None => {
                    proof {
                        assert(false);
                    }
                },
            }
            let next_gen: u64 = if m.generation < u64::MAX {
                m.generation + 1
            } else {
                m.generation
            };
            self.meta[index] = SlotMeta { strong: 0, weak: m.weak, generation: next_gen };
            self.tracker.free(index);
            self.stats.record_deallocation();
        }
    }

    /// Reset statistics counters; the capacity record is preserved.
    pub fn reset_statistics(&mut self)
        requires
            old(self).wf(),
        ensures
            final(self).wf(),
            final(self).stats_spec() == spec_reset(old(self).stats_spec()),
            final(self).capacity_spec() == old(self).capacity_spec(),
            final(self).free_order() == old(self).free_order(),
            forall|j: int| final(self).slot_spec(j) == old(self).slot_spec(j),
            forall|j: int|
                final(self).is_live(j) == old(self).is_live(j) && final(self).strong_at(j) == old(self).strong_at(j) && final(self).gen_at(j) == old(self).gen_at(j),
    {
        self.stats.reset();
    }
}

} // verus!
