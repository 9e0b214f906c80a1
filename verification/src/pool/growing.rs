//! Growing memory pool implementation.

use vstd::prelude::*;

verus! {

use crate::allocator::{Allocator, FreeListAllocator};
use crate::config::{spec_growth, GrowthStrategy, PoolConfig};
use crate::error::{Error, PoolResult};
use crate::handle::OwnedHandle;
use crate::stats::collector::{
    spec_record_allocation, spec_record_deallocation, spec_record_growth, spec_reset,
    StatisticsCollector,
};
use crate::stats::PoolStatistics;
use crate::traits::Poolable;

/// The first slot index of chunk `k`, given the chunk boundaries (the
/// running totals of the chunk sizes).
pub open spec fn chunk_lower(b: Seq<usize>, k: int) -> int {
    if k == 0 {
        0
    } else {
        b[k - 1] as int
    }
}

/// Whether slot `i` lies in chunk `k` at offset `o`.
pub open spec fn located(b: Seq<usize>, i: int, k: int, o: int) -> bool {
    &&& 0 <= k < b.len()
    &&& chunk_lower(b, k) <= i < b[k]
    &&& o == i - chunk_lower(b, k)
}

/// The place of slot `i`: its chunk and offset.
pub closed spec fn loc_of(b: Seq<usize>, i: int) -> (int, int) {
    choose|loc: (int, int)| located(b, i, loc.0, loc.1)
}

/// A well-formed boundary table: at least one chunk, every chunk
/// non-empty, and the last boundary at the capacity.
pub open spec fn boundaries_wf(b: Seq<usize>, capacity: int) -> bool {
    &&& b.len() >= 1
    &&& forall|k: int| 0 <= k < b.len() ==> chunk_lower(b, k) < b[k]
    &&& b.last() == capacity
}

/// Boundaries never decrease from one chunk to a later one.
pub proof fn lemma_boundaries_monotonic(b: Seq<usize>, k1: int, k2: int)
    requires
        forall|k: int| 0 <= k < b.len() ==> chunk_lower(b, k) < b[k],
        0 <= k1 <= k2 < b.len(),
    ensures
        b[k1] <= b[k2],
    decreases k2 - k1,
{
    if k1 < k2 {
        lemma_boundaries_monotonic(b, k1, k2 - 1);
        assert(chunk_lower(b, k2) < b[k2]);
    }
}

/// A slot lies in exactly one place: two locations for the same index
/// agree.
pub proof fn lemma_located_unique(b: Seq<usize>, i: int, k1: int, o1: int, k2: int, o2: int)
    requires
        forall|k: int| 0 <= k < b.len() ==> chunk_lower(b, k) < b[k],
        located(b, i, k1, o1),
        located(b, i, k2, o2),
    ensures
        k1 == k2,
        o1 == o2,
{
    if k1 < k2 {
        lemma_boundaries_monotonic(b, k1, k2 - 1);
        assert(b[k1] <= chunk_lower(b, k2));
    }
    if k2 < k1 {
        lemma_boundaries_monotonic(b, k2, k1 - 1);
        assert(b[k2] <= chunk_lower(b, k1));
    }
}

/// Address stability across growth: appending a chunk never moves an
/// existing slot. A slot located in some chunk at some offset before a
/// new boundary is appended is located in the same chunk at the same
/// offset afterwards, so the place computed for an index stays the same
/// for the pool's whole lifetime.
pub proof fn lemma_location_stable(b: Seq<usize>, i: int, k: int, o: int, new_boundary: usize)
    requires
        located(b, i, k, o),
    ensures
        located(b.push(new_boundary), i, k, o),
{
    assert(b.push(new_boundary)[k] == b[k]);
    if k > 0 {
        assert(b.push(new_boundary)[k - 1] == b[k - 1]);
    }
}

/// A memory pool that can grow on demand.
///
/// The pool starts with one chunk of slots and grows by appending
/// further chunks according to its growth strategy. Existing chunks are
/// never moved or reallocated, so a slot's place is stable for the
/// pool's whole lifetime; an index is mapped to its chunk by binary
/// search over the boundary table.
pub struct GrowingPool<T> {
    /// Storage chunks; a free slot holds nothing
    chunks: Vec<Vec<Option<T>>>,
    /// Running totals of the chunk sizes, for the index lookup
    chunk_boundaries: Vec<usize>,
    /// Tracker managing which slots are free
    tracker: FreeListAllocator,
    /// Current total capacity
    capacity: usize,
    /// Pool configuration
    config: PoolConfig<T>,
    /// Statistics collector
    stats: StatisticsCollector,
}

impl<T> GrowingPool<T> {
    /// The current total number of slots.
    pub closed spec fn capacity_spec(&self) -> usize {
        self.capacity
    }

    /// The list of free slot indices; the last is claimed next.
    pub closed spec fn free_order(&self) -> Seq<usize> {
        self.tracker.free_seq()
    }

    /// The number of free slots.
    pub closed spec fn available_spec(&self) -> nat {
        self.tracker.available_spec()
    }

    /// The number of live slots.
    pub open spec fn allocated_spec(&self) -> nat {
        (self.capacity_spec() - self.available_spec()) as nat
    }

    /// Whether slot `i` currently holds an element.
    pub closed spec fn is_live(&self, i: int) -> bool {
        0 <= i < self.capacity && !self.tracker.is_free(i)
    }

    /// The boundary table: the running totals of the chunk sizes.
    pub closed spec fn boundaries(&self) -> Seq<usize> {
        self.chunk_boundaries@
    }

    /// What slot `i` holds.
    pub closed spec fn slot_spec(&self, i: int) -> Option<T> {
        let loc = loc_of(self.chunk_boundaries@, i);
        self.chunks@[loc.0]@[loc.1]
    }

    /// The configured growth strategy.
    pub closed spec fn growth_strategy_spec(&self) -> GrowthStrategy {
        self.config.growth_spec()
    }

    /// The configured maximum capacity, if any.
    pub closed spec fn max_capacity_spec(&self) -> Option<usize> {
        self.config.max_capacity_spec()
    }

    /// The statistics gathered so far.
    pub closed spec fn stats_spec(&self) -> PoolStatistics {
        self.stats.stats_spec()
    }

    /// The number of slots the next growth step would add.
    pub open spec fn growth_delta(&self) -> int {
        spec_growth(self.growth_strategy_spec(), self.capacity_spec() as int)
    }

    /// Whether the next growth step can be taken: it adds at least one
    /// slot and stays within the machine and the configured limits.
    pub open spec fn grow_ok(&self) -> bool {
        &&& self.growth_delta() >= 1
        &&& self.capacity_spec() + self.growth_delta() <= usize::MAX
        &&& (self.max_capacity_spec() matches Some(m) ==> self.capacity_spec()
            + self.growth_delta() <= m)
    }

    /// The structural part of consistency: the tracker spans exactly the
    /// slots, the boundary table matches the chunks, and a configured
    /// maximum is obeyed.
    pub closed spec fn layout_wf(&self) -> bool {
        &&& self.tracker.wf()
        &&& self.tracker.capacity_spec() == self.capacity
        &&& self.capacity >= 1
        &&& boundaries_wf(self.chunk_boundaries@, self.capacity as int)
        &&& self.chunks@.len() == self.chunk_boundaries@.len()
        &&& forall|k: int|
            0 <= k < self.chunks@.len() ==> (#[trigger] self.chunks@[k])@.len()
                == self.chunk_boundaries@[k] - chunk_lower(self.chunk_boundaries@, k)
        &&& (self.config.max_capacity_spec() matches Some(m) ==> self.capacity <= m)
    }

    /// Internal consistency: the layout is sound, a free slot holds
    /// nothing, and a live slot holds an element.
    pub closed spec fn wf(&self) -> bool {
        &&& self.layout_wf()
        &&& forall|k: int, o: int|
            0 <= k < self.chunks@.len() && 0 <= o < self.chunks@[k]@.len() && self.tracker.is_free(
                chunk_lower(self.chunk_boundaries@, k) + o,
            ) ==> (#[trigger] self.chunks@[k]@[o]) is None
        &&& forall|k: int, o: int|
            0 <= k < self.chunks@.len() && 0 <= o < self.chunks@[k]@.len()
                && !self.tracker.is_free(chunk_lower(self.chunk_boundaries@, k) + o) ==> (
            #[trigger] self.chunks@[k]@[o]) is Some
    }

    /// The free and the live slots together are always the whole pool.
    pub proof fn lemma_conservation(&self)
        requires
            self.wf(),
        ensures
            self.available_spec() + self.allocated_spec() == self.capacity_spec(),
    {
        self.tracker.lemma_available_bounded();
    }

    /// Allocating a value and returning it at once, while a slot is
    /// free, leaves the pool indistinguishable from before: the free
    /// list, every slot's content, and every slot's liveness are as they
    /// were. The facts assumed here are exactly what `allocate` ensures
    /// of the step from `p0` to `p1` and what `return_to_pool` ensures
    /// of the step from `p1` to `p2`.
    pub proof fn lemma_allocate_release_roundtrip(
        p0: &GrowingPool<T>,
        p1: &GrowingPool<T>,
        p2: &GrowingPool<T>,
        h: OwnedHandle,
    )
        requires
            p0.wf(),
            p0.available_spec() > 0,
            h.index_spec() == p0.free_order().last(),
            p1.free_order() == p0.free_order().drop_last(),
            p1.capacity_spec() == p0.capacity_spec(),
            forall|j: int|
                0 <= j < p0.capacity_spec() && j != h.index_spec() as int ==> p1.slot_spec(j)
                    == p0.slot_spec(j),
            forall|j: int| j != h.index_spec() as int ==> p1.is_live(j) == p0.is_live(j),
            p2.free_order() == p1.free_order().push(h.index_spec()),
            p2.capacity_spec() == p1.capacity_spec(),
            p2.slot_spec(h.index_spec() as int) is None,
            !p2.is_live(h.index_spec() as int),
            forall|j: int|
                0 <= j < p1.capacity_spec() && j != h.index_spec() as int ==> p2.slot_spec(j)
                    == p1.slot_spec(j),
            forall|j: int| j != h.index_spec() as int ==> p2.is_live(j) == p1.is_live(j),
        ensures
            p2.free_order() == p0.free_order(),
            p2.capacity_spec() == p0.capacity_spec(),
            forall|j: int| 0 <= j < p0.capacity_spec() ==> p2.slot_spec(j) == p0.slot_spec(j),
            forall|j: int| p2.is_live(j) == p0.is_live(j),
    {
        p0.tracker.lemma_available_is_free_len();
        assert(p0.free_order().len() > 0);
        assert(p2.free_order() =~= p0.free_order());
        let idx = h.index_spec() as int;
        assert(p0.free_order()[p0.free_order().len() - 1] as int == idx);
        p0.tracker.lemma_is_free_iff_listed(idx);
        assert(crate::allocator::has_index(p0.free_order(), idx));
        assert(p0.tracker.is_free(idx));
        p0.tracker.lemma_free_in_range(idx);
        assert(0 <= idx < p0.capacity_spec());
        let loc = p0.lemma_located_exists(idx);
        p0.lemma_slot_spec_at(idx, loc.0, loc.1);
        assert(p0.chunks@[loc.0]@[loc.1] is None);
        assert(!p0.is_live(idx));
    }

    /// As many releases as claims restore full availability: over a run
    /// of states in which each successor releases one slot — what
    /// `return_to_pool` ensures of each step — the availability rises by
    /// the length of the run. A pool that had claimed some number of
    /// slots is back to its old availability after that many releases
    /// with no claims in between; when that restores full availability,
    /// the tracker's contracts say every slot is free again.
    pub proof fn lemma_releases_restore_availability(states: Seq<GrowingPool<T>>)
        requires
            states.len() >= 1,
            forall|t: int|
                0 <= t < states.len() - 1 ==> (#[trigger] states[t]).available_spec() + 1
                    == states[t + 1].available_spec() && states[t].capacity_spec() == states[t
                    + 1].capacity_spec(),
        ensures
            states.last().available_spec() == states[0].available_spec() + states.len() - 1,
            states.last().capacity_spec() == states[0].capacity_spec(),
        decreases states.len(),
    {
        if states.len() > 1 {
            let front = states.drop_last();
            assert forall|t: int|
                0 <= t < front.len() - 1 implies (#[trigger] front[t]).available_spec() + 1
                == front[t + 1].available_spec() && front[t].capacity_spec() == front[t
                + 1].capacity_spec() by {
                assert(front[t] == states[t]);
                assert(front[t + 1] == states[t + 1]);
            }
            Self::lemma_releases_restore_availability(front);
            assert(front[0] == states[0]);
            assert(front.last() == states[states.len() - 2]);
            assert(states[states.len() - 2].available_spec() + 1 == states[states.len()
                - 1].available_spec());
        }
    }

    /// The number of free slots is the free list's length.
    pub proof fn lemma_free_order_length(&self)
        requires
            self.wf(),
        ensures
            self.available_spec() == self.free_order().len(),
    {
        self.tracker.lemma_available_is_free_len();
    }

    /// The free list holds an index at most once.
    pub proof fn lemma_free_order_no_duplicates(&self)
        requires
            self.wf(),
        ensures
            self.free_order().no_duplicates(),
    {
        self.tracker.lemma_free_seq_no_duplicates();
    }

    /// What the slot map says at an explicitly located place.
    proof fn lemma_slot_spec_at(&self, i: int, k: int, o: int)
        requires
            self.layout_wf(),
            located(self.chunk_boundaries@, i, k, o),
        ensures
            self.slot_spec(i) == self.chunks@[k]@[o],
    {
        assert(located(self.chunk_boundaries@, i, ((k, o)).0, ((k, o)).1));
        assert(exists|loc: (int, int)| located(self.chunk_boundaries@, i, loc.0, loc.1));
        let loc = choose|loc: (int, int)| located(self.chunk_boundaries@, i, loc.0, loc.1);
        assert(loc == loc_of(self.chunk_boundaries@, i));
        lemma_located_unique(self.chunk_boundaries@, i, loc.0, loc.1, k, o);
    }

    /// Every in-range slot has a place.
    proof fn lemma_located_exists(&self, i: int) -> (loc: (int, int))
        requires
            self.layout_wf(),
            0 <= i < self.capacity_spec(),
        ensures
            located(self.chunk_boundaries@, i, loc.0, loc.1),
            0 <= loc.1 < self.chunks@[loc.0]@.len(),
        decreases self.chunk_boundaries@.len(),
    {
        let b = self.chunk_boundaries@;
        let k = self.lemma_first_chunk_covering(i, 0);
        let o = i - chunk_lower(b, k);
        (k, o)
    }

    /// The first chunk from `start` whose boundary passes `i`.
    proof fn lemma_first_chunk_covering(&self, i: int, start: int) -> (k: int)
        requires
            self.layout_wf(),
            0 <= i < self.capacity_spec(),
            0 <= start < self.chunk_boundaries@.len(),
            chunk_lower(self.chunk_boundaries@, start) <= i,
        ensures
            start <= k < self.chunk_boundaries@.len(),
            located(self.chunk_boundaries@, i, k, i - chunk_lower(self.chunk_boundaries@, k)),
            0 <= i - chunk_lower(self.chunk_boundaries@, k) < self.chunks@[k]@.len(),
        decreases self.chunk_boundaries@.len() - start,
    {
        let b = self.chunk_boundaries@;
        if i < b[start] {
            start
        } else {
            assert(start + 1 < b.len()) by {
                if start == b.len() - 1 {
                    assert(b.last() == self.capacity as int);
                }
            }
            self.lemma_first_chunk_covering(i, start + 1)
        }
    }

    /// Converts a flat slot index to its chunk and offset by binary
    /// search over the boundary table.
    #[verifier::rlimit(60)]
    fn compute_chunk_location(&self, index: usize) -> (r: (usize, usize))
        requires
            self.layout_wf(),
            index < self.capacity_spec(),
        ensures
            located(self.chunk_boundaries@, index as int, r.0 as int, r.1 as int),
            0 <= (r.1 as int) < self.chunks@[r.0 as int]@.len(),
    {
        let len = self.chunk_boundaries.len();
        let mut lo: usize = 0;
        let mut hi: usize = len;
        while lo < hi
            invariant
                lo <= hi <= len,
                len == self.chunk_boundaries@.len(),
                self.layout_wf(),
                index < self.capacity_spec(),
                forall|k: int| 0 <= k < lo ==> (#[trigger] self.chunk_boundaries@[k]) <= index,
                forall|k: int|
                    hi <= k < len ==> index < (#[trigger] self.chunk_boundaries@[k]),
            decreases hi - lo,
        {
            let mid = lo + (hi - lo) / 2;
            if self.chunk_boundaries[mid] <= index {
                proof {
                    assert forall|k: int|
                        0 <= k < mid + 1 implies (#[trigger] self.chunk_boundaries@[k])
                        <= index by {
                        if k < mid {
                            lemma_boundaries_monotonic(self.chunk_boundaries@, k, mid as int);
                        }
                    }
                }
                lo = mid + 1;
            } else {
                proof {
                    assert forall|k: int|
                        mid <= k < len implies index < (#[trigger] self.chunk_boundaries@[k]) by {
                        lemma_boundaries_monotonic(self.chunk_boundaries@, mid as int, k);
                    }
                }
                hi = mid;
            }
        }
        proof {
            if lo == len {
                assert(self.chunk_boundaries@[len - 1] <= index);
                assert(self.chunk_boundaries@.last() == self.capacity as int);
            }
        }
        let k = lo;
        let lower: usize = if k == 0 {
            0
        } else {
            self.chunk_boundaries[k - 1]
        };
        (k, index - lower)
    }
}

impl<T: Poolable> GrowingPool<T> {
    /// Creates a new growing pool with the specified configuration: one
    /// chunk of the configured capacity, all slots free.
    pub fn with_config(config: PoolConfig<T>) -> (r: PoolResult<GrowingPool<T>>)
        requires
            config.valid(),
        ensures
            r is Ok,
            r matches Ok(p) ==> {
                &&& p.wf()
                &&& p.capacity_spec() == config.capacity_spec()
                &&& p.available_spec() == config.capacity_spec()
                &&& p.free_order() == Seq::new(
                    config.capacity_spec() as nat,
                    |k: int| k as usize,
                )
                &&& p.growth_strategy_spec() == config.growth_spec()
                &&& p.max_capacity_spec() == config.max_capacity_spec()
                &&& p.stats_spec() == crate::stats::spec_stats_new(config.capacity_spec())
            },
    {
        let capacity = config.capacity();
        let mut chunk: Vec<Option<T>> = Vec::new();
        let mut k: usize = 0;
        while k < capacity
            invariant
                k <= capacity,
                chunk@.len() == k,
                forall|i: int| 0 <= i < k ==> (#[trigger] chunk@[i]) is None,
            decreases capacity - k,
        {
            chunk.push(None);
            k = k + 1;
        }
        let mut chunks: Vec<Vec<Option<T>>> = Vec::new();
        chunks.push(chunk);
        let mut chunk_boundaries: Vec<usize> = Vec::new();
        chunk_boundaries.push(capacity);
        let pool = GrowingPool {
            chunks,
            chunk_boundaries,
            tracker: FreeListAllocator::new(capacity),
            capacity,
            config,
            stats: StatisticsCollector::new(capacity),
        };
        proof {
            assert forall|i: int| 0 <= i < capacity implies pool.tracker.is_free(i) by {
                pool.tracker.lemma_is_free_iff_listed(i);
                assert(pool.tracker.free_seq()[i] as int == i);
            }
            assert(pool.chunk_boundaries@.len() == 1);
            assert(chunk_lower(pool.chunk_boundaries@, 0) == 0);
        }
        Ok(pool)
    }

    /// Grows the pool by one chunk, as the growth strategy directs.
    ///
    /// Fails with `PoolExhausted` when the strategy yields no growth or
    /// the new capacity would pass the machine limit, and with
    /// `MaxCapacityExceeded` when it would pass the configured maximum;
    /// either way the pool is unchanged.
    #[verifier::rlimit(60)]
    fn grow(&mut self) -> (r: PoolResult<()>)
        requires
            old(self).wf(),
        ensures
            final(self).wf(),
            r is Ok <==> old(self).grow_ok(),
            r matches Ok(()) ==> {
                &&& final(self).capacity_spec() == old(self).capacity_spec()
                    + old(self).growth_delta()
                &&& final(self).available_spec() == old(self).available_spec() + old(self).growth_delta()
                &&& final(self).free_order() == old(self).free_order() + Seq::new(
                    old(self).growth_delta() as nat,
                    |k: int| (old(self).capacity_spec() + k) as usize,
                )
                &&& final(self).boundaries() == old(self).boundaries().push(
                    final(self).capacity_spec(),
                )
                &&& forall|i: int|
                    0 <= i < old(self).capacity_spec() ==> final(self).slot_spec(i) == old(self).slot_spec(i) && final(self).is_live(i) == old(self).is_live(i)
                &&& final(self).stats_spec() == spec_record_growth(
                    old(self).stats_spec(),
                    final(self).capacity_spec(),
                )
            },
            r matches Err(e) ==> {
                &&& final(self).capacity_spec() == old(self).capacity_spec()
                &&& final(self).available_spec() == old(self).available_spec()
                &&& final(self).free_order() == old(self).free_order()
                &&& final(self).boundaries() == old(self).boundaries()
                &&& final(self).stats_spec() == old(self).stats_spec()
                &&& forall|i: int| final(self).slot_spec(i) == old(self).slot_spec(i)
                &&& forall|i: int| final(self).is_live(i) == old(self).is_live(i)
                &&& (if old(self).growth_delta() < 1 || old(self).capacity_spec() + old(self).growth_delta() > usize::MAX {
                    e == (Error::PoolExhausted {
                        capacity: old(self).capacity_spec(),
                        allocated: old(self).allocated_spec() as usize,
                    })
                } else {
                    old(self).max_capacity_spec() matches Some(m) && e == (
                    Error::MaxCapacityExceeded {
                        current: old(self).capacity_spec(),
                        requested: (old(self).capacity_spec() + old(self).growth_delta()) as usize,
                        max: m,
                    })
                })
            },
            final(self).growth_strategy_spec() == old(self).growth_strategy_spec(),
            final(self).max_capacity_spec() == old(self).max_capacity_spec(),
    {
        proof {
            self.tracker.lemma_available_bounded();
        }
        let growth_amount = self.config.growth_strategy().compute_growth(self.capacity);
        if growth_amount == 0 {
            let allocated = self.capacity - self.tracker.available();
            return Err(Error::PoolExhausted { capacity: self.capacity, allocated });
        }
        if growth_amount > usize::MAX - self.capacity {
            let allocated = self.capacity - self.tracker.available();
            return Err(Error::PoolExhausted { capacity: self.capacity, allocated });
        }
        let new_capacity = self.capacity + growth_amount;
        match self.config.max_capacity() {
            Some(max) => {
                if new_capacity > max {
                    return Err(
                        Error::MaxCapacityExceeded {
                            current: self.capacity,
                            requested: new_capacity,
                            max,
                        },
                    );
                }
            },
            None => {},
        }
        let mut new_chunk: Vec<Option<T>> = Vec::new();
        let mut k: usize = 0;
        while k < growth_amount
            invariant
                k <= growth_amount,
                new_chunk@.len() == k,
                forall|i: int| 0 <= i < k ==> (#[trigger] new_chunk@[i]) is None,
            decreases growth_amount - k,
        {
            new_chunk.push(None);
            k = k + 1;
        }
        let ghost pre = *self;
        self.chunks.push(new_chunk);
        self.tracker.extend(growth_amount);
        self.capacity = new_capacity;
        self.chunk_boundaries.push(new_capacity);
        self.stats.record_growth(new_capacity);
        proof {
            let b = self.chunk_boundaries@;
            let bp = pre.chunk_boundaries@;
            assert(b == bp.push(new_capacity));
            assert forall|k2: int| 0 <= k2 < b.len() implies chunk_lower(b, k2) < b[k2] by {
                if k2 < bp.len() {
                    assert(chunk_lower(bp, k2) < bp[k2]);
                    assert(chunk_lower(b, k2) == chunk_lower(bp, k2));
                } else {
                    assert(chunk_lower(b, k2) == pre.capacity as int);
                }
            }
            assert forall|k2: int|
                0 <= k2 < self.chunks@.len() implies (#[trigger] self.chunks@[k2])@.len() == b[k2]
                - chunk_lower(b, k2) by {
                if k2 < bp.len() {
                    assert(self.chunks@[k2] == pre.chunks@[k2]);
                    assert(chunk_lower(b, k2) == chunk_lower(bp, k2));
                }
            }
            assert forall|k2: int, o: int|
                0 <= k2 < self.chunks@.len() && 0 <= o < self.chunks@[k2]@.len() implies {
                let i = chunk_lower(b, k2) + o;
                (self.tracker.is_free(i) ==> (#[trigger] self.chunks@[k2]@[o]) is None)
                    && (!self.tracker.is_free(i) ==> self.chunks@[k2]@[o] is Some)
            } by {
                let i = chunk_lower(b, k2) + o;
                if k2 < bp.len() {
                    assert(self.chunks@[k2] == pre.chunks@[k2]);
                    assert(chunk_lower(b, k2) == chunk_lower(bp, k2));
                    lemma_boundaries_monotonic(bp, k2, bp.len() - 1);
                    assert(i < pre.capacity);
                    assert(self.tracker.is_free(i) == pre.tracker.is_free(i));
                } else {
                    assert(self.chunks@[k2]@[o] is None);
                    assert(pre.capacity <= i < self.capacity);
                    assert(self.tracker.is_free(i));
                }
            }
            assert forall|i: int|
                0 <= i < pre.capacity implies self.slot_spec(i) == pre.slot_spec(i) && self.is_live(
                i,
            ) == pre.is_live(i) by {
                let loc = pre.lemma_located_exists(i);
                lemma_location_stable(bp, i, loc.0, loc.1, new_capacity);
                pre.lemma_slot_spec_at(i, loc.0, loc.1);
                self.lemma_slot_spec_at(i, loc.0, loc.1);
                assert(self.chunks@[loc.0] == pre.chunks@[loc.0]);
            }
        }
        Ok(())
    }

    /// Allocates an object from the pool with the given initial value.
    ///
    /// If no slot is free, the pool first grows as its strategy directs.
    /// Succeeds exactly when a slot is free or growth is possible; after
    /// the acquire hook the claimed slot holds the given value. Growth
    /// never moves existing slots.
    #[verifier::rlimit(60)]
    pub fn allocate(&mut self, value: T) -> (r: PoolResult<OwnedHandle>)
        requires
            old(self).wf(),
        ensures
            final(self).wf(),
            final(self).capacity_spec() >= old(self).capacity_spec(),
            old(self).max_capacity_spec() matches Some(m) ==> final(self).capacity_spec() <= m,
            final(self).growth_strategy_spec() == old(self).growth_strategy_spec(),
            final(self).max_capacity_spec() == old(self).max_capacity_spec(),
            r is Ok <==> (old(self).available_spec() > 0 || old(self).grow_ok()),
            r matches Ok(h) ==> {
                &&& final(self).is_live(h.index_spec() as int)
                &&& final(self).slot_spec(h.index_spec() as int) == Some(value.acquire_spec())
                &&& !old(self).is_live(h.index_spec() as int)
                &&& forall|j: int|
                    0 <= j < old(self).capacity_spec() && j != h.index_spec() as int ==> final(self).slot_spec(j) == old(self).slot_spec(j) && final(self).is_live(j) == old(self).is_live(j)
                &&& (if old(self).available_spec() > 0 {
                    {
                        &&& h.index_spec() == old(self).free_order().last()
                        &&& final(self).capacity_spec() == old(self).capacity_spec()
                        &&& final(self).free_order() == old(self).free_order().drop_last()
                        &&& final(self).available_spec() == old(self).available_spec() - 1
                        &&& final(self).stats_spec() == spec_record_allocation(
                            old(self).stats_spec(),
                        )
                    }
                } else {
                    {
                        &&& final(self).capacity_spec() == old(self).capacity_spec() + old(self).growth_delta()
                        &&& h.index_spec() == final(self).capacity_spec() - 1
                        &&& final(self).available_spec() == old(self).growth_delta() - 1
                        &&& final(self).stats_spec() == spec_record_allocation(
                            spec_record_growth(
                                old(self).stats_spec(),
                                final(self).capacity_spec(),
                            ),
                        )
                    }
                })
            },
            r matches Err(e) ==> {
                &&& final(self).capacity_spec() == old(self).capacity_spec()
                &&& final(self).available_spec() == old(self).available_spec()
                &&& final(self).free_order() == old(self).free_order()
                &&& final(self).boundaries() == old(self).boundaries()
                &&& final(self).stats_spec() == old(self).stats_spec()
                &&& forall|i: int| final(self).slot_spec(i) == old(self).slot_spec(i)
                &&& forall|i: int| final(self).is_live(i) == old(self).is_live(i)
                &&& (if old(self).growth_delta() < 1 || old(self).capacity_spec() + old(self).growth_delta() > usize::MAX {
                    e == (Error::PoolExhausted {
                        capacity: old(self).capacity_spec(),
                        allocated: old(self).allocated_spec() as usize,
                    })
                } else {
                    old(self).max_capacity_spec() matches Some(m) && e == (
                    Error::MaxCapacityExceeded {
                        current: old(self).capacity_spec(),
                        requested: (old(self).capacity_spec() + old(self).growth_delta()) as usize,
                        max: m,
                    })
                })
            },
    {
        proof {
            self.tracker.lemma_available_is_free_len();
        }
        if self.tracker.available() == 0 {
            match self.grow() {
                Ok(()) => {},
                Err(e) => {
                    return Err(e);
                },
            }
        }
        let ghost base = *self;
        let ghost grown = old(self).available_spec() == 0;
        let index = match self.tracker.allocate() {
            Some(index) => index,
            None => {
                proof {
                    assert(false);
                }
                return Err(Error::AllocationFailed);
            },
        };
        proof {
            base.tracker.lemma_available_is_free_len();
        }
        self.stats.record_allocation();
        let mut value = value;
        value.on_acquire();
        let ghost acquired = value;
        let (k, o) = self.compute_chunk_location(index);
        proof {
            assert(located(self.chunk_boundaries@, index as int, k as int, o as int));
        }
        let chunk: &mut Vec<Option<T>> = &mut self.chunks[k];
        chunk[o] = Some(value);
        proof {
            let b = self.chunk_boundaries@;
            assert(b == base.chunk_boundaries@);
            assert(self.chunks@[k as int]@ == base.chunks@[k as int]@.update(
                o as int,
                Some(acquired),
            ));

            assert forall|k2: int, o2: int|
                0 <= k2 < self.chunks@.len() && 0 <= o2 < self.chunks@[k2]@.len() implies {
                &&& (self.tracker.is_free(chunk_lower(b, k2) + o2) ==> (
                #[trigger] self.chunks@[k2]@[o2]) is None)
                &&& (!self.tracker.is_free(chunk_lower(b, k2) + o2) ==> self.chunks@[k2]@[o2]
                    is Some)
            } by {
                let i2 = chunk_lower(b, k2) + o2;
                if k2 == k as int && o2 == o as int {
                    assert(self.chunks@[k2]@[o2] is Some);
                    assert(i2 == index as int);
                } else {
                    if k2 == k as int {
                        assert(self.chunks@[k2]@[o2] == base.chunks@[k2]@[o2]);
                    } else {
                        assert(self.chunks@[k2] == base.chunks@[k2]);
                    }
                    assert(located(b, i2, k2, o2));
                    if i2 == index as int {
                        lemma_located_unique(b, i2, k2, o2, k as int, o as int);
                    }
                    assert(self.tracker.is_free(i2) == base.tracker.is_free(i2));
                }
            }
            self.lemma_slot_spec_at(index as int, k as int, o as int);
            assert(self.slot_spec(index as int) == Some(acquired));
            assert forall|j: int|
                0 <= j < old(self).capacity_spec() && j != index as int implies self.slot_spec(j)
                == old(self).slot_spec(j) && self.is_live(j) == old(self).is_live(j) by {
                let loc = base.lemma_located_exists(j);
                base.lemma_slot_spec_at(j, loc.0, loc.1);
                self.lemma_slot_spec_at(j, loc.0, loc.1);
                if loc.0 == k as int {
                    assert(self.chunks@[loc.0]@ == base.chunks@[loc.0]@.update(
                        o as int,
                        Some(acquired),
                    ));
                    assert(loc.1 != o as int);
                } else {
                    assert(self.chunks@[loc.0] == base.chunks@[loc.0]);
                }
                assert(self.slot_spec(j) == base.slot_spec(j));
            }
        }
        Ok(OwnedHandle::new(index))
    }

    /// Whether the pool may still grow: its strategy allows growth and a
    /// configured maximum is not yet reached.
    pub open spec fn can_grow_spec(&self) -> bool {
        &&& !(self.growth_strategy_spec() is Fixed)
        &&& (self.max_capacity_spec() matches Some(m) ==> self.capacity_spec() < m)
    }

    /// Returns the current total capacity of the pool.
    pub fn capacity(&self) -> (r: usize)
        ensures
            r == self.capacity_spec(),
    {
        self.capacity
    }

    /// Returns the number of available (free) slots in the pool.
    pub fn available(&self) -> (r: usize)
        requires
            self.wf(),
        ensures
            r == self.available_spec(),
    {
        self.tracker.available()
    }

    /// Returns the number of currently allocated objects.
    pub fn allocated(&self) -> (r: usize)
        requires
            self.wf(),
        ensures
            r == self.allocated_spec(),
    {
        proof {
            self.tracker.lemma_available_bounded();
        }
        self.capacity - self.tracker.available()
    }

    /// Returns whether the pool is full: no slot is free and it cannot
    /// grow.
    pub fn is_full(&self) -> (r: bool)
        requires
            self.wf(),
        ensures
            r == (self.available_spec() == 0 && !self.can_grow_spec()),
    {
        self.tracker.is_full() && !self.can_grow()
    }

    /// Returns whether the pool is empty (all slots available).
    pub fn is_empty(&self) -> (r: bool)
        requires
            self.wf(),
        ensures
            r == (self.available_spec() == self.capacity_spec()),
    {
        self.tracker.is_empty()
    }

    /// Returns whether the pool can grow further.
    pub fn can_grow(&self) -> (r: bool)
        ensures
            r == self.can_grow_spec(),
    {
        if !self.config.growth_strategy().allows_growth() {
            return false;
        }
        match self.config.max_capacity() {
            Some(max) => self.capacity < max,
            None => true,
        }
    }

    /// Reads the element an owned handle refers to.
    #[verifier::rlimit(60)]
    pub fn get(&self, handle: &OwnedHandle) -> (r: &T)
        requires
            self.wf(),
            self.is_live(handle.index_spec() as int),
        ensures
            self.slot_spec(handle.index_spec() as int) == Some(*r),
    {
        let idx = handle.index();
        let (k, o) = self.compute_chunk_location(idx);
        proof {
            self.lemma_slot_spec_at(idx as int, k as int, o as int);
        }
        match self.chunks[k][o].as_ref() {
            Some(v) => v,
            None => vstd::pervasive::unreached(),
        }
    }

    /// Writes through an owned handle: hands out a mutable reference to
    /// the element in the handle's slot, leaving everything else in the
    /// pool as it was.
    #[verifier::rlimit(100)]
    pub fn get_mut(&mut self, handle: &OwnedHandle) -> (r: &mut T)
        requires
            old(self).wf(),
            old(self).is_live(handle.index_spec() as int),
        ensures
            old(self).slot_spec(handle.index_spec() as int) == Some(*r),
            final(self).slot_spec(handle.index_spec() as int) == Some(*final(r)),
            final(self).wf(),
            final(self).capacity_spec() == old(self).capacity_spec(),
            final(self).free_order() == old(self).free_order(),
            final(self).stats_spec() == old(self).stats_spec(),
            final(self).growth_strategy_spec() == old(self).growth_strategy_spec(),
            final(self).max_capacity_spec() == old(self).max_capacity_spec(),
            forall|j: int|
                0 <= j < old(self).capacity_spec() && j != handle.index_spec() as int ==> final(self).slot_spec(j) == old(self).slot_spec(j),
            forall|j: int|
                j != handle.index_spec() as int ==> final(self).is_live(j) == old(self).is_live(j),
    {
        let idx = handle.index();
        let (k, o) = self.compute_chunk_location(idx);
        proof {
            let b = self.chunk_boundaries@;
            self.lemma_slot_spec_at(idx as int, k as int, o as int);
            assert(located(b, idx as int, ((k as int, o as int)).0, ((k as int, o as int)).1));
            assert(exists|loc: (int, int)| located(b, idx as int, loc.0, loc.1));
            assert(located(b, idx as int, loc_of(b, idx as int).0, loc_of(b, idx as int).1));
            lemma_located_unique(
                b,
                idx as int,
                loc_of(b, idx as int).0,
                loc_of(b, idx as int).1,
                k as int,
                o as int,
            );
            assert(loc_of(b, idx as int) == (k as int, o as int));
            assert forall|j: int|
                0 <= j < self.capacity && j != idx as int implies located(
                b,
                j,
                (#[trigger] loc_of(b, j)).0,
                loc_of(b, j).1,
            ) && !(loc_of(b, j).0 == k as int && loc_of(b, j).1 == o as int) by {
                let w = self.lemma_located_exists(j);
                assert(located(b, j, ((w.0, w.1)).0, ((w.0, w.1)).1));
                assert(exists|loc: (int, int)| located(b, j, loc.0, loc.1));
                let loc = loc_of(b, j);
                lemma_located_unique(b, j, loc.0, loc.1, w.0, w.1);
                if loc.0 == k as int && loc.1 == o as int {
                    assert(located(b, idx as int, k as int, o as int));
                    assert(j == idx as int);
                }
            }
        }
        let chunk: &mut Vec<Option<T>> = &mut self.chunks[k];
        match chunk[o].as_mut() {
            Some(v) => v,
            None => vstd::pervasive::unreached(),
        }
    }

    /// Returns an owned slot to the pool.
    ///
    /// The release hook runs on the element, the element is destroyed,
    /// and the slot is listed free again.
    pub fn return_to_pool(&mut self, handle: OwnedHandle)
        requires
            old(self).wf(),
            old(self).is_live(handle.index_spec() as int),
        ensures
            final(self).wf(),
            final(self).capacity_spec() == old(self).capacity_spec(),
            final(self).available_spec() == old(self).available_spec() + 1,
            final(self).free_order() == old(self).free_order().push(handle.index_spec()),
            !final(self).is_live(handle.index_spec() as int),
            final(self).slot_spec(handle.index_spec() as int) is None,
            final(self).growth_strategy_spec() == old(self).growth_strategy_spec(),
            final(self).max_capacity_spec() == old(self).max_capacity_spec(),
            forall|j: int|
                0 <= j < old(self).capacity_spec() && j != handle.index_spec() as int ==> final(self).slot_spec(j) == old(self).slot_spec(j),
            forall|j: int|
                j != handle.index_spec() as int ==> final(self).is_live(j) == old(self).is_live(j),
            final(self).stats_spec() == spec_record_deallocation(old(self).stats_spec()),
    {
        let idx = handle.index();
        let (k, o) = self.compute_chunk_location(idx);
        let ghost base = *self;
        let chunk: &mut Vec<Option<T>> = &mut self.chunks[k];
        let value = chunk[o].take();
        match value {
            Some(mut v) => {
                v.on_release();
            },
            None => {
                proof {
                    assert(false);
                }
            },
        }
        self.tracker.free(idx);
        self.stats.record_deallocation();
        proof {
            let b = self.chunk_boundaries@;
            assert(b == base.chunk_boundaries@);
            assert(self.chunks@[k as int]@ == base.chunks@[k as int]@.update(
                o as int,
                None::<T>,
            ));
            assert forall|k2: int, o2: int|
                0 <= k2 < self.chunks@.len() && 0 <= o2 < self.chunks@[k2]@.len() implies {
                &&& (self.tracker.is_free(chunk_lower(b, k2) + o2) ==> (
                #[trigger] self.chunks@[k2]@[o2]) is None)
                &&& (!self.tracker.is_free(chunk_lower(b, k2) + o2) ==> self.chunks@[k2]@[o2]
                    is Some)
            } by {
                let i2 = chunk_lower(b, k2) + o2;
                if k2 == k as int && o2 == o as int {
                    assert(self.chunks@[k2]@[o2] is None);
                } else {
                    if k2 == k as int {
                        assert(self.chunks@[k2]@[o2] == base.chunks@[k2]@[o2]);
                    } else {
                        assert(self.chunks@[k2] == base.chunks@[k2]);
                    }
                    assert(located(b, i2, k2, o2));
                    if i2 == idx as int {
                        lemma_located_unique(b, i2, k2, o2, k as int, o as int);
                    }
                    assert(self.tracker.is_free(i2) == base.tracker.is_free(i2));
                }
            }
            self.lemma_slot_spec_at(idx as int, k as int, o as int);
            assert forall|j: int|
                0 <= j < old(self).capacity_spec() && j != idx as int implies self.slot_spec(j)
                == old(self).slot_spec(j) by {
                let loc = base.lemma_located_exists(j);
                base.lemma_slot_spec_at(j, loc.0, loc.1);
                self.lemma_slot_spec_at(j, loc.0, loc.1);
                if loc.0 == k as int {
                    assert(loc.1 != o as int);
                } else {
                    assert(self.chunks@[loc.0] == base.chunks@[loc.0]);
                }
            }
        }
    }

    /// Get current pool statistics.
    ///
    /// The returned record carries the live usage count and the capacity
    /// of the moment.
    pub fn statistics(&self) -> (r: PoolStatistics)
        requires
            self.wf(),
        ensures
            r == (PoolStatistics {
                current_usage: self.allocated_spec() as usize,
                capacity: self.capacity_spec(),
                ..self.stats_spec()
            }),
    {
        let mut stats = self.stats.snapshot();
        stats.current_usage = self.allocated();
        stats.capacity = self.capacity;
        stats
    }

    /// Reset statistics counters; the capacity record is preserved.
    pub fn reset_statistics(&mut self)
        requires
            old(self).wf(),
        ensures
            final(self).wf(),
            final(self).stats_spec() == spec_reset(old(self).stats_spec()),
            final(self).capacity_spec() == old(self).capacity_spec(),
            final(self).free_order() == old(self).free_order(),
            forall|j: int| final(self).slot_spec(j) == old(self).slot_spec(j),
            forall|j: int| final(self).is_live(j) == old(self).is_live(j),
    {
        self.stats.reset();
    }
}

} // verus!
