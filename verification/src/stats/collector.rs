//! Statistics collector for tracking pool metrics.

use vstd::prelude::*;

verus! {

use crate::stats::{spec_sat_inc, spec_stats_new, PoolStatistics};

/// The record after one allocation: both the running total and the
/// current usage go up, and the peak follows the current usage.
pub open spec fn spec_record_allocation(s: PoolStatistics) -> PoolStatistics {
    let usage = spec_sat_inc(s.current_usage);
    PoolStatistics {
        total_allocations: spec_sat_inc(s.total_allocations),
        current_usage: usage,
        peak_usage: if usage > s.peak_usage {
            usage
        } else {
            s.peak_usage
        },
        ..s
    }
}

/// The record after `n` allocations in a row.
pub open spec fn spec_record_allocations(s: PoolStatistics, n: nat) -> PoolStatistics
    decreases n,
{
    if n == 0 {
        s
    } else {
        spec_record_allocation(spec_record_allocations(s, (n - 1) as nat))
    }
}

/// The record after one deallocation.
pub open spec fn spec_record_deallocation(s: PoolStatistics) -> PoolStatistics {
    PoolStatistics {
        total_deallocations: spec_sat_inc(s.total_deallocations),
        current_usage: if s.current_usage > 0 {
            (s.current_usage - 1) as usize
        } else {
            0
        },
        ..s
    }
}

/// The record after one failed allocation.
pub open spec fn spec_record_failure(s: PoolStatistics) -> PoolStatistics {
    PoolStatistics { allocation_failures: spec_sat_inc(s.allocation_failures), ..s }
}

/// The record after the pool has grown to `new_capacity`.
pub open spec fn spec_record_growth(s: PoolStatistics, new_capacity: usize) -> PoolStatistics {
    PoolStatistics { growth_count: spec_sat_inc(s.growth_count), capacity: new_capacity, ..s }
}

/// The record after a reset: every counter cleared, capacity kept.
pub open spec fn spec_reset(s: PoolStatistics) -> PoolStatistics {
    spec_stats_new(s.capacity)
}

/// Resetting twice is the same as resetting once: the reset record
/// depends only on the capacity, which a reset keeps.
pub proof fn lemma_reset_idempotent(s: PoolStatistics)
    ensures
        spec_reset(spec_reset(s)) == spec_reset(s),
{
}

/// Collects statistics about pool operations.
pub struct StatisticsCollector {
    stats: PoolStatistics,
}

impl StatisticsCollector {
    /// The current record.
    pub closed spec fn stats_spec(&self) -> PoolStatistics {
        self.stats
    }

    /// Creates a new statistics collector.
    pub fn new(capacity: usize) -> (r: Self)
        ensures
            r.stats_spec() == spec_stats_new(capacity),
    {
        Self { stats: PoolStatistics::new(capacity) }
    }

    /// Records an allocation.
    pub fn record_allocation(&mut self)
        ensures
            final(self).stats_spec() == spec_record_allocation(old(self).stats_spec()),
    {
        if self.stats.total_allocations < usize::MAX {
            self.stats.total_allocations = self.stats.total_allocations + 1;
        }
        if self.stats.current_usage < usize::MAX {
            self.stats.current_usage = self.stats.current_usage + 1;
        }
        if self.stats.current_usage > self.stats.peak_usage {
            self.stats.peak_usage = self.stats.current_usage;
        }
    }

    /// Records a deallocation.
    pub fn record_deallocation(&mut self)
        ensures
            final(self).stats_spec() == spec_record_deallocation(old(self).stats_spec()),
    {
        if self.stats.total_deallocations < usize::MAX {
            self.stats.total_deallocations = self.stats.total_deallocations + 1;
        }
        if self.stats.current_usage > 0 {
            self.stats.current_usage = self.stats.current_usage - 1;
        }
    }

    /// Records an allocation failure.
    pub fn record_failure(&mut self)
        ensures
            final(self).stats_spec() == spec_record_failure(old(self).stats_spec()),
    {
        if self.stats.allocation_failures < usize::MAX {
            self.stats.allocation_failures = self.stats.allocation_failures + 1;
        }
    }

    /// Records pool growth.
    pub fn record_growth(&mut self, new_capacity: usize)
        ensures
            final(self).stats_spec() == spec_record_growth(old(self).stats_spec(), new_capacity),
    {
        if self.stats.growth_count < usize::MAX {
            self.stats.growth_count = self.stats.growth_count + 1;
        }
        self.stats.capacity = new_capacity;
    }

    /// Returns a snapshot of the current statistics.
    pub fn snapshot(&self) -> (r: PoolStatistics)
        ensures
            r == self.stats_spec(),
    {
        self.stats
    }

    /// Resets all statistics counters; the capacity is preserved.
    pub fn reset(&mut self)
        ensures
            final(self).stats_spec() == spec_reset(old(self).stats_spec()),
    {
        let capacity = self.stats.capacity;
        self.stats = PoolStatistics::new(capacity);
    }
}

} // verus!
