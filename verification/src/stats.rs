//! Statistics collection and reporting for memory pools.

pub mod collector;
mod reporter;

pub use collector::StatisticsCollector;
pub use reporter::StatisticsReporter;

use vstd::prelude::*;

verus! {

/// Statistics about pool usage.
///
/// All counters saturate at the machine limit instead of wrapping.
#[derive(Debug, Clone, Copy, PartialEq, Eq, Structural)]
pub struct PoolStatistics {
    /// Total number of allocations ever made
    pub total_allocations: usize,
    /// Total number of deallocations ever made
    pub total_deallocations: usize,
    /// Current number of allocated objects
    pub current_usage: usize,
    /// Peak number of simultaneously allocated objects
    pub peak_usage: usize,
    /// Current capacity of the pool
    pub capacity: usize,
    /// Number of times the pool has grown (for growing pools)
    pub growth_count: usize,
    /// Number of allocation failures
    pub allocation_failures: usize,
}

/// A fresh statistics record for a pool of the given capacity.
pub open spec fn spec_stats_new(capacity: usize) -> PoolStatistics {
    PoolStatistics {
        total_allocations: 0,
        total_deallocations: 0,
        current_usage: 0,
        peak_usage: 0,
        capacity,
        growth_count: 0,
        allocation_failures: 0,
    }
}

/// Adding one to a saturating counter.
pub open spec fn spec_sat_inc(n: usize) -> usize {
    if n < usize::MAX {
        (n + 1) as usize
    } else {
        n
    }
}

impl PoolStatistics {
    /// Creates a new statistics instance with all counters at zero.
    pub fn new(capacity: usize) -> (r: Self)
        ensures
            r == spec_stats_new(capacity),
    {
        Self {
            total_allocations: 0,
            total_deallocations: 0,
            current_usage: 0,
            peak_usage: 0,
            capacity,
            growth_count: 0,
            allocation_failures: 0,
        }
    }

    /// Returns the number of currently available slots.
    pub fn available(&self) -> (r: usize)
        ensures
            r == (if self.current_usage <= self.capacity {
                self.capacity - self.current_usage
            } else {
                0
            }),
    {
        if self.current_usage <= self.capacity {
            self.capacity - self.current_usage
        } else {
            0
        }
    }
}

} // verus!
