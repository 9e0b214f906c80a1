//! Statistics reporting utilities.

use vstd::prelude::*;

verus! {

use crate::decimal::{decimal_string, spec_decimal};
use crate::stats::PoolStatistics;
use vstd::string::StringExecFns;

/// An integer percentage of `part` in `whole`, rounded down; an empty
/// whole counts as zero, and the value saturates at the machine limit.
pub open spec fn spec_percent(part: usize, whole: usize) -> usize {
    if whole == 0 {
        0
    } else {
        let p = part * 100 / (whole as int);
        if p > usize::MAX as int {
            usize::MAX
        } else {
            p as usize
        }
    }
}

/// The hit percentage: successful allocations among all attempts, with
/// no attempts counting as a full score.
pub open spec fn spec_hit_percent(s: PoolStatistics) -> usize {
    let attempts = s.total_allocations + s.allocation_failures;
    if attempts > usize::MAX {
        spec_percent(s.total_allocations, usize::MAX)
    } else if attempts == 0 {
        100
    } else {
        spec_percent(s.total_allocations, attempts as usize)
    }
}

/// The text of the multi-line summary.
pub open spec fn spec_summary(s: PoolStatistics) -> Seq<char> {
    "Pool Statistics:\n  Capacity:            "@ + spec_decimal(s.capacity as int)
        + "\n  Current Usage:       "@ + spec_decimal(s.current_usage as int) + " ("@
        + spec_decimal(spec_percent(s.current_usage, s.capacity) as int) + "%)"@
        + "\n  Peak Usage:          "@ + spec_decimal(s.peak_usage as int) + " ("@ + spec_decimal(
        spec_percent(s.peak_usage, s.capacity) as int,
    ) + "%)"@ + "\n  Total Allocations:   "@ + spec_decimal(s.total_allocations as int)
        + "\n  Total Deallocations: "@ + spec_decimal(s.total_deallocations as int)
        + "\n  Allocation Failures: "@ + spec_decimal(s.allocation_failures as int)
        + "\n  Hit Rate:            "@ + spec_decimal(spec_hit_percent(s) as int) + "%"@
        + "\n  Growth Count:        "@ + spec_decimal(s.growth_count as int) + "\n"@
}

/// The text of the one-line summary.
pub open spec fn spec_compact_summary(s: PoolStatistics) -> Seq<char> {
    "Pool: "@ + spec_decimal(s.current_usage as int) + "/"@ + spec_decimal(s.capacity as int)
        + " ("@ + spec_decimal(spec_percent(s.current_usage, s.capacity) as int) + "%)"@
        + " | Allocs: "@ + spec_decimal(s.total_allocations as int) + " | Deallocs: "@
        + spec_decimal(s.total_deallocations as int) + " | Failures: "@ + spec_decimal(
        s.allocation_failures as int,
    )
}

/// Computes an integer percentage, rounded down.
fn percent(part: usize, whole: usize) -> (r: usize)
    ensures
        r == spec_percent(part, whole),
{
    if whole == 0 {
        0
    } else {
        proof {
            assert((part as int) * 100 <= u128::MAX as int) by (nonlinear_arith)
                requires
                    0 <= part <= u64::MAX,
            ;
        }
        let wide: u128 = (part as u128) * 100 / (whole as u128);
        if wide > usize::MAX as u128 {
            usize::MAX
        } else {
            wide as usize
        }
    }
}

/// Formats and reports pool statistics.
pub struct StatisticsReporter {
    stats: PoolStatistics,
}

impl StatisticsReporter {
    /// The record being reported on.
    pub closed spec fn stats_spec(&self) -> PoolStatistics {
        self.stats
    }

    /// Creates a new reporter for the given statistics.
    pub fn new(stats: PoolStatistics) -> (r: Self)
        ensures
            r.stats_spec() == stats,
    {
        Self { stats }
    }

    /// Returns a human-readable summary of the statistics.
    pub fn summary(&self) -> (r: String)
        ensures
            r@ == spec_summary(self.stats_spec()),
    {
        let mut s = String::from_str("Pool Statistics:\n  Capacity:            ");
        s.append(decimal_string(self.stats.capacity).as_str());
        s.append("\n  Current Usage:       ");
        s.append(decimal_string(self.stats.current_usage).as_str());
        s.append(" (");
        s.append(decimal_string(percent(self.stats.current_usage, self.stats.capacity)).as_str());
        s.append("%)");
        s.append("\n  Peak Usage:          ");
        s.append(decimal_string(self.stats.peak_usage).as_str());
        s.append(" (");
        s.append(decimal_string(percent(self.stats.peak_usage, self.stats.capacity)).as_str());
        s.append("%)");
        s.append("\n  Total Allocations:   ");
        s.append(decimal_string(self.stats.total_allocations).as_str());
        s.append("\n  Total Deallocations: ");
        s.append(decimal_string(self.stats.total_deallocations).as_str());
        s.append("\n  Allocation Failures: ");
        s.append(decimal_string(self.stats.allocation_failures).as_str());
        s.append("\n  Hit Rate:            ");
        s.append(decimal_string(self.hit_percent()).as_str());
        s.append("%");
        s.append("\n  Growth Count:        ");
        s.append(decimal_string(self.stats.growth_count).as_str());
        s.append("\n");
        s
    }

    /// Returns a compact one-line summary.
    pub fn compact_summary(&self) -> (r: String)
        ensures
            r@ == spec_compact_summary(self.stats_spec()),
    {
        let mut s = String::from_str("Pool: ");
        s.append(decimal_string(self.stats.current_usage).as_str());
        s.append("/");
        s.append(decimal_string(self.stats.capacity).as_str());
        s.append(" (");
        s.append(decimal_string(percent(self.stats.current_usage, self.stats.capacity)).as_str());
        s.append("%)");
        s.append(" | Allocs: ");
        s.append(decimal_string(self.stats.total_allocations).as_str());
        s.append(" | Deallocs: ");
        s.append(decimal_string(self.stats.total_deallocations).as_str());
        s.append(" | Failures: ");
        s.append(decimal_string(self.stats.allocation_failures).as_str());
        s
    }

    /// The hit percentage of the record being reported on.
    fn hit_percent(&self) -> (r: usize)
        ensures
            r == spec_hit_percent(self.stats_spec()),
    {
        if self.stats.total_allocations > usize::MAX - self.stats.allocation_failures {
            percent(self.stats.total_allocations, usize::MAX)
        } else {
            let attempts = self.stats.total_allocations + self.stats.allocation_failures;
            if attempts == 0 {
                100
            } else {
                percent(self.stats.total_allocations, attempts)
            }
        }
    }

    /// Returns statistics as key-value pairs.
    pub fn as_key_value_pairs(&self) -> (r: Vec<(&'static str, String)>)
        ensures
            r@.len() == 9,
            r@[0].0@ == "capacity"@ && r@[0].1@ == spec_decimal(self.stats_spec().capacity as int),
            r@[1].0@ == "current_usage"@ && r@[1].1@ == spec_decimal(
                self.stats_spec().current_usage as int,
            ),
            r@[2].0@ == "peak_usage"@ && r@[2].1@ == spec_decimal(
                self.stats_spec().peak_usage as int,
            ),
            r@[3].0@ == "utilization_rate"@ && r@[3].1@ == spec_decimal(
                spec_percent(self.stats_spec().current_usage, self.stats_spec().capacity) as int,
            ) + "%"@,
            r@[4].0@ == "total_allocations"@ && r@[4].1@ == spec_decimal(
                self.stats_spec().total_allocations as int,
            ),
            r@[5].0@ == "total_deallocations"@ && r@[5].1@ == spec_decimal(
                self.stats_spec().total_deallocations as int,
            ),
            r@[6].0@ == "allocation_failures"@ && r@[6].1@ == spec_decimal(
                self.stats_spec().allocation_failures as int,
            ),
            r@[7].0@ == "hit_rate"@ && r@[7].1@ == spec_decimal(
                spec_hit_percent(self.stats_spec()) as int,
            ) + "%"@,
            r@[8].0@ == "growth_count"@ && r@[8].1@ == spec_decimal(
                self.stats_spec().growth_count as int,
            ),
    {
        let mut pairs: Vec<(&'static str, String)> = Vec::new();
        pairs.push(("capacity", decimal_string(self.stats.capacity)));
        pairs.push(("current_usage", decimal_string(self.stats.current_usage)));
        pairs.push(("peak_usage", decimal_string(self.stats.peak_usage)));
        let mut util = decimal_string(percent(self.stats.current_usage, self.stats.capacity));
        util.append("%");
        pairs.push(("utilization_rate", util));
        pairs.push(("total_allocations", decimal_string(self.stats.total_allocations)));
        pairs.push(("total_deallocations", decimal_string(self.stats.total_deallocations)));
        pairs.push(("allocation_failures", decimal_string(self.stats.allocation_failures)));
        let mut hit = decimal_string(self.hit_percent());
        hit.append("%");
        pairs.push(("hit_rate", hit));
        pairs.push(("growth_count", decimal_string(self.stats.growth_count)));
        pairs
    }
}

} // verus!
