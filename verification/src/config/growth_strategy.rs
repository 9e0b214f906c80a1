//! Growth strategies for dynamic memory pools.

use vstd::prelude::*;

verus! {

/// Strategy for growing a memory pool when it runs out of capacity.
///
/// The exponential rule carries its factor as a ratio of two integers,
/// so a factor of two is written with numerator 2 over denominator 1.
/// The rules are closed data with no function-valued variant: every
/// growth step is computable from the current capacity by one of these
/// forms, so the step a pool will take can be stated and proved.
#[derive(Debug, Clone)]
pub enum GrowthStrategy {
    /// No growth - pool has fixed capacity.
    Fixed,
    /// Grow by a fixed amount each time.
    Linear {
        /// Number of elements to add on each growth
        amount: usize,
    },
    /// Grow geometrically: the new capacity is the current capacity
    /// multiplied by `numerator / denominator`, rounded down.
    Exponential {
        /// Numerator of the growth factor
        numerator: usize,
        /// Denominator of the growth factor
        denominator: usize,
    },
}

/// The number of slots a growth step adds at the given capacity.
///
/// The exponential rule grows to `floor(current * numerator / denominator)`
/// saturated at the machine limit, but by at least one slot; a zero
/// denominator allows no growth at all.
pub open spec fn spec_growth(s: GrowthStrategy, current: int) -> int {
    match s {
        GrowthStrategy::Fixed => 0,
        GrowthStrategy::Linear { amount } => amount as int,
        GrowthStrategy::Exponential { numerator, denominator } => {
            if denominator == 0 {
                0
            } else {
                let grown = current * numerator / (denominator as int);
                let target = if grown > usize::MAX as int {
                    usize::MAX as int
                } else {
                    grown
                };
                if target - current < 1 {
                    1
                } else {
                    target - current
                }
            }
        },
    }
}

impl GrowthStrategy {
    /// Computes the growth amount for a given current capacity.
    pub fn compute_growth(&self, current_capacity: usize) -> (r: usize)
        ensures
            r == spec_growth(*self, current_capacity as int),
    {
        match self {
            GrowthStrategy::Fixed => 0,
            GrowthStrategy::Linear { amount } => *amount,
            GrowthStrategy::Exponential { numerator, denominator } => {
                if *denominator == 0 {
                    0
                } else {
                    proof {
                        assert((current_capacity as int) * (*numerator as int) <= u128::MAX
                            as int) by (nonlinear_arith)
                            requires
                                0 <= current_capacity <= u64::MAX,
                                0 <= *numerator <= u64::MAX,
                        ;
                    }
                    let grown_wide: u128 = (current_capacity as u128) * (*numerator as u128)
                        / (*denominator as u128);
                    let target: usize = if grown_wide > usize::MAX as u128 {
                        usize::MAX
                    } else {
                        grown_wide as usize
                    };
                    let delta: usize = if target > current_capacity {
                        target - current_capacity
                    } else {
                        0
                    };
                    if delta < 1 {
                        1
                    } else {
                        delta
                    }
                }
            },
        }
    }

    /// Returns whether this strategy allows growth.
    pub fn allows_growth(&self) -> (r: bool)
        ensures
            r == !(*self is Fixed),
    {
        !matches!(self, GrowthStrategy::Fixed)
    }
}

} // verus!
