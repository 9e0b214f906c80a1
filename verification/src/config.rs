//! Configuration types for memory pools.

mod builder;
mod growth_strategy;
mod initialization;

pub use builder::PoolConfigBuilder;
pub use growth_strategy::spec_growth;
pub use growth_strategy::GrowthStrategy;
pub use initialization::InitializationStrategy;

use vstd::prelude::*;

verus! {

use crate::utils::spec_is_power_of_two;

/// Configuration for a memory pool.
///
/// Use `PoolConfig::builder()` to construct a configuration with
/// validation.
pub struct PoolConfig<T> {
    /// Initial capacity of the pool
    pub(crate) capacity: usize,
    /// Maximum capacity (None for unlimited)
    pub(crate) max_capacity: Option<usize>,
    /// Strategy for growing the pool
    pub(crate) growth_strategy: GrowthStrategy,
    /// Memory alignment (must be a power of two)
    pub(crate) alignment: usize,
    /// Whether to pre-initialize all objects
    pub(crate) pre_initialize: bool,
    /// Initialization strategy
    pub(crate) initialization_strategy: InitializationStrategy<T>,
    /// Whether this is a thread-local pool
    pub(crate) thread_local: bool,
}

impl<T> PoolConfig<T> {
    /// The configured initial capacity.
    pub closed spec fn capacity_spec(&self) -> usize {
        self.capacity
    }

    /// The configured maximum capacity, if any.
    pub closed spec fn max_capacity_spec(&self) -> Option<usize> {
        self.max_capacity
    }

    /// The configured growth strategy.
    pub closed spec fn growth_spec(&self) -> GrowthStrategy {
        self.growth_strategy
    }

    /// The configured alignment.
    pub closed spec fn alignment_spec(&self) -> usize {
        self.alignment
    }

    /// Whether objects are pre-initialized.
    pub closed spec fn pre_initialize_spec(&self) -> bool {
        self.pre_initialize
    }

    /// The configured initialization strategy.
    pub closed spec fn init_spec(&self) -> InitializationStrategy<T> {
        self.initialization_strategy
    }

    /// Whether this configuration is for a thread-local pool.
    pub closed spec fn thread_local_spec(&self) -> bool {
        self.thread_local
    }

    /// A configuration a pool can be built from: at least one slot, a
    /// power-of-two alignment, and a maximum no smaller than the start.
    pub open spec fn valid(&self) -> bool {
        &&& self.capacity_spec() >= 1
        &&& spec_is_power_of_two(self.alignment_spec() as nat)
        &&& (self.max_capacity_spec() matches Some(m) ==> m >= self.capacity_spec())
    }

    /// Creates a new builder for constructing a pool configuration.
    pub fn builder() -> (r: PoolConfigBuilder<T>)
        ensures
            r.capacity_opt() is None,
            r.max_capacity_opt() is None,
            r.growth_spec() is Fixed,
            r.alignment_spec() as nat == vstd::layout::align_of::<T>(),
            spec_is_power_of_two(r.alignment_spec() as nat),
            r.pre_initialize_spec() == false,
            r.init_spec() is Lazy,
            r.thread_local_spec() == false,
    {
        PoolConfigBuilder::new()
    }

    /// Returns the initial capacity.
    pub fn capacity(&self) -> (r: usize)
        ensures
            r == self.capacity_spec(),
    {
        self.capacity
    }

    /// Returns the maximum capacity, if set.
    pub fn max_capacity(&self) -> (r: Option<usize>)
        ensures
            r == self.max_capacity_spec(),
    {
        self.max_capacity
    }

    /// Returns the growth strategy.
    pub fn growth_strategy(&self) -> (r: &GrowthStrategy)
        ensures
            *r == self.growth_spec(),
    {
        &self.growth_strategy
    }

    /// Returns the alignment requirement.
    pub fn alignment(&self) -> (r: usize)
        ensures
            r == self.alignment_spec(),
    {
        self.alignment
    }

    /// Returns whether objects should be pre-initialized.
    pub fn pre_initialize(&self) -> (r: bool)
        ensures
            r == self.pre_initialize_spec(),
    {
        self.pre_initialize
    }

    /// Returns whether this is a thread-local pool configuration.
    pub fn thread_local(&self) -> (r: bool)
        ensures
            r == self.thread_local_spec(),
    {
        self.thread_local
    }
}

impl<T> Default for PoolConfig<T> {
    /// The default configuration: one hundred slots, no growth, the
    /// element's natural alignment, lazy initialization.
    fn default() -> (r: Self)
        ensures
            r.capacity_spec() == 100,
            r.max_capacity_spec() is None,
            r.growth_spec() is Fixed,
            r.alignment_spec() as nat == vstd::layout::align_of::<T>(),
            r.pre_initialize_spec() == false,
            r.init_spec() is Lazy,
            r.thread_local_spec() == false,
            r.valid(),
    {
        vstd::layout::layout_for_type_is_valid::<T>();
        proof {
            crate::utils::lemma_is_power_of_two_equiv(vstd::layout::align_of::<T>());
        }
        Self {
            capacity: 100,
            max_capacity: None,
            growth_strategy: GrowthStrategy::Fixed,
            alignment: core::mem::align_of::<T>(),
            pre_initialize: false,
            initialization_strategy: InitializationStrategy::Lazy,
            thread_local: false,
        }
    }
}

} // verus!
