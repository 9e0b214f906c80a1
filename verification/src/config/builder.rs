//! Builder for pool configuration.

use vstd::prelude::*;

verus! {

use crate::config::{GrowthStrategy, InitializationStrategy, PoolConfig};
use crate::error::{Error, PoolResult};
use crate::utils::{spec_is_power_of_two, validate_alignment};

/// Builder for constructing a `PoolConfig` with validation.
pub struct PoolConfigBuilder<T> {
    capacity: Option<usize>,
    max_capacity: Option<usize>,
    growth_strategy: GrowthStrategy,
    alignment: usize,
    pre_initialize: bool,
    initialization_strategy: InitializationStrategy<T>,
    thread_local: bool,
}

impl<T> PoolConfigBuilder<T> {
    /// The capacity set so far, if any.
    pub closed spec fn capacity_opt(&self) -> Option<usize> {
        self.capacity
    }

    /// The maximum capacity set so far, if any.
    pub closed spec fn max_capacity_opt(&self) -> Option<usize> {
        self.max_capacity
    }

    /// The growth strategy set so far.
    pub closed spec fn growth_spec(&self) -> GrowthStrategy {
        self.growth_strategy
    }

    /// The alignment set so far.
    pub closed spec fn alignment_spec(&self) -> usize {
        self.alignment
    }

    /// Whether pre-initialization was requested.
    pub closed spec fn pre_initialize_spec(&self) -> bool {
        self.pre_initialize
    }

    /// The initialization strategy set so far.
    pub closed spec fn init_spec(&self) -> InitializationStrategy<T> {
        self.initialization_strategy
    }

    /// Whether a thread-local pool was requested.
    pub closed spec fn thread_local_spec(&self) -> bool {
        self.thread_local
    }

    /// Whether the settings gathered so far pass validation.
    pub open spec fn spec_valid(&self) -> bool {
        &&& self.capacity_opt() matches Some(c) && c >= 1 && (self.max_capacity_opt() matches Some(
            m,
        ) ==> m >= c)
        &&& spec_is_power_of_two(self.alignment_spec() as nat)
    }

    /// Creates a new builder with default values.
    pub fn new() -> (r: Self)
        ensures
            r.capacity_opt() is None,
            r.max_capacity_opt() is None,
            r.growth_spec() is Fixed,
            r.alignment_spec() as nat == vstd::layout::align_of::<T>(),
            spec_is_power_of_two(r.alignment_spec() as nat),
            r.pre_initialize_spec() == false,
            r.init_spec() is Lazy,
            r.thread_local_spec() == false,
    {
        vstd::layout::layout_for_type_is_valid::<T>();
        proof {
            crate::utils::lemma_is_power_of_two_equiv(vstd::layout::align_of::<T>());
        }
        Self {
            capacity: None,
            max_capacity: None,
            growth_strategy: GrowthStrategy::Fixed,
            alignment: core::mem::align_of::<T>(),
            pre_initialize: false,
            initialization_strategy: InitializationStrategy::Lazy,
            thread_local: false,
        }
    }

    /// Sets the initial capacity of the pool.
    ///
    /// This is a required setting and must be at least 1.
    pub fn capacity(self, capacity: usize) -> (r: Self)
        ensures
            r.capacity_opt() == Some(capacity),
            r.max_capacity_opt() == self.max_capacity_opt(),
            r.growth_spec() == self.growth_spec(),
            r.alignment_spec() == self.alignment_spec(),
            r.pre_initialize_spec() == self.pre_initialize_spec(),
            r.init_spec() == self.init_spec(),
            r.thread_local_spec() == self.thread_local_spec(),
    {
        Self { capacity: Some(capacity), ..self }
    }

    /// Sets the maximum capacity of the pool.
    ///
    /// If set, the pool will not grow beyond this size. If `None`, the
    /// pool can grow indefinitely (subject to memory availability).
    pub fn max_capacity(self, max_capacity: Option<usize>) -> (r: Self)
        ensures
            r.capacity_opt() == self.capacity_opt(),
            r.max_capacity_opt() == max_capacity,
            r.growth_spec() == self.growth_spec(),
            r.alignment_spec() == self.alignment_spec(),
            r.pre_initialize_spec() == self.pre_initialize_spec(),
            r.init_spec() == self.init_spec(),
            r.thread_local_spec() == self.thread_local_spec(),
    {
        Self { max_capacity, ..self }
    }

    /// Sets the growth strategy for the pool.
    pub fn growth_strategy(self, strategy: GrowthStrategy) -> (r: Self)
        ensures
            r.capacity_opt() == self.capacity_opt(),
            r.max_capacity_opt() == self.max_capacity_opt(),
            r.growth_spec() == strategy,
            r.alignment_spec() == self.alignment_spec(),
            r.pre_initialize_spec() == self.pre_initialize_spec(),
            r.init_spec() == self.init_spec(),
            r.thread_local_spec() == self.thread_local_spec(),
    {
        Self { growth_strategy: strategy, ..self }
    }

    /// Sets the memory alignment for pool objects.
    ///
    /// Must be a power of two. Defaults to the natural alignment of `T`.
    pub fn alignment(self, alignment: usize) -> (r: Self)
        ensures
            r.capacity_opt() == self.capacity_opt(),
            r.max_capacity_opt() == self.max_capacity_opt(),
            r.growth_spec() == self.growth_spec(),
            r.alignment_spec() == alignment,
            r.pre_initialize_spec() == self.pre_initialize_spec(),
            r.init_spec() == self.init_spec(),
            r.thread_local_spec() == self.thread_local_spec(),
    {
        Self { alignment, ..self }
    }

    /// Sets whether objects should be pre-initialized when the pool is
    /// created.
    pub fn pre_initialize(self, pre_initialize: bool) -> (r: Self)
        ensures
            r.capacity_opt() == self.capacity_opt(),
            r.max_capacity_opt() == self.max_capacity_opt(),
            r.growth_spec() == self.growth_spec(),
            r.alignment_spec() == self.alignment_spec(),
            r.pre_initialize_spec() == pre_initialize,
            r.init_spec() == self.init_spec(),
            r.thread_local_spec() == self.thread_local_spec(),
    {
        Self { pre_initialize, ..self }
    }

    /// Sets the prototype that newly created objects are cloned from.
    pub fn initializer(self, initializer: T) -> (r: Self)
        ensures
            r.capacity_opt() == self.capacity_opt(),
            r.max_capacity_opt() == self.max_capacity_opt(),
            r.growth_spec() == self.growth_spec(),
            r.alignment_spec() == self.alignment_spec(),
            r.pre_initialize_spec() == self.pre_initialize_spec(),
            r.init_spec() == (InitializationStrategy::Eager { initializer }),
            r.thread_local_spec() == self.thread_local_spec(),
    {
        Self { initialization_strategy: InitializationStrategy::eager(initializer), ..self }
    }

    /// Sets the prototypes that objects are created from and reset to
    /// when returned to the pool.
    pub fn reset_fn(self, initializer: T, reset: T) -> (r: Self)
        ensures
            r.capacity_opt() == self.capacity_opt(),
            r.max_capacity_opt() == self.max_capacity_opt(),
            r.growth_spec() == self.growth_spec(),
            r.alignment_spec() == self.alignment_spec(),
            r.pre_initialize_spec() == self.pre_initialize_spec(),
            r.init_spec() == (InitializationStrategy::Custom { initializer, reset: Some(reset) }),
            r.thread_local_spec() == self.thread_local_spec(),
    {
        Self { initialization_strategy: InitializationStrategy::custom(initializer, reset), ..self }
    }

    /// Sets the initialization strategy directly.
    pub fn initialization_strategy(self, strategy: InitializationStrategy<T>) -> (r: Self)
        ensures
            r.capacity_opt() == self.capacity_opt(),
            r.max_capacity_opt() == self.max_capacity_opt(),
            r.growth_spec() == self.growth_spec(),
            r.alignment_spec() == self.alignment_spec(),
            r.pre_initialize_spec() == self.pre_initialize_spec(),
            r.init_spec() == strategy,
            r.thread_local_spec() == self.thread_local_spec(),
    {
        Self { initialization_strategy: strategy, ..self }
    }

    /// Sets whether this should be a thread-local pool.
    ///
    /// Thread-local pools avoid synchronization overhead but can only be
    /// used from the thread that created them.
    pub fn thread_local(self, thread_local: bool) -> (r: Self)
        ensures
            r.capacity_opt() == self.capacity_opt(),
            r.max_capacity_opt() == self.max_capacity_opt(),
            r.growth_spec() == self.growth_spec(),
            r.alignment_spec() == self.alignment_spec(),
            r.pre_initialize_spec() == self.pre_initialize_spec(),
            r.init_spec() == self.init_spec(),
            r.thread_local_spec() == thread_local,
    {
        Self { thread_local, ..self }
    }

    /// Builds the configuration, validating all parameters.
    ///
    /// Fails exactly when the capacity is unset or zero, the maximum is
    /// below the capacity, or the alignment is not a power of two; each
    /// failure names its own error.
    pub fn build(self) -> (r: PoolResult<PoolConfig<T>>)
        ensures
            r is Ok <==> self.spec_valid(),
            r matches Ok(cfg) ==> {
                &&& self.capacity_opt() matches Some(c) && cfg.capacity_spec() == c
                &&& cfg.max_capacity_spec() == self.max_capacity_opt()
                &&& cfg.growth_spec() == self.growth_spec()
                &&& cfg.alignment_spec() == self.alignment_spec()
                &&& cfg.pre_initialize_spec() == self.pre_initialize_spec()
                &&& cfg.init_spec() == self.init_spec()
                &&& cfg.thread_local_spec() == self.thread_local_spec()
                &&& cfg.valid()
            },
            self.capacity_opt() is None ==> r == PoolResult::<PoolConfig<T>>::Err(
                Error::InvalidConfiguration { message: "capacity must be specified" },
            ),
            self.capacity_opt() == Some(0usize) ==> r == PoolResult::<PoolConfig<T>>::Err(
                Error::InvalidConfiguration { message: "capacity must be at least 1" },
            ),
            ({
                &&& self.capacity_opt() matches Some(c)
                &&& c >= 1
                &&& self.max_capacity_opt() matches Some(m)
                &&& m < c
            }) ==> r == PoolResult::<PoolConfig<T>>::Err(
                Error::InvalidConfiguration { message: "max_capacity must be >= capacity" },
            ),
            ({
                &&& self.capacity_opt() matches Some(c)
                &&& c >= 1
                &&& (self.max_capacity_opt() matches Some(m) ==> m >= c)
                &&& !spec_is_power_of_two(self.alignment_spec() as nat)
            }) ==> r == PoolResult::<PoolConfig<T>>::Err(
                Error::InvalidAlignment { alignment: self.alignment_spec() },
            ),
    {
        let capacity = match self.capacity {
            Some(c) => c,
            None => {
                return Err(Error::invalid_config("capacity must be specified"));
            },
        };
        if capacity == 0 {
            return Err(Error::invalid_config("capacity must be at least 1"));
        }
        if let Some(max) = self.max_capacity {
            if max < capacity {
                return Err(Error::invalid_config("max_capacity must be >= capacity"));
            }
        }
        match validate_alignment(self.alignment) {
            Ok(()) => {},
            Err(e) => {
                return Err(e);
            },
        }
        Ok(
            PoolConfig {
                capacity,
                max_capacity: self.max_capacity,
                growth_strategy: self.growth_strategy,
                alignment: self.alignment,
                pre_initialize: self.pre_initialize,
                initialization_strategy: self.initialization_strategy,
                thread_local: self.thread_local,
            },
        )
    }
}

impl<T> Default for PoolConfigBuilder<T> {
    /// The same settings as a fresh builder.
    fn default() -> (r: Self)
        ensures
            r.capacity_opt() is None,
            r.max_capacity_opt() is None,
            r.growth_spec() is Fixed,
            r.pre_initialize_spec() == false,
            r.init_spec() is Lazy,
            r.thread_local_spec() == false,
    {
        Self::new()
    }
}

} // verus!
