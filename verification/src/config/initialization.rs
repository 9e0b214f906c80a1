//! Initialization strategies for pool objects.

use vstd::prelude::*;

verus! {

use vstd::pervasive::cloned;

/// Strategy for initializing objects in a memory pool.
///
/// The eager and custom strategies carry a prototype value; initializing
/// hands out clones of it. The custom strategy may also carry a reset
/// prototype that objects are restored to when returned to the pool.
#[derive(Debug)]
pub enum InitializationStrategy<T> {
    /// Initialize objects only when first allocated (lazy).
    Lazy,
    /// Initialize all objects eagerly when the pool is created.
    Eager {
        /// Prototype for initial values
        initializer: T,
    },
    /// Custom initialization with an optional reset prototype.
    Custom {
        /// Prototype for initial values
        initializer: T,
        /// Prototype that objects are reset to on return, if any
        reset: Option<T>,
    },
}

impl<T> InitializationStrategy<T> {
    /// Creates an eager initialization strategy with the given prototype.
    pub fn eager(initializer: T) -> (r: Self)
        ensures
            r == (InitializationStrategy::Eager { initializer }),
    {
        Self::Eager { initializer }
    }

    /// Creates a custom initialization strategy with both an initial and
    /// a reset prototype.
    pub fn custom(initializer: T, reset: T) -> (r: Self)
        ensures
            r == (InitializationStrategy::Custom { initializer, reset: Some(reset) }),
    {
        Self::Custom { initializer, reset: Some(reset) }
    }

    /// Creates a custom initialization strategy with only an initial
    /// prototype.
    pub fn custom_init_only(initializer: T) -> (r: Self)
        ensures
            r == (InitializationStrategy::Custom { initializer, reset: None }),
    {
        Self::Custom { initializer, reset: None }
    }

    /// Returns whether this strategy is lazy.
    pub fn is_lazy(&self) -> (r: bool)
        ensures
            r == (*self is Lazy),
    {
        matches!(self, InitializationStrategy::Lazy)
    }

    /// Returns whether this strategy is eager.
    pub fn is_eager(&self) -> (r: bool)
        ensures
            r == (*self is Eager),
    {
        matches!(self, InitializationStrategy::Eager { .. })
    }
}

impl<T: Clone> InitializationStrategy<T> {
    /// Creates an initial value if an initial prototype is available.
    pub fn initialize(&self) -> (r: Option<T>)
        ensures
            *self is Lazy <==> r is None,
            *self matches InitializationStrategy::Eager { initializer } ==> (r matches Some(v)
                && cloned::<T>(initializer, v)),
            *self matches InitializationStrategy::Custom { initializer, .. } ==> (r matches Some(v)
                && cloned::<T>(initializer, v)),
    {
        match self {
            InitializationStrategy::Lazy => None,
            InitializationStrategy::Eager { initializer } => Some(initializer.clone()),
            InitializationStrategy::Custom { initializer, .. } => Some(initializer.clone()),
        }
    }

    /// Resets an object to the reset prototype, if one is available.
    pub fn reset(&self, value: &mut T)
        ensures
            *self matches InitializationStrategy::Custom { reset: Some(proto), .. } ==> cloned::<
                T,
            >(proto, *final(value)),
            !(*self matches InitializationStrategy::Custom { reset: Some(_), .. }) ==> *final(value)
                == *old(value),
    {
        if let InitializationStrategy::Custom { reset: Some(proto), .. } = self {
            *value = proto.clone();
        }
    }
}

impl<T> Default for InitializationStrategy<T> {
    /// The default strategy is lazy.
    fn default() -> (r: Self)
        ensures
            r is Lazy,
    {
        Self::Lazy
    }
}

} // verus!
