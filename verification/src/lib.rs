//! A typed object-pool allocator: pre-allocated, type-homogeneous storage
//! with constant-time claim and release of slots, smart handles that tie a
//! slot to its pool, and fixed as well as dynamically growing layouts.

pub mod allocator;
pub mod config;
pub mod decimal;
pub mod error;
pub mod handle;
pub mod pool;
pub mod stats;
pub mod traits;
pub mod utils;

pub use config::{GrowthStrategy, InitializationStrategy, PoolConfig, PoolConfigBuilder};
pub use error::{Error, PoolResult};
pub use handle::{OwnedHandle, SharedHandle, WeakHandle};
pub use pool::{FixedPool, GrowingPool, ThreadLocalPool};
pub use stats::{PoolStatistics, StatisticsCollector, StatisticsReporter};
pub use traits::Poolable;

use vstd::prelude::*;

verus! {

impl Poolable for i8 {
    open spec fn acquire_spec(self) -> Self {
        self
    }

    open spec fn release_spec(self) -> Self {
        self
    }

    fn on_acquire(&mut self) {
    }

    fn on_release(&mut self) {
    }
}

impl Poolable for i16 {
    open spec fn acquire_spec(self) -> Self {
        self
    }

    open spec fn release_spec(self) -> Self {
        self
    }

    fn on_acquire(&mut self) {
    }

    fn on_release(&mut self) {
    }
}

impl Poolable for i32 {
    open spec fn acquire_spec(self) -> Self {
        self
    }

    open spec fn release_spec(self) -> Self {
        self
    }

    fn on_acquire(&mut self) {
    }

    fn on_release(&mut self) {
    }
}

impl Poolable for i64 {
    open spec fn acquire_spec(self) -> Self {
        self
    }

    open spec fn release_spec(self) -> Self {
        self
    }

    fn on_acquire(&mut self) {
    }

    fn on_release(&mut self) {
    }
}

impl Poolable for i128 {
    open spec fn acquire_spec(self) -> Self {
        self
    }

    open spec fn release_spec(self) -> Self {
        self
    }

    fn on_acquire(&mut self) {
    }

    fn on_release(&mut self) {
    }
}

impl Poolable for isize {
    open spec fn acquire_spec(self) -> Self {
        self
    }

    open spec fn release_spec(self) -> Self {
        self
    }

    fn on_acquire(&mut self) {
    }

    fn on_release(&mut self) {
    }
}

impl Poolable for u8 {
    open spec fn acquire_spec(self) -> Self {
        self
    }

    open spec fn release_spec(self) -> Self {
        self
    }

    fn on_acquire(&mut self) {
    }

    fn on_release(&mut self) {
    }
}

impl Poolable for u16 {
    open spec fn acquire_spec(self) -> Self {
        self
    }

    open spec fn release_spec(self) -> Self {
        self
    }

    fn on_acquire(&mut self) {
    }

    fn on_release(&mut self) {
    }
}

impl Poolable for u32 {
    open spec fn acquire_spec(self) -> Self {
        self
    }

    open spec fn release_spec(self) -> Self {
        self
    }

    fn on_acquire(&mut self) {
    }

    fn on_release(&mut self) {
    }
}

impl Poolable for u64 {
    open spec fn acquire_spec(self) -> Self {
        self
    }

    open spec fn release_spec(self) -> Self {
        self
    }

    fn on_acquire(&mut self) {
    }

    fn on_release(&mut self) {
    }
}

impl Poolable for u128 {
    open spec fn acquire_spec(self) -> Self {
        self
    }

    open spec fn release_spec(self) -> Self {
        self
    }

    fn on_acquire(&mut self) {
    }

    fn on_release(&mut self) {
    }
}

impl Poolable for usize {
    open spec fn acquire_spec(self) -> Self {
        self
    }

    open spec fn release_spec(self) -> Self {
        self
    }

    fn on_acquire(&mut self) {
    }

    fn on_release(&mut self) {
    }
}

impl Poolable for bool {
    open spec fn acquire_spec(self) -> Self {
        self
    }

    open spec fn release_spec(self) -> Self {
        self
    }

    fn on_acquire(&mut self) {
    }

    fn on_release(&mut self) {
    }
}

impl Poolable for char {
    open spec fn acquire_spec(self) -> Self {
        self
    }

    open spec fn release_spec(self) -> Self {
        self
    }

    fn on_acquire(&mut self) {
    }

    fn on_release(&mut self) {
    }
}

impl Poolable for String {
    open spec fn acquire_spec(self) -> Self {
        self
    }

    open spec fn release_spec(self) -> Self {
        self
    }

    fn on_acquire(&mut self) {
    }

    fn on_release(&mut self) {
    }
}

impl<T: Poolable> Poolable for Vec<T> {
    open spec fn acquire_spec(self) -> Self {
        self
    }

    open spec fn release_spec(self) -> Self {
        self
    }

    fn on_acquire(&mut self) {
    }

    fn on_release(&mut self) {
    }
}

impl<T: Poolable> Poolable for Box<T> {
    open spec fn acquire_spec(self) -> Self {
        self
    }

    open spec fn release_spec(self) -> Self {
        self
    }

    fn on_acquire(&mut self) {
    }

    fn on_release(&mut self) {
    }
}

impl<T: Poolable> Poolable for Option<T> {
    open spec fn acquire_spec(self) -> Self {
        self
    }

    open spec fn release_spec(self) -> Self {
        self
    }

    fn on_acquire(&mut self) {
    }

    fn on_release(&mut self) {
    }
}

impl<T: Poolable, E> Poolable for Result<T, E> {
    open spec fn acquire_spec(self) -> Self {
        self
    }

    open spec fn release_spec(self) -> Self {
        self
    }

    fn on_acquire(&mut self) {
    }

    fn on_release(&mut self) {
    }
}

} // verus!
