//! Thread-local memory pool implementation.

use vstd::prelude::*;

verus! {

use crate::config::PoolConfig;
use crate::error::{Error, PoolResult};
use crate::handle::OwnedHandle;
use crate::pool::FixedPool;
use crate::traits::Poolable;

/// A pool meant to live on a single thread.
///
/// It wraps a fixed pool one-to-one; keeping one such pool per thread
/// avoids all synchronization. The pool itself is plain data: keeping it
/// on the thread that made it is its owner's discipline.
pub struct ThreadLocalPool<T> {
    pool: FixedPool<T>,
}

impl<T> ThreadLocalPool<T> {
    /// The total number of slots.
    pub open spec fn capacity_spec(&self) -> usize {
        self.inner().capacity_spec()
    }

    /// The wrapped fixed pool.
    pub closed spec fn inner(&self) -> FixedPool<T> {
        self.pool
    }

    /// Internal consistency of the wrapped pool.
    pub open spec fn wf(&self) -> bool {
        self.inner().wf()
    }

    /// The number of free slots.
    pub open spec fn available_spec(&self) -> nat {
        self.inner().available_spec()
    }

    /// The number of live slots.
    pub open spec fn allocated_spec(&self) -> nat {
        self.inner().allocated_spec()
    }
}

impl<T: Poolable> ThreadLocalPool<T> {
    /// Creates a new thread-local pool with the specified capacity.
    ///
    /// Fails exactly when the capacity is zero.
    pub fn new(capacity: usize) -> (r: PoolResult<ThreadLocalPool<T>>)
        ensures
            r is Ok <==> capacity >= 1,
            r matches Ok(p) ==> p.wf() && p.capacity_spec() == capacity && p.available_spec()
                == capacity,
            r matches Err(e) ==> e == (Error::InvalidConfiguration {
                message: "capacity must be at least 1",
            }),
    {
        match FixedPool::new(capacity) {
            Ok(pool) => Ok(ThreadLocalPool { pool }),
            Err(e) => Err(e),
        }
    }

    /// Creates a new thread-local pool with the specified configuration.
    pub fn with_config(config: PoolConfig<T>) -> (r: PoolResult<ThreadLocalPool<T>>)
        requires
            config.valid(),
        ensures
            r is Ok,
            r matches Ok(p) ==> p.wf() && p.capacity_spec() == config.capacity_spec()
                && p.available_spec() == config.capacity_spec(),
    {
        match FixedPool::with_config(config) {
            Ok(pool) => Ok(ThreadLocalPool { pool }),
            Err(e) => Err(e),
        }
    }

    /// Allocates an object from the thread-local pool.
    ///
    /// Succeeds exactly when a slot is free; see the fixed pool.
    pub fn allocate(&mut self, value: T) -> (r: PoolResult<OwnedHandle>)
        requires
            old(self).wf(),
        ensures
            final(self).wf(),
            final(self).capacity_spec() == old(self).capacity_spec(),
            r is Ok <==> old(self).available_spec() > 0,
            r matches Ok(h) ==> {
                &&& final(self).inner().is_live(h.index_spec() as int)
                &&& final(self).inner().slot_spec(h.index_spec() as int) == Some(
                    value.acquire_spec(),
                )
                &&& final(self).available_spec() == old(self).available_spec() - 1
            },
            r matches Err(e) ==> e == (Error::PoolExhausted {
                capacity: old(self).capacity_spec(),
                allocated: old(self).capacity_spec(),
            }),
    {
        self.pool.allocate(value)
    }

    /// Reads the element an owned handle refers to.
    pub fn get(&self, handle: &OwnedHandle) -> (r: &T)
        requires
            self.wf(),
            self.inner().is_live(handle.index_spec() as int),
        ensures
            self.inner().slot_spec(handle.index_spec() as int) == Some(*r),
    {
        self.pool.get(handle)
    }

    /// Returns an owned slot to the pool.
    pub fn return_to_pool(&mut self, handle: OwnedHandle)
        requires
            old(self).wf(),
            old(self).inner().is_live(handle.index_spec() as int),
            old(self).inner().strong_at(handle.index_spec() as int) == 0,
        ensures
            final(self).wf(),
            final(self).capacity_spec() == old(self).capacity_spec(),
            final(self).available_spec() == old(self).available_spec() + 1,
            !final(self).inner().is_live(handle.index_spec() as int),
    {
        self.pool.return_to_pool(handle)
    }

    /// Returns the total capacity of the pool.
    pub fn capacity(&self) -> (r: usize)
        ensures
            r == self.capacity_spec(),
    {
        self.pool.capacity()
    }

    /// Returns the number of available (free) slots in the pool.
    pub fn available(&self) -> (r: usize)
        requires
            self.wf(),
        ensures
            r == self.available_spec(),
    {
        self.pool.available()
    }

    /// Returns the number of currently allocated objects.
    pub fn allocated(&self) -> (r: usize)
        requires
            self.wf(),
        ensures
            r == self.allocated_spec(),
    {
        self.pool.allocated()
    }

    /// Returns whether the pool is full.
    pub fn is_full(&self) -> (r: bool)
        requires
            self.wf(),
        ensures
            r == (self.available_spec() == 0),
    {
        self.pool.is_full()
    }

    /// Returns whether the pool is empty.
    pub fn is_empty(&self) -> (r: bool)
        requires
            self.wf(),
        ensures
            r == (self.available_spec() == self.capacity_spec()),
    {
        self.pool.is_empty()
    }
}

} // verus!
