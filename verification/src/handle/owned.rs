//! Owned handle that exclusively owns a pool-allocated slot.

use vstd::prelude::*;

verus! {

/// An owned handle to a pool-allocated object.
///
/// The handle carries the claimed slot index and cannot be copied, so at
/// most one owned handle exists per live slot. Reading and writing the
/// element, and returning the slot, go through the pool that issued the
/// handle; returning the slot consumes the handle.
#[derive(Debug)]
pub struct OwnedHandle {
    index: usize,
}

impl OwnedHandle {
    /// The slot index this handle owns.
    pub closed spec fn index_spec(&self) -> usize {
        self.index
    }

    /// Creates a new owned handle; only pools do this, when a slot is
    /// claimed.
    pub(crate) fn new(index: usize) -> (r: OwnedHandle)
        ensures
            r.index_spec() == index,
    {
        OwnedHandle { index }
    }

    /// Returns the internal index of this handle.
    ///
    /// This is useful for debugging but should not be relied upon for
    /// application logic.
    pub fn index(&self) -> (r: usize)
        ensures
            r == self.index_spec(),
    {
        self.index
    }
}

} // verus!
