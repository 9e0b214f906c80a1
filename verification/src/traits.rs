//! Traits for working with memory pools.

use vstd::prelude::*;

verus! {

/// A trait for types that can be used with memory pools.
///
/// The hooks run when an object enters a slot (just after the value is
/// installed) and when it is about to be destroyed on release. The two
/// spec functions say what each hook does to the value, so a pool's
/// contract can state exactly what a freshly allocated slot holds.
pub trait Poolable: Sized {
    /// The value as it stands after the acquire hook has run on it.
    spec fn acquire_spec(self) -> Self;

    /// The value as it stands after the release hook has run on it.
    spec fn release_spec(self) -> Self;

    /// Called when an object is acquired from the pool.
    ///
    /// This is a good place to reset the object to a clean state.
    fn on_acquire(&mut self)
        ensures
            *final(self) == (*old(self)).acquire_spec(),
    ;

    /// Called when an object is being returned to the pool.
    ///
    /// This is a good place to perform cleanup or release resources.
    fn on_release(&mut self)
        ensures
            *final(self) == (*old(self)).release_spec(),
    ;
}

} // verus!
