//! Smart handles for pool-allocated slots.

mod owned;
mod shared;
mod weak;

pub use owned::OwnedHandle;
pub use shared::SharedHandle;
pub use weak::WeakHandle;
