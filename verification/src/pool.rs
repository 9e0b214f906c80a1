//! Memory pool implementations.

mod fixed;
mod growing;
mod thread_local;

pub use fixed::FixedPool;
pub use growing::GrowingPool;
pub use thread_local::ThreadLocalPool;
