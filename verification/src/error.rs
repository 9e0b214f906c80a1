//! Error values surfaced by pool constructors and allocation operations.

use vstd::prelude::*;

verus! {

use crate::decimal::{decimal_string, spec_decimal};
use vstd::string::StringExecFns;

/// Result type alias using the pool error type.
pub type PoolResult<T> = Result<T, Error>;

/// Errors that can occur when working with memory pools.
///
/// Every failure carries enough context (capacities, counts, the requested
/// growth) for diagnostics without asking the pool again.
#[derive(Debug, Clone)]
pub enum Error {
    /// The pool has reached its capacity and cannot allocate more objects.
    PoolExhausted {
        /// Current capacity of the pool
        capacity: usize,
        /// Number of objects currently allocated
        allocated: usize,
    },
    /// Invalid configuration was provided when building a pool.
    InvalidConfiguration {
        /// Description of what was invalid
        message: &'static str,
    },
    /// Attempted to perform an operation on an uninitialized pool.
    UninitializedPool,
    /// An alignment value was invalid (must be a power of two).
    InvalidAlignment {
        /// The invalid alignment value
        alignment: usize,
    },
    /// Maximum capacity would be exceeded by the requested growth.
    MaxCapacityExceeded {
        /// Current capacity
        current: usize,
        /// Requested capacity
        requested: usize,
        /// Maximum allowed capacity
        max: usize,
    },
    /// A handle reference was invalid or expired.
    InvalidHandle,
    /// Attempted to free an object that was already freed (double-free).
    DoubleFree,
    /// Memory allocation from the system allocator failed.
    AllocationFailed,
    /// Custom error with a message (for extensibility).
    Custom {
        /// Error message
        message: &'static str,
    },
}

/// The diagnostic text of an error, character for character.
pub open spec fn spec_error_message(e: Error) -> Seq<char> {
    match e {
        Error::PoolExhausted { capacity, allocated } => "Pool exhausted: allocated "@
            + spec_decimal(allocated as int) + "/"@ + spec_decimal(capacity as int)
            + " objects. Consider using a growing pool or increasing capacity."@,
        Error::InvalidConfiguration { message } => "Invalid pool configuration: "@ + message@,
        Error::UninitializedPool => "Attempted to use an uninitialized pool"@,
        Error::InvalidAlignment { alignment } => "Invalid alignment: "@ + spec_decimal(
            alignment as int,
        ) + ". Alignment must be a power of two."@,
        Error::MaxCapacityExceeded { current, requested, max } => {
            "Maximum capacity exceeded: current="@ + spec_decimal(current as int) + ", requested="@
                + spec_decimal(requested as int) + ", max="@ + spec_decimal(max as int)
        },
        Error::InvalidHandle => "Invalid or expired handle"@,
        Error::DoubleFree => "Attempted to free an already freed object (double-free)"@,
        Error::AllocationFailed => "System memory allocation failed"@,
        Error::Custom { message } => "Error: "@ + message@,
    }
}

impl Error {
    /// The diagnostic text of the error.
    pub fn message(&self) -> (r: String)
        ensures
            r@ == spec_error_message(*self),
    {
        match self {
            Error::PoolExhausted { capacity, allocated } => {
                let mut s = String::from_str("Pool exhausted: allocated ");
                s.append(decimal_string(*allocated).as_str());
                s.append("/");
                s.append(decimal_string(*capacity).as_str());
                s.append(" objects. Consider using a growing pool or increasing capacity.");
                s
            },
            Error::InvalidConfiguration { message } => {
                let mut s = String::from_str("Invalid pool configuration: ");
                s.append(message);
                s
            },
            Error::UninitializedPool => String::from_str(
                "Attempted to use an uninitialized pool",
            ),
            Error::InvalidAlignment { alignment } => {
                let mut s = String::from_str("Invalid alignment: ");
                s.append(decimal_string(*alignment).as_str());
                s.append(". Alignment must be a power of two.");
                s
            },
            Error::MaxCapacityExceeded { current, requested, max } => {
                let mut s = String::from_str("Maximum capacity exceeded: current=");
                s.append(decimal_string(*current).as_str());
                s.append(", requested=");
                s.append(decimal_string(*requested).as_str());
                s.append(", max=");
                s.append(decimal_string(*max).as_str());
                s
            },
            Error::InvalidHandle => String::from_str("Invalid or expired handle"),
            Error::DoubleFree => String::from_str(
                "Attempted to free an already freed object (double-free)",
            ),
            Error::AllocationFailed => String::from_str("System memory allocation failed"),
            Error::Custom { message } => {
                let mut s = String::from_str("Error: ");
                s.append(message);
                s
            },
        }
    }

    /// Creates a new invalid configuration error.
    pub fn invalid_config(message: &'static str) -> (r: Error)
        ensures
            r == (Error::InvalidConfiguration { message }),
    {
        Error::InvalidConfiguration { message }
    }

    /// Creates a new custom error.
    pub fn custom(message: &'static str) -> (r: Error)
        ensures
            r == (Error::Custom { message }),
    {
        Error::Custom { message }
    }
}

} // verus!
