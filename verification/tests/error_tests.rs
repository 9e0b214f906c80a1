//! Tests for the error type and its diagnostic messages.

use fastalloc::Error;

#[test]
fn error_display() {
    let err = Error::PoolExhausted { capacity: 100, allocated: 100 };
    assert!(err.message().contains("exhausted"));

    let err = Error::InvalidConfiguration { message: "capacity must be positive" };
    assert!(err.message().contains("capacity must be positive"));

    let err = Error::InvalidAlignment { alignment: 7 };
    assert!(err.message().contains("power of two"));
}

#[test]
fn error_helpers() {
    let err = Error::invalid_config("test");
    assert!(matches!(err, Error::InvalidConfiguration { .. }));

    let err = Error::custom("custom message");
    assert!(matches!(err, Error::Custom { .. }));
}

#[test]
fn error_message_exhausted_counts() {
    let err = Error::PoolExhausted { capacity: 3, allocated: 3 };
    assert_eq!(
        err.message(),
        "Pool exhausted: allocated 3/3 objects. Consider using a growing pool or increasing capacity."
    );
}

#[test]
fn error_message_max_capacity() {
    let err = Error::MaxCapacityExceeded { current: 8, requested: 16, max: 8 };
    assert_eq!(err.message(), "Maximum capacity exceeded: current=8, requested=16, max=8");
}

#[test]
fn error_message_alignment() {
    let err = Error::InvalidAlignment { alignment: 12 };
    assert_eq!(err.message(), "Invalid alignment: 12. Alignment must be a power of two.");
}

#[test]
fn error_message_other_variants() {
    assert_eq!(Error::UninitializedPool.message(), "Attempted to use an uninitialized pool");
    assert_eq!(Error::InvalidHandle.message(), "Invalid or expired handle");
    assert_eq!(
        Error::DoubleFree.message(),
        "Attempted to free an already freed object (double-free)"
    );
    assert_eq!(Error::AllocationFailed.message(), "System memory allocation failed");
    assert_eq!(Error::custom("oops").message(), "Error: oops");
}
