//! Failure modes of the cache store.

use vstd::prelude::*;

verus! {

/// Why a store could not be constructed.
#[derive(Debug, Clone, Copy, PartialEq, Eq)]
pub enum ConstructionError {
    /// The capacity bound was zero.
    ZeroCapacity,
    /// The default time-to-live was zero.
    ZeroTtl,
}

/// Why a cache operation was rejected.
#[derive(Debug, Clone, PartialEq, Eq)]
pub enum CacheError {
    /// Eviction could not free a slot for a new key.
    CapacityExceeded,
    /// The time-to-live of a write was zero or too large to represent.
    InvalidTTL(String),
    /// The store met a fault of its own.
    Internal(String),
}

/// The text carried by `ConstructionError::ZeroCapacity`.
pub open spec fn zero_capacity_text() -> Seq<char> {
    "max_size must be greater than 0"@
}

/// The text carried by `ConstructionError::ZeroTtl`.
pub open spec fn zero_ttl_text() -> Seq<char> {
    "ttl_secs must be greater than 0"@
}

impl ConstructionError {
    /// The message of this error, as a mathematical string.
    pub open spec fn text(self) -> Seq<char> {
        match self {
            ConstructionError::ZeroCapacity => zero_capacity_text(),
            ConstructionError::ZeroTtl => zero_ttl_text(),
        }
    }

    /// A human-readable description of the rejected argument.
    pub fn message(&self) -> (m: String)
        ensures
            m@ == self.text(),
    {
        match self {
            ConstructionError::ZeroCapacity => "max_size must be greater than 0".to_owned(),
            ConstructionError::ZeroTtl => "ttl_secs must be greater than 0".to_owned(),
        }
    }
}

} // verus!
