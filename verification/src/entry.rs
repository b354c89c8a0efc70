//! One record of the store, and its mathematical counterpart.

use vstd::prelude::*;

verus! {

/// Ticks of the store's clock in one second: timestamps are milliseconds.
pub const TICKS_PER_SECOND: u64 = 1000;

/// A stored record as contracts see it.
pub struct Entry {
    /// The identifier, unique within a store.
    pub key: Seq<char>,
    /// The opaque payload.
    pub value: Seq<char>,
    /// When the record was written.
    pub created_at: int,
    /// The first instant at which the record no longer counts.
    pub expires_at: int,
}

impl Entry {
    /// A record is live strictly before its expiry.
    pub open spec fn live_at(self, now: int) -> bool {
        now < self.expires_at
    }

    /// A record expires after it is created.
    pub open spec fn valid(self) -> bool {
        self.created_at < self.expires_at
    }
}

/// A stored record: key, payload, and the two absolute timestamps, in ticks
/// of the store's clock. A record carries no recency marker of its own: its
/// place in the store's sequence, least recently used first, is the marker.
#[derive(Debug, Clone)]
pub struct CacheEntry {
    pub key: String,
    pub value: String,
    pub created_at: u64,
    pub expires_at: u64,
}

impl View for CacheEntry {
    type V = Entry;

    open spec fn view(&self) -> Entry {
        Entry {
            key: self.key@,
            value: self.value@,
            created_at: self.created_at as int,
            expires_at: self.expires_at as int,
        }
    }
}

impl CacheEntry {
    /// Whether the record still counts at `now`.
    pub fn is_live(&self, now: u64) -> (live: bool)
        ensures
            live == self@.live_at(now as int),
    {
        now < self.expires_at
    }
}

/// The records of a vector, each taken by its view.
pub open spec fn records(v: Seq<CacheEntry>) -> Seq<Entry> {
    Seq::new(v.len(), |i: int| v[i]@)
}

} // verus!
