//! The store in the calling convention of a foreign-language binding: every
//! operation returns a result, and every failure is an exception of one of
//! two kinds with a message.

use vstd::prelude::*;
use vstd::string::*;
use crate::clock::LAST_READING;
use crate::entry::Entry;
use crate::error::{CacheError, ConstructionError};
use crate::lru_ttl::LRUTTLCache;
use crate::model::{
    after_delete, contains_key, counted_at, live_count, read_at, swept_at, well_formed,
};
use crate::policy::{effective_ttl, ttl_complaint, ttl_in_range, written_at};
use crate::text::{decimal, decimal_string};

verus! {

/// The kind of exception that the calling layer raises.
#[derive(Debug, Clone, Copy, PartialEq, Eq)]
pub enum ExceptionKind {
    /// An argument was not acceptable.
    Value,
    /// The operation failed while it ran.
    Runtime,
}

/// A failure as the calling layer reports it.
#[derive(Debug, Clone)]
pub struct BindingError {
    pub kind: ExceptionKind,
    pub message: String,
}

/// The kind of exception that each failure of the store is reported as.
pub open spec fn mapped_kind(err: CacheError) -> ExceptionKind {
    match err {
        CacheError::CapacityExceeded => ExceptionKind::Runtime,
        CacheError::InvalidTTL(_) => ExceptionKind::Value,
        CacheError::Internal(_) => ExceptionKind::Runtime,
    }
}

/// The message that each failure of the store is reported with.
pub open spec fn mapped_text(err: CacheError) -> Seq<char> {
    match err {
        CacheError::CapacityExceeded => "Cache capacity exceeded"@,
        CacheError::InvalidTTL(detail) => "Invalid TTL: "@ + detail@,
        CacheError::Internal(detail) => "Internal cache error: "@ + detail@,
    }
}

/// Turns a failure of the store into the exception that reports it. The
/// mapping is total and does nothing else.
pub fn map_cache_error(err: CacheError) -> (e: BindingError)
    ensures
        e.kind == mapped_kind(err),
        e.message@ == mapped_text(err),
{
    match err {
        CacheError::CapacityExceeded => BindingError {
            kind: ExceptionKind::Runtime,
            message: "Cache capacity exceeded".to_owned(),
        },
        CacheError::InvalidTTL(detail) => {
            let mut message = "Invalid TTL: ".to_owned();
            message.append(detail.as_str());
            BindingError { kind: ExceptionKind::Value, message }
        },
        CacheError::Internal(detail) => {
            let mut message = "Internal cache error: ".to_owned();
            message.append(detail.as_str());
            BindingError { kind: ExceptionKind::Runtime, message }
        },
    }
}

/// Turns a rejected construction into the exception that reports it: an
/// unacceptable argument, with the error's own message.
pub fn map_construction_error(err: ConstructionError) -> (e: BindingError)
    ensures
        e.kind == ExceptionKind::Value,
        e.message@ == err.text(),
{
    BindingError { kind: ExceptionKind::Value, message: err.message() }
}

/// What `__repr__` shows of a store with `size` live records.
pub open spec fn repr_text(size: nat) -> Seq<char> {
    "RustCache(size="@ + decimal(size) + ")"@
}

/// `text` is what `__repr__` shows of the store `s` at `now`.
pub open spec fn shown_at(s: Seq<Entry>, now: u64, text: Seq<char>) -> bool {
    text == repr_text(live_count(s, now as int))
}

/// The store as a binding offers it.
pub struct RustCache {
    inner: LRUTTLCache,
}

impl View for RustCache {
    type V = Seq<Entry>;

    /// The records, least recently used first.
    closed spec fn view(&self) -> Seq<Entry> {
        self.inner@
    }
}

impl RustCache {
    /// The capacity bound, as contracts see it.
    pub closed spec fn spec_capacity(&self) -> usize {
        self.inner.spec_capacity()
    }

    /// The default time-to-live in seconds, as contracts see it.
    pub closed spec fn spec_default_ttl(&self) -> u64 {
        self.inner.spec_default_ttl()
    }

    /// An empty store of at most `max_size` records that live `ttl_secs`
    /// seconds by default. Both must be positive.
    pub fn new(max_size: usize, ttl_secs: u64) -> (r: Result<RustCache, BindingError>)
        ensures
            max_size == 0 ==> (r matches Err(e) && e.kind == ExceptionKind::Value && e.message@
                == ConstructionError::ZeroCapacity.text()),
            max_size != 0 && ttl_secs == 0 ==> (r matches Err(e) && e.kind == ExceptionKind::Value
                && e.message@ == ConstructionError::ZeroTtl.text()),
            max_size != 0 && ttl_secs != 0 ==> (r matches Ok(cache) && cache@
                == Seq::<Entry>::empty() && cache.spec_capacity() == max_size
                && cache.spec_default_ttl() == ttl_secs && well_formed(
                cache@,
                max_size as int,
            )),
    {
        match LRUTTLCache::new(max_size, ttl_secs) {
            Ok(inner) => Ok(RustCache { inner }),
            Err(err) => Err(map_construction_error(err)),
        }
    }

    /// Reads `key` at the present time. Never fails.
    pub fn get(&mut self, key: String) -> (r: Result<Option<String>, BindingError>)
        ensures
            r matches Ok(found) && exists|now: u64|
                now <= LAST_READING && #[trigger] read_at(
                    old(self)@,
                    key@,
                    now,
                    found.deep_view(),
                    final(self)@,
                ),
            final(self).spec_capacity() == old(self).spec_capacity(),
            final(self).spec_default_ttl() == old(self).spec_default_ttl(),
            well_formed(final(self)@, final(self).spec_capacity() as int),
    {
        let now = self.inner.now();
        let ghost before = self@;
        let found = self.inner.get_at(key.as_str(), now);
        assert(read_at(before, key@, now, found.deep_view(), self@));
        Ok(found)
    }

    /// Writes `value` under `key` at the present time, to live `ttl` seconds
    /// or the default. A time-to-live that is zero or out of range is
    /// reported as an unacceptable argument and leaves the store as it was.
    /// The write succeeds where the time-to-live is in range at the clock's
    /// last reading, and fails where it is out of range at time zero.
    pub fn set(&mut self, key: String, value: String, ttl: Option<u64>) -> (r: Result<
        (),
        BindingError,
    >)
        ensures
            ttl_in_range(effective_ttl(ttl, old(self).spec_default_ttl()), LAST_READING) ==> r is Ok,
            !ttl_in_range(effective_ttl(ttl, old(self).spec_default_ttl()), 0) ==> r is Err,
            r is Ok ==> exists|now: u64|
                now <= LAST_READING && #[trigger] written_at(
                    old(self)@,
                    key@,
                    value@,
                    effective_ttl(ttl, old(self).spec_default_ttl()),
                    old(self).spec_capacity() as int,
                    now,
                    final(self)@,
                ),
            r is Err ==> (r matches Err(e) && e.kind == ExceptionKind::Value && e.message@
                == "Invalid TTL: "@ + ttl_complaint(
                effective_ttl(ttl, old(self).spec_default_ttl()),
            )) && final(self)@ == old(self)@,
            final(self).spec_capacity() == old(self).spec_capacity(),
            final(self).spec_default_ttl() == old(self).spec_default_ttl(),
            well_formed(final(self)@, final(self).spec_capacity() as int),
    {
        let ghost before = self@;
        let ghost seconds = effective_ttl(ttl, self.spec_default_ttl());
        let ghost capacity = self.spec_capacity() as int;
        let ghost k = key@;
        let ghost v = value@;
        let now = self.inner.now();
        match self.inner.set_at(key, value, ttl, now) {
            Ok(()) => {
                assert(written_at(before, k, v, seconds, capacity, now, self@));
                Ok(())
            },
            Err(err) => Err(map_cache_error(err)),
        }
    }

    /// Removes the record of `key` and says whether there was one. Never
    /// fails.
    pub fn delete(&mut self, key: String) -> (r: Result<bool, BindingError>)
        ensures
            r matches Ok(was_present) && was_present == contains_key(old(self)@, key@),
            final(self)@ == after_delete(old(self)@, key@),
            final(self).spec_capacity() == old(self).spec_capacity(),
            final(self).spec_default_ttl() == old(self).spec_default_ttl(),
            well_formed(final(self)@, final(self).spec_capacity() as int),
    {
        Ok(self.inner.delete(key.as_str()))
    }

    /// Removes every record. Never fails.
    pub fn clear(&mut self) -> (r: Result<(), BindingError>)
        ensures
            r is Ok,
            final(self)@ == Seq::<Entry>::empty(),
            final(self).spec_capacity() == old(self).spec_capacity(),
            final(self).spec_default_ttl() == old(self).spec_default_ttl(),
            well_formed(final(self)@, final(self).spec_capacity() as int),
    {
        self.inner.clear();
        Ok(())
    }

    /// The number of records that are live at the present time. Never fails.
    pub fn size(&self) -> (r: Result<usize, BindingError>)
        ensures
            r matches Ok(n) && n <= self@.len() && n <= self.spec_capacity() && exists|now: u64|
                now <= LAST_READING && #[trigger] counted_at(self@, now, n),
            well_formed(self@, self.spec_capacity() as int),
    {
        let _ = self.inner.len();
        let now = self.inner.now();
        let n = self.inner.size_at(now);
        let r: Result<usize, BindingError> = Ok(n);
        assert(r matches Ok(m) && counted_at(self@, now, m));
        r
    }

    /// Drops every record that has expired at the present time and returns
    /// how many there were. Never fails.
    pub fn cleanup_expired(&mut self) -> (r: Result<usize, BindingError>)
        ensures
            r matches Ok(removed) && exists|now: u64|
                now <= LAST_READING && #[trigger] swept_at(old(self)@, now, removed, final(self)@),
            final(self).spec_capacity() == old(self).spec_capacity(),
            final(self).spec_default_ttl() == old(self).spec_default_ttl(),
            well_formed(final(self)@, final(self).spec_capacity() as int),
    {
        let now = self.inner.now();
        let ghost before = self@;
        let removed = self.inner.cleanup_expired_at(now);
        let r: Result<usize, BindingError> = Ok(removed);
        assert(r matches Ok(n) && swept_at(before, now, n, self@));
        r
    }

    /// A short description of the store: its name and the number of records
    /// that are live at the present time.
    pub fn __repr__(&self) -> (text: String)
        ensures
            exists|now: u64| now <= LAST_READING && #[trigger] shown_at(self@, now, text@),
    {
        let now = self.inner.now();
        let n = self.inner.size_at(now);
        let mut text = "RustCache(size=".to_owned();
        let digits = decimal_string(n);
        text.append(digits.as_str());
        text.append(")");
        assert(shown_at(self@, now, text@));
        text
    }
}

} // verus!
