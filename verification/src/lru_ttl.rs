//! The cache store: a bounded map from keys to payloads that forgets the
//! least recently used record when it is full, and every record at its expiry.

use vstd::prelude::*;
use crate::clock::{Clock, LAST_READING};
use crate::entry::{records, CacheEntry, Entry};
use crate::error::{CacheError, ConstructionError};
use crate::model::{
    after_delete, after_get, after_set, contains_key, counted_at, holds_key, lemma_position,
    lemma_purge_same_len, lemma_purge_sound, lemma_push, lemma_remove, live_count, lookup,
    position, purge, read_at, swept_at, well_formed,
};
use crate::policy::{
    count_live, effective_ttl, expiry, find_key, fresh_entry, purge_expired, select_victim,
    ttl_complaint, ttl_in_range, written_at,
};

verus! {

/// A store of at most `capacity` records in recency order, each with an
/// absolute expiry.
///
/// Time is passed in by the operations whose names end in `_at`; the others
/// read the store's own clock and then do the same. A time `now` is in ticks
/// of that clock, of which there are `TICKS_PER_SECOND` in a second; a
/// time-to-live is in seconds.
///
/// A read or a write looks for its key among all records, so each takes
/// time in proportion to the number of records held.
pub struct LRUTTLCache {
    entries: Vec<CacheEntry>,
    max_size: usize,
    default_ttl: u64,
    clock: Clock,
}

impl View for LRUTTLCache {
    type V = Seq<Entry>;

    /// The records, least recently used first.
    closed spec fn view(&self) -> Seq<Entry> {
        records(self.entries@)
    }
}

impl LRUTTLCache {
    #[verifier::type_invariant]
    spec fn inv(&self) -> bool {
        &&& 0 < self.default_ttl
        &&& well_formed(records(self.entries@), self.max_size as int)
    }

    /// The capacity bound, as contracts see it.
    pub closed spec fn spec_capacity(&self) -> usize {
        self.max_size
    }

    /// The default time-to-live in seconds, as contracts see it.
    pub closed spec fn spec_default_ttl(&self) -> u64 {
        self.default_ttl
    }

    /// An empty store. The capacity and the default time-to-live, in
    /// seconds, must both be positive. A default that is positive but out of
    /// range at every time is accepted here; each write that relies on it is
    /// then rejected.
    pub fn new(max_size: usize, default_ttl: u64) -> (r: Result<LRUTTLCache, ConstructionError>)
        ensures
            max_size == 0 ==> r == Err::<LRUTTLCache, ConstructionError>(
                ConstructionError::ZeroCapacity,
            ),
            max_size != 0 && default_ttl == 0 ==> r == Err::<LRUTTLCache, ConstructionError>(
                ConstructionError::ZeroTtl,
            ),
            max_size != 0 && default_ttl != 0 ==> (r matches Ok(store) && store@
                == Seq::<Entry>::empty() && store.spec_capacity() == max_size
                && store.spec_default_ttl() == default_ttl && well_formed(
                store@,
                max_size as int,
            )),
    {
        if max_size == 0 {
            return Err(ConstructionError::ZeroCapacity);
        }
        if default_ttl == 0 {
            return Err(ConstructionError::ZeroTtl);
        }
        let store = LRUTTLCache { entries: Vec::new(), max_size, default_ttl, clock: Clock::start() };
        assert(store@ =~= Seq::<Entry>::empty());
        Ok(store)
    }

    /// The capacity bound.
    #[verifier::when_used_as_spec(spec_capacity)]
    pub fn capacity(&self) -> (n: usize)
        ensures
            n == self.spec_capacity(),
            0 < n,
    {
        proof {
            use_type_invariant(self);
        }
        self.max_size
    }

    /// The default time-to-live, in seconds.
    #[verifier::when_used_as_spec(spec_default_ttl)]
    pub fn default_ttl(&self) -> (ttl: u64)
        ensures
            ttl == self.spec_default_ttl(),
            0 < ttl,
    {
        proof {
            use_type_invariant(self);
        }
        self.default_ttl
    }

    /// The number of records held, expired ones that were not yet dropped
    /// included.
    pub fn len(&self) -> (n: usize)
        ensures
            n == self@.len(),
            n <= self.spec_capacity(),
            well_formed(self@, self.spec_capacity() as int),
    {
        proof {
            use_type_invariant(self);
        }
        self.entries.len()
    }

    /// Reads `key` at time `now`. A live record yields its payload and
    /// becomes the most recently used; an expired one yields nothing and is
    /// dropped; a key that is not held leaves the store as it was.
    pub fn get_at(&mut self, key: &str, now: u64) -> (r: Option<String>)
        ensures
            r.deep_view() == lookup(old(self)@, key@, now as int),
            final(self)@ == after_get(old(self)@, key@, now as int),
            final(self).spec_capacity() == old(self).spec_capacity(),
            final(self).spec_default_ttl() == old(self).spec_default_ttl(),
            well_formed(final(self)@, final(self).spec_capacity() as int),
    {
        proof {
            use_type_invariant(&*self);
        }
        let mut entries: Vec<CacheEntry> = Vec::new();
        std::mem::swap(&mut entries, &mut self.entries);
        let ghost s = records(entries@);
        let r = match find_key(&entries, key) {
            None => None,
            Some(i) => {
                proof {
                    lemma_position(s, key@, i as int);
                    lemma_remove(s, i as int);
                }
                let e = entries.remove(i);
                assert(records(entries@) =~= s.remove(i as int));
                if e.is_live(now) {
                    let payload = e.value.clone();
                    proof {
                        lemma_push(s.remove(i as int), e@);
                    }
                    entries.push(e);
                    assert(records(entries@) =~= s.remove(i as int).push(s[i as int]));
                    Some(payload)
                } else {
                    None
                }
            },
        };
        self.entries = entries;
        r
    }

    /// Writes `value` under `key` at time `now`, to live `ttl` seconds, or
    /// the store's default where `ttl` is `None`. The record becomes the most
    /// recently used. A new key in a full store takes the place of the
    /// expired records if there are any, else of the least recently used
    /// one. A time-to-live that is zero or out of range is rejected and
    /// leaves the store as it was.
    pub fn set_at(&mut self, key: String, value: String, ttl: Option<u64>, now: u64) -> (r: Result<
        (),
        CacheError,
    >)
        ensures
            ttl_in_range(effective_ttl(ttl, old(self).spec_default_ttl()), now) ==> r is Ok
                && final(self)@ == after_set(
                old(self)@,
                fresh_entry(key@, value@, effective_ttl(ttl, old(self).spec_default_ttl()), now),
                now as int,
                old(self).spec_capacity() as int,
            ),
            !ttl_in_range(effective_ttl(ttl, old(self).spec_default_ttl()), now) ==> (r matches Err(
                CacheError::InvalidTTL(m),
            ) && m@ == ttl_complaint(effective_ttl(ttl, old(self).spec_default_ttl())))
                && final(self)@ == old(self)@,
            final(self).spec_capacity() == old(self).spec_capacity(),
            final(self).spec_default_ttl() == old(self).spec_default_ttl(),
            well_formed(final(self)@, final(self).spec_capacity() as int),
    {
        proof {
            use_type_invariant(&*self);
        }
        let expires_at = match expiry(ttl, self.default_ttl, now) {
            Ok(at) => at,
            Err(e) => {
                return Err(e);
            },
        };
        let mut entries: Vec<CacheEntry> = Vec::new();
        std::mem::swap(&mut entries, &mut self.entries);
        let ghost s = records(entries@);
        let ghost fresh = fresh_entry(
            key@,
            value@,
            effective_ttl(ttl, self.default_ttl),
            now,
        );
        match find_key(&entries, key.as_str()) {
            Some(i) => {
                proof {
                    lemma_position(s, key@, i as int);
                    lemma_remove(s, i as int);
                }
                let _ = entries.remove(i);
                assert(records(entries@) =~= s.remove(i as int));
            },
            None => {
                if entries.len() >= self.max_size {
                    let _ = purge_expired(&mut entries, now);
                    proof {
                        lemma_purge_sound(s, now as int);
                        let p = purge(s, now as int);
                        if contains_key(p, key@) {
                            let k = position(p, key@);
                            assert(holds_key(p, key@, k));
                            assert(contains_key(s, p[k].key));
                        }
                    }
                    if entries.len() >= self.max_size {
                        proof {
                            lemma_purge_same_len(s, now as int);
                            assert(s[0].live_at(now as int));
                            assert(s[0] == entries[0]@);
                        }
                        match select_victim(&entries, now) {
                            Some(victim) => {
                                proof {
                                    lemma_remove(s, 0);
                                }
                                let _ = entries.remove(victim);
                                assert(records(entries@) =~= s.drop_first());
                            },
                            None => {
                                self.entries = entries;
                                return Err(CacheError::CapacityExceeded);
                            },
                        }
                    }
                }
            },
        }
        proof {
            lemma_push(records(entries@), fresh);
        }
        let ghost before_push = records(entries@);
        entries.push(CacheEntry { key, value, created_at: now, expires_at });
        assert(records(entries@) =~= before_push.push(fresh));
        self.entries = entries;
        Ok(())
    }

    /// Removes the record of `key`, live or expired, and says whether there
    /// was one.
    pub fn delete(&mut self, key: &str) -> (was_present: bool)
        ensures
            was_present == contains_key(old(self)@, key@),
            final(self)@ == after_delete(old(self)@, key@),
            final(self).spec_capacity() == old(self).spec_capacity(),
            final(self).spec_default_ttl() == old(self).spec_default_ttl(),
            well_formed(final(self)@, final(self).spec_capacity() as int),
    {
        proof {
            use_type_invariant(&*self);
        }
        let mut entries: Vec<CacheEntry> = Vec::new();
        std::mem::swap(&mut entries, &mut self.entries);
        let ghost s = records(entries@);
        let was_present = match find_key(&entries, key) {
            Some(i) => {
                proof {
                    lemma_position(s, key@, i as int);
                    lemma_remove(s, i as int);
                }
                let _ = entries.remove(i);
                assert(records(entries@) =~= s.remove(i as int));
                true
            },
            None => false,
        };
        self.entries = entries;
        was_present
    }

    /// Removes every record.
    pub fn clear(&mut self)
        ensures
            final(self)@ == Seq::<Entry>::empty(),
            final(self).spec_capacity() == old(self).spec_capacity(),
            final(self).spec_default_ttl() == old(self).spec_default_ttl(),
            well_formed(final(self)@, final(self).spec_capacity() as int),
    {
        proof {
            use_type_invariant(&*self);
        }
        self.entries = Vec::new();
        assert(self@ =~= Seq::<Entry>::empty());
    }

    /// The number of records that are live at `now`.
    pub fn size_at(&self, now: u64) -> (n: usize)
        ensures
            n == live_count(self@, now as int),
            n <= self@.len(),
            n <= self.spec_capacity(),
    {
        proof {
            use_type_invariant(self);
            lemma_purge_sound(self@, now as int);
        }
        count_live(&self.entries, now)
    }

    /// Drops every record that has expired at `now` and returns how many
    /// there were. The live records keep their order.
    pub fn cleanup_expired_at(&mut self, now: u64) -> (removed: usize)
        ensures
            final(self)@ == purge(old(self)@, now as int),
            removed == old(self)@.len() - live_count(old(self)@, now as int),
            final(self).spec_capacity() == old(self).spec_capacity(),
            final(self).spec_default_ttl() == old(self).spec_default_ttl(),
            well_formed(final(self)@, final(self).spec_capacity() as int),
    {
        proof {
            use_type_invariant(&*self);
            lemma_purge_sound(self@, now as int);
        }
        let mut entries: Vec<CacheEntry> = Vec::new();
        std::mem::swap(&mut entries, &mut self.entries);
        let removed = purge_expired(&mut entries, now);
        self.entries = entries;
        removed
    }

    /// The present time on the store's clock, in ticks since the store was
    /// made. It never passes the clock's last reading.
    pub fn now(&self) -> (reading: u64)
        ensures
            reading <= LAST_READING,
    {
        self.clock.now()
    }

    /// Reads `key` at the present time: `get_at` with the clock's reading.
    pub fn get(&mut self, key: &str) -> (r: Option<String>)
        ensures
            exists|now: u64|
                now <= LAST_READING && #[trigger] read_at(
                    old(self)@,
                    key@,
                    now,
                    r.deep_view(),
                    final(self)@,
                ),
            final(self).spec_capacity() == old(self).spec_capacity(),
            final(self).spec_default_ttl() == old(self).spec_default_ttl(),
            well_formed(final(self)@, final(self).spec_capacity() as int),
    {
        let now = self.clock.now();
        let ghost before = self@;
        let r = self.get_at(key, now);
        assert(read_at(before, key@, now, r.deep_view(), self@));
        r
    }

    /// Writes `value` under `key` at the present time: `set_at` with the
    /// clock's reading. The write succeeds where the time-to-live is in range
    /// at the clock's last reading, as every time-to-live of less than nine
    /// thousand million million seconds is, and fails where it is out of
    /// range at time zero; between the two the reading decides.
    pub fn set(&mut self, key: String, value: String, ttl: Option<u64>) -> (r: Result<
        (),
        CacheError,
    >)
        ensures
            ttl_in_range(effective_ttl(ttl, old(self).spec_default_ttl()), LAST_READING) ==> r is Ok,
            !ttl_in_range(effective_ttl(ttl, old(self).spec_default_ttl()), 0) ==> r is Err,
            r is Ok ==> exists|now: u64|
                now <= LAST_READING && #[trigger] written_at(
                    old(self)@,
                    key@,
                    value@,
                    effective_ttl(ttl, old(self).spec_default_ttl()),
                    old(self).spec_capacity() as int,
                    now,
                    final(self)@,
                ),
            r is Err ==> (r matches Err(CacheError::InvalidTTL(m)) && m@ == ttl_complaint(
                effective_ttl(ttl, old(self).spec_default_ttl()),
            )) && final(self)@ == old(self)@,
            final(self).spec_capacity() == old(self).spec_capacity(),
            final(self).spec_default_ttl() == old(self).spec_default_ttl(),
            well_formed(final(self)@, final(self).spec_capacity() as int),
    {
        let now = self.clock.now();
        let ghost before = self@;
        let ghost seconds = effective_ttl(ttl, self.spec_default_ttl());
        let ghost capacity = self.spec_capacity() as int;
        let ghost k = key@;
        let ghost v = value@;
        let r = self.set_at(key, value, ttl, now);
        assert(r is Ok ==> written_at(before, k, v, seconds, capacity, now, self@));
        r
    }

    /// The number of records that are live at the present time.
    pub fn size(&self) -> (n: usize)
        ensures
            exists|now: u64| now <= LAST_READING && #[trigger] counted_at(self@, now, n),
            n <= self@.len(),
            n <= self.spec_capacity(),
    {
        let now = self.clock.now();
        let n = self.size_at(now);
        assert(counted_at(self@, now, n));
        n
    }

    /// Drops every record that has expired at the present time and returns
    /// how many there were.
    pub fn cleanup_expired(&mut self) -> (removed: usize)
        ensures
            exists|now: u64|
                now <= LAST_READING && #[trigger] swept_at(old(self)@, now, removed, final(self)@),
            final(self).spec_capacity() == old(self).spec_capacity(),
            final(self).spec_default_ttl() == old(self).spec_default_ttl(),
            well_formed(final(self)@, final(self).spec_capacity() as int),
    {
        let now = self.clock.now();
        let ghost before = self@;
        let removed = self.cleanup_expired_at(now);
        assert(swept_at(before, now, removed, self@));
        removed
    }
}

} // verus!
