//! Expiry and eviction decisions, as pure procedures over the stored records.

use vstd::prelude::*;
use crate::entry::{records, CacheEntry, Entry, TICKS_PER_SECOND};
use crate::error::CacheError;
use crate::model::{
    after_set, contains_key, holds_key, lemma_purge_concat, lemma_purge_push, live_count, purge,
};

verus! {

/// Equality of string slices, `str::eq` of the standard library: true exactly
/// when the two hold the same characters.
pub assume_specification[ <str as PartialEq>::eq ](a: &str, b: &str) -> (same: bool)
    ensures
        same == (a@ == b@),
;

/// The time-to-live that a write uses: its own, or the store's default.
pub open spec fn effective_ttl(ttl: Option<u64>, default_ttl: u64) -> u64 {
    match ttl {
        Some(t) => t,
        None => default_ttl,
    }
}

/// A time-to-live of `ttl` seconds can be honoured at `now`: it is positive,
/// and the expiry it leads to is a timestamp.
pub open spec fn ttl_in_range(ttl: u64, now: u64) -> bool {
    0 < ttl && now + ttl * TICKS_PER_SECOND <= u64::MAX
}

/// The expiry of a record written at `now` to live `ttl` seconds.
pub open spec fn expiry_at(ttl: u64, now: u64) -> int {
    now + ttl * TICKS_PER_SECOND
}

/// The record that a write of `value` under `key` stores at `now`, to live
/// `ttl` seconds.
pub open spec fn fresh_entry(key: Seq<char>, value: Seq<char>, ttl: u64, now: u64) -> Entry {
    Entry { key, value, created_at: now as int, expires_at: expiry_at(ttl, now) }
}

/// A write of `value` under `key` at `now`, with a time-to-live that is in
/// range at `now`, turned `before` into `after`.
pub open spec fn written_at(
    before: Seq<Entry>,
    key: Seq<char>,
    value: Seq<char>,
    ttl: u64,
    capacity: int,
    now: u64,
    after: Seq<Entry>,
) -> bool {
    ttl_in_range(ttl, now) && after == after_set(
        before,
        fresh_entry(key, value, ttl, now),
        now as int,
        capacity,
    )
}

/// What is said of a time-to-live that is not in range.
pub open spec fn ttl_complaint(ttl: u64) -> Seq<char> {
    if ttl == 0 {
        "ttl must be greater than 0"@
    } else {
        "ttl is too large"@
    }
}

/// The expiry timestamp of a write at `now`, or `InvalidTTL` where the
/// time-to-live is zero or leads past the last timestamp.
pub fn expiry(ttl: Option<u64>, default_ttl: u64, now: u64) -> (r: Result<u64, CacheError>)
    ensures
        ttl_in_range(effective_ttl(ttl, default_ttl), now) ==> r == Ok::<u64, CacheError>(
            expiry_at(effective_ttl(ttl, default_ttl), now) as u64,
        ),
        !ttl_in_range(effective_ttl(ttl, default_ttl), now) ==> (r matches Err(
            CacheError::InvalidTTL(m),
        ) && m@ == ttl_complaint(effective_ttl(ttl, default_ttl))),
{
    let seconds: u64 = match ttl {
        Some(t) => t,
        None => default_ttl,
    };
    if seconds == 0 {
        return Err(CacheError::InvalidTTL("ttl must be greater than 0".to_owned()));
    }
    match seconds.checked_mul(TICKS_PER_SECOND) {
        Some(ticks) => match now.checked_add(ticks) {
            Some(at) => Ok(at),
            None => Err(CacheError::InvalidTTL("ttl is too large".to_owned())),
        },
        None => Err(CacheError::InvalidTTL("ttl is too large".to_owned())),
    }
}

/// The place of `key` among `entries`, if any record holds it.
pub fn find_key(entries: &Vec<CacheEntry>, key: &str) -> (found: Option<usize>)
    ensures
        match found {
            Some(i) => holds_key(records(entries@), key@, i as int) && forall|j: int|
                0 <= j < i ==> !holds_key(records(entries@), key@, j),
            None => !contains_key(records(entries@), key@),
        },
{
    let mut i: usize = 0;
    while i < entries.len()
        invariant
            i <= entries.len(),
            forall|j: int| 0 <= j < i ==> !holds_key(records(entries@), key@, j),
        decreases entries.len() - i,
    {
        if *entries[i].key.as_str() == *key {
            return Some(i);
        }
        i += 1;
    }
    None
}

/// The record to give up under capacity pressure: of those live at `now`,
/// the least recently used. `None` where no record is live.
pub fn select_victim(entries: &Vec<CacheEntry>, now: u64) -> (victim: Option<usize>)
    ensures
        match victim {
            Some(i) => i < entries.len() && entries[i as int]@.live_at(now as int) && forall|
                j: int,
            | 0 <= j < i ==> !(#[trigger] entries[j])@.live_at(now as int),
            None => forall|j: int|
                0 <= j < entries.len() ==> !(#[trigger] entries[j])@.live_at(now as int),
        },
{
    let mut i: usize = 0;
    while i < entries.len()
        invariant
            i <= entries.len(),
            forall|j: int| 0 <= j < i ==> !(#[trigger] entries[j])@.live_at(now as int),
        decreases entries.len() - i,
    {
        if entries[i].is_live(now) {
            return Some(i);
        }
        i += 1;
    }
    None
}

/// The number of records that are live at `now`.
pub fn count_live(entries: &Vec<CacheEntry>, now: u64) -> (n: usize)
    ensures
        n == live_count(records(entries@), now as int),
{
    let mut n: usize = 0;
    let mut i: usize = 0;
    while i < entries.len()
        invariant
            i <= entries.len(),
            n <= i,
            n == live_count(records(entries@).take(i as int), now as int),
        decreases entries.len() - i,
    {
        proof {
            let s = records(entries@);
            assert(s.take(i + 1).drop_last() =~= s.take(i as int));
            assert(s.take(i + 1).last() == s[i as int]);
        }
        if entries[i].is_live(now) {
            n += 1;
        }
        i += 1;
    }
    proof {
        let s = records(entries@);
        assert(s.take(s.len() as int) =~= s);
    }
    n
}

/// Drops every record that has expired at `now`, keeps the others in their
/// order, and returns how many were dropped.
pub fn purge_expired(entries: &mut Vec<CacheEntry>, now: u64) -> (removed: usize)
    ensures
        records(final(entries)@) == purge(records(old(entries)@), now as int),
        removed == old(entries)@.len() - final(entries)@.len(),
{
    let ghost before = records(entries@);
    let total = entries.len();
    // The live records, most recently used first.
    let mut kept: Vec<CacheEntry> = Vec::new();
    while entries.len() > 0
        invariant
            entries.len() <= total,
            total == before.len(),
            kept.len() + entries.len() <= total,
            records(entries@) == before.take(entries.len() as int),
            records(kept@).reverse() == purge(before.skip(entries.len() as int), now as int),
        decreases entries.len(),
    {
        let ghost n = entries.len() as int;
        let ghost stack = records(kept@);
        let ghost prefix = records(entries@);
        let e = entries.pop().unwrap();
        proof {
            assert(e@ == prefix[n - 1]);
            assert(prefix[n - 1] == before[n - 1]);
            assert(records(entries@) =~= before.take(n - 1));
            lemma_purge_concat(seq![e@], before.skip(n), now as int);
            assert(seq![e@] + before.skip(n) =~= before.skip(n - 1));
            lemma_purge_push(Seq::<Entry>::empty(), e@, now as int);
            assert(Seq::<Entry>::empty().push(e@) =~= seq![e@]);
        }
        if e.is_live(now) {
            kept.push(e);
            proof {
                assert(records(kept@) =~= stack.push(e@));
                assert(stack.push(e@).reverse() =~= seq![e@] + stack.reverse());
            }
        } else {
            proof {
                assert(Seq::<Entry>::empty() + stack.reverse() =~= stack.reverse());
            }
        }
    }
    proof {
        assert(before.skip(0) =~= before);
    }
    let survivors = kept.len();
    while kept.len() > 0
        invariant
            kept.len() + entries.len() == survivors,
            survivors <= total,
            records(entries@) + records(kept@).reverse() == purge(before, now as int),
        decreases kept.len(),
    {
        let ghost stack = records(kept@);
        let ghost done = records(entries@);
        let e = kept.pop().unwrap();
        entries.push(e);
        proof {
            assert(records(kept@) =~= stack.drop_last());
            assert(records(entries@) =~= done.push(e@));
            assert(e@ == stack.last());
            assert(done.push(e@) + stack.drop_last().reverse() =~= done + stack.reverse());
        }
    }
    proof {
        assert(records(entries@) + records(kept@).reverse() =~= records(entries@));
    }
    total - survivors
}

} // verus!
