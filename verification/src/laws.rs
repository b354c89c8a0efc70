//! What holds of the store whatever it contains, proved of the model that
//! the operations' contracts are stated in.

use vstd::prelude::*;
use crate::entry::Entry;
use crate::model::{
    after_delete, after_get, after_set, all_live, contains_key, distinct_keys, holds_key,
    lemma_lookup_at, lemma_position, lemma_purge_complete, lemma_purge_live,
    lemma_purge_same_len, lemma_purge_sound, lemma_push, lemma_remove, live_count, lookup,
    position, purge, well_formed,
};
use crate::policy::{expiry_at, fresh_entry, ttl_in_range};

verus! {

/// A read leaves a well-formed store well-formed.
pub proof fn law_get_keeps_bound(s: Seq<Entry>, key: Seq<char>, now: int, capacity: int)
    requires
        well_formed(s, capacity),
    ensures
        well_formed(after_get(s, key, now), capacity),
{
    if contains_key(s, key) {
        let i = position(s, key);
        assert(holds_key(s, key, i));
        lemma_remove(s, i);
        if s[i].live_at(now) {
            assert(s[i].valid());
            lemma_push(s.remove(i), s[i]);
        }
    }
}

/// A delete leaves a well-formed store well-formed.
pub proof fn law_delete_keeps_bound(s: Seq<Entry>, key: Seq<char>, capacity: int)
    requires
        well_formed(s, capacity),
    ensures
        well_formed(after_delete(s, key), capacity),
{
    if contains_key(s, key) {
        let i = position(s, key);
        assert(holds_key(s, key, i));
        lemma_remove(s, i);
    }
}

/// A purge leaves a well-formed store well-formed, and never larger.
pub proof fn law_purge_keeps_bound(s: Seq<Entry>, now: int, capacity: int)
    requires
        well_formed(s, capacity),
    ensures
        well_formed(purge(s, now), capacity),
        live_count(s, now) <= s.len(),
{
    lemma_purge_sound(s, now);
}

/// A purge holds no key that the store did not hold.
pub proof fn lemma_purge_no_new_key(s: Seq<Entry>, now: int, key: Seq<char>)
    requires
        !contains_key(s, key),
    ensures
        !contains_key(purge(s, now), key),
{
    lemma_purge_sound(s, now);
    let p = purge(s, now);
    if contains_key(p, key) {
        let k = position(p, key);
        assert(holds_key(p, key, k));
        assert(contains_key(s, p[k].key));
    }
}

/// A write leaves a well-formed store well-formed: the number of records
/// never exceeds the capacity, whatever is written.
pub proof fn law_set_keeps_bound(s: Seq<Entry>, fresh: Entry, now: int, capacity: int)
    requires
        well_formed(s, capacity),
        fresh.valid(),
    ensures
        well_formed(after_set(s, fresh, now, capacity), capacity),
{
    if contains_key(s, fresh.key) {
        let i = position(s, fresh.key);
        assert(holds_key(s, fresh.key, i));
        lemma_remove(s, i);
        lemma_push(s.remove(i), fresh);
    } else if s.len() < capacity {
        lemma_push(s, fresh);
    } else {
        let p = purge(s, now);
        lemma_purge_sound(s, now);
        lemma_purge_no_new_key(s, now, fresh.key);
        if p.len() < capacity {
            lemma_push(p, fresh);
        } else {
            lemma_remove(p, 0);
            assert(p.drop_first() =~= p.remove(0));
            if contains_key(p.remove(0), fresh.key) {
                assert(fresh.key != p[0].key);
            }
            lemma_push(p.remove(0), fresh);
        }
    }
}

/// The last writer wins: a read of a key that was just written, at a time
/// at which the record is live, yields the payload that was written.
pub proof fn law_read_after_write(s: Seq<Entry>, fresh: Entry, now: int, capacity: int, at: int)
    requires
        well_formed(s, capacity),
        fresh.valid(),
        fresh.live_at(at),
    ensures
        lookup(after_set(s, fresh, now, capacity), fresh.key, at) == Some(fresh.value),
{
    let t = after_set(s, fresh, now, capacity);
    law_set_keeps_bound(s, fresh, now, capacity);
    assert(holds_key(t, fresh.key, t.len() - 1));
    lemma_lookup_at(t, fresh.key, t.len() - 1, at);
}

/// Once a record has expired, a read of its key yields nothing, whether or
/// not the record was ever swept; and the read itself drops the record.
pub proof fn law_expired_is_absent(s: Seq<Entry>, key: Seq<char>, i: int, now: int)
    requires
        distinct_keys(s),
        holds_key(s, key, i),
        now >= s[i].expires_at,
    ensures
        lookup(s, key, now) is None,
        !contains_key(after_get(s, key, now), key),
{
    lemma_lookup_at(s, key, i, now);
    lemma_position(s, key, i);
    lemma_remove(s, i);
}

/// Taking one record out changes no read of another key.
pub proof fn lemma_lookup_remove_other(s: Seq<Entry>, i: int, other: Seq<char>, at: int)
    requires
        distinct_keys(s),
        0 <= i < s.len(),
        other != s[i].key,
    ensures
        lookup(s.remove(i), other, at) == lookup(s, other, at),
{
    lemma_remove(s, i);
    let r = s.remove(i);
    if contains_key(s, other) {
        let a0 = position(s, other);
        assert(holds_key(s, other, a0));
        let a = if a0 < i { a0 } else { a0 - 1 };
        assert(holds_key(r, other, a));
        lemma_lookup_at(s, other, a0, at);
        lemma_lookup_at(r, other, a, at);
    }
}

/// Putting a record with a new key at the end changes no read of another
/// key.
pub proof fn lemma_lookup_push_other(s: Seq<Entry>, e: Entry, other: Seq<char>, at: int)
    requires
        distinct_keys(s),
        !contains_key(s, e.key),
        other != e.key,
    ensures
        lookup(s.push(e), other, at) == lookup(s, other, at),
{
    lemma_push(s, e);
    let r = s.push(e);
    if contains_key(s, other) {
        let a = position(s, other);
        assert(holds_key(s, other, a));
        assert(holds_key(r, other, a));
        lemma_lookup_at(s, other, a, at);
        lemma_lookup_at(r, other, a, at);
    } else if contains_key(r, other) {
        let a = position(r, other);
        assert(holds_key(r, other, a));
        assert(holds_key(s, other, a));
    }
}

/// A sweep changes no read that is made at the time of the sweep or later:
/// what it drops was absent to every such read already.
pub proof fn law_sweep_keeps_reads(s: Seq<Entry>, now: int, key: Seq<char>, at: int)
    requires
        distinct_keys(s),
        now <= at,
    ensures
        lookup(purge(s, now), key, at) == lookup(s, key, at),
{
    let p = purge(s, now);
    lemma_purge_sound(s, now);
    if contains_key(p, key) {
        let k = position(p, key);
        assert(holds_key(p, key, k));
        assert(s.contains(p[k]));
        let i = choose|i: int| 0 <= i < s.len() && s[i] == p[k];
        assert(holds_key(s, key, i));
        lemma_lookup_at(s, key, i, at);
        lemma_lookup_at(p, key, k, at);
    } else if contains_key(s, key) {
        let i = position(s, key);
        assert(holds_key(s, key, i));
        lemma_lookup_at(s, key, i, at);
        if s[i].live_at(now) {
            lemma_purge_complete(s, now, i);
            let k = choose|k: int| 0 <= k < p.len() && p[k] == s[i];
            assert(holds_key(p, key, k));
        }
    }
}

/// A read of one key changes no read of another.
pub proof fn law_read_keeps_others(
    s: Seq<Entry>,
    key: Seq<char>,
    now: int,
    other: Seq<char>,
    at: int,
)
    requires
        distinct_keys(s),
        other != key,
    ensures
        lookup(after_get(s, key, now), other, at) == lookup(s, other, at),
{
    if contains_key(s, key) {
        let i = position(s, key);
        assert(holds_key(s, key, i));
        lemma_remove(s, i);
        lemma_lookup_remove_other(s, i, other, at);
        if s[i].live_at(now) {
            lemma_lookup_push_other(s.remove(i), s[i], other, at);
        }
    }
}

/// A read changes no later read of the same key.
pub proof fn law_read_keeps_own(s: Seq<Entry>, key: Seq<char>, now: int, at: int)
    requires
        distinct_keys(s),
        now <= at,
    ensures
        lookup(after_get(s, key, now), key, at) == lookup(s, key, at),
{
    if contains_key(s, key) {
        let i = position(s, key);
        assert(holds_key(s, key, i));
        lemma_remove(s, i);
        lemma_lookup_at(s, key, i, at);
        if s[i].live_at(now) {
            lemma_push(s.remove(i), s[i]);
            let t = s.remove(i).push(s[i]);
            lemma_lookup_at(t, key, t.len() - 1, at);
        }
    }
}

/// Without eviction pressure, that is where the key written is already held
/// or a slot is free, a write changes no read of another key.
pub proof fn law_write_keeps_others(
    s: Seq<Entry>,
    fresh: Entry,
    now: int,
    capacity: int,
    other: Seq<char>,
    at: int,
)
    requires
        well_formed(s, capacity),
        contains_key(s, fresh.key) || s.len() < capacity,
        other != fresh.key,
    ensures
        lookup(after_set(s, fresh, now, capacity), other, at) == lookup(s, other, at),
{
    if contains_key(s, fresh.key) {
        let i = position(s, fresh.key);
        assert(holds_key(s, fresh.key, i));
        lemma_remove(s, i);
        lemma_lookup_remove_other(s, i, other, at);
        lemma_lookup_push_other(s.remove(i), fresh, other, at);
    } else {
        lemma_lookup_push_other(s, fresh, other, at);
    }
}

/// A write of a new key into a store that is full of live records evicts
/// exactly one record, the least recently used. The others stay in their
/// order, and the record just written is the most recently used.
pub proof fn law_eviction(s: Seq<Entry>, fresh: Entry, now: int, capacity: int)
    requires
        well_formed(s, capacity),
        s.len() == capacity,
        all_live(s, now),
        !contains_key(s, fresh.key),
    ensures
        after_set(s, fresh, now, capacity) == s.drop_first().push(fresh),
        after_set(s, fresh, now, capacity).len() == capacity,
        !contains_key(after_set(s, fresh, now, capacity), s[0].key),
        holds_key(after_set(s, fresh, now, capacity), fresh.key, capacity - 1),
        forall|i: int|
            1 <= i < capacity ==> after_set(s, fresh, now, capacity)[i - 1] == #[trigger] s[i],
{
    lemma_purge_live(s, now);
    let t = s.drop_first().push(fresh);
    assert(s.drop_first() =~= s.remove(0));
    lemma_remove(s, 0);
    if contains_key(t, s[0].key) {
        let k = position(t, s[0].key);
        assert(holds_key(t, s[0].key, k));
        if k < capacity - 1 {
            assert(holds_key(s.remove(0), s[0].key, k));
        } else {
            assert(holds_key(s, fresh.key, 0));
        }
    }
}

/// Where a full store holds an expired record, a write of a new key takes
/// the place of the expired records and evicts no live one.
pub proof fn law_reclaim_spares_live(s: Seq<Entry>, fresh: Entry, now: int, capacity: int)
    requires
        well_formed(s, capacity),
        s.len() == capacity,
        !all_live(s, now),
        !contains_key(s, fresh.key),
    ensures
        after_set(s, fresh, now, capacity) == purge(s, now).push(fresh),
        forall|i: int|
            0 <= i < s.len() && (#[trigger] s[i]).live_at(now) ==> after_set(
                s,
                fresh,
                now,
                capacity,
            ).contains(s[i]),
{
    let p = purge(s, now);
    lemma_purge_sound(s, now);
    if p.len() == s.len() {
        lemma_purge_same_len(s, now);
    }
    let t = p.push(fresh);
    assert forall|i: int| 0 <= i < s.len() && (#[trigger] s[i]).live_at(now) implies t.contains(
        s[i],
    ) by {
        lemma_purge_complete(s, now, i);
        let k = choose|k: int| 0 <= k < p.len() && p[k] == s[i];
        assert(t[k] == s[i]);
    }
}

/// A write under pressure is read as the law of eviction says: the least
/// recently used key is gone, every other key is read as before, the key
/// written is read with its payload while it lives, and the store is full of
/// live records.
pub proof fn law_eviction_reads(s: Seq<Entry>, fresh: Entry, now: int, capacity: int, at: int)
    requires
        well_formed(s, capacity),
        s.len() == capacity,
        all_live(s, now),
        !contains_key(s, fresh.key),
        fresh.live_at(now),
    ensures
        lookup(after_set(s, fresh, now, capacity), s[0].key, at) is None,
        forall|i: int|
            1 <= i < capacity ==> lookup(
                after_set(s, fresh, now, capacity),
                (#[trigger] s[i]).key,
                at,
            ) == lookup(s, s[i].key, at),
        lookup(after_set(s, fresh, now, capacity), fresh.key, at) == if fresh.live_at(at) {
            Some(fresh.value)
        } else {
            None
        },
        live_count(after_set(s, fresh, now, capacity), now) == capacity,
{
    law_eviction(s, fresh, now, capacity);
    let r = s.remove(0);
    let t = after_set(s, fresh, now, capacity);
    assert(s.drop_first() =~= r);
    lemma_remove(s, 0);
    assert(holds_key(s, s[0].key, 0));
    if contains_key(r, fresh.key) {
        assert(fresh.key != s[0].key);
    }
    lemma_push(r, fresh);
    lemma_lookup_at(t, fresh.key, capacity - 1, at);
    assert forall|i: int| 1 <= i < capacity implies lookup(t, (#[trigger] s[i]).key, at) == lookup(
        s,
        s[i].key,
        at,
    ) by {
        assert(holds_key(s, s[i].key, i));
        assert(s[0].key != s[i].key);
        lemma_lookup_remove_other(s, 0, s[i].key, at);
        lemma_lookup_push_other(r, fresh, s[i].key, at);
    }
    assert(all_live(t, now)) by {
        assert forall|k: int| 0 <= k < t.len() implies (#[trigger] t[k]).live_at(now) by {
            if k < capacity - 1 {
                assert(s[k + 1].live_at(now));
            }
        }
    }
    lemma_purge_live(t, now);
}

/// Inserting beyond the capacity: a write of a new key, with a time-to-live
/// in range, into a store that holds as many live records as it may evicts
/// exactly one of them, the least recently used. That key is absent
/// afterwards, every other key is read with the payload it had, the key
/// written is read with its own, and the store still holds as many live
/// records as it may.
pub proof fn law_write_into_full_store(
    s: Seq<Entry>,
    key: Seq<char>,
    value: Seq<char>,
    ttl: u64,
    now: u64,
    capacity: int,
    at: int,
)
    requires
        well_formed(s, capacity),
        s.len() == capacity,
        all_live(s, now as int),
        !contains_key(s, key),
        ttl_in_range(ttl, now),
    ensures
        after_set(s, fresh_entry(key, value, ttl, now), now as int, capacity)
            == s.drop_first().push(fresh_entry(key, value, ttl, now)),
        lookup(
            after_set(s, fresh_entry(key, value, ttl, now), now as int, capacity),
            s[0].key,
            at,
        ) is None,
        forall|i: int|
            1 <= i < capacity ==> lookup(
                after_set(s, fresh_entry(key, value, ttl, now), now as int, capacity),
                (#[trigger] s[i]).key,
                at,
            ) == lookup(s, s[i].key, at),
        at < expiry_at(ttl, now) ==> lookup(
            after_set(s, fresh_entry(key, value, ttl, now), now as int, capacity),
            key,
            at,
        ) == Some(value),
        live_count(
            after_set(s, fresh_entry(key, value, ttl, now), now as int, capacity),
            now as int,
        ) == capacity,
{
    let fresh = fresh_entry(key, value, ttl, now);
    law_eviction(s, fresh, now as int, capacity);
    law_eviction_reads(s, fresh, now as int, capacity, at);
}

/// A write serves no other key: what is read of another key after a write
/// is what was read of it before. Under pressure the other key may have
/// gone, but it is never read with another payload, and never read where it
/// was not read before.
pub proof fn law_write_serves_no_other(
    s: Seq<Entry>,
    fresh: Entry,
    now: int,
    capacity: int,
    other: Seq<char>,
    at: int,
)
    requires
        well_formed(s, capacity),
        other != fresh.key,
    ensures
        lookup(after_set(s, fresh, now, capacity), other, at) is Some ==> lookup(
            after_set(s, fresh, now, capacity),
            other,
            at,
        ) == lookup(s, other, at),
{
    if contains_key(s, fresh.key) || s.len() < capacity {
        law_write_keeps_others(s, fresh, now, capacity, other, at);
    } else {
        let p = purge(s, now);
        lemma_purge_sound(s, now);
        lemma_purge_no_new_key(s, now, fresh.key);
        assert(lookup(p, other, at) is Some ==> lookup(p, other, at) == lookup(s, other, at)) by {
            if contains_key(p, other) {
                let k = position(p, other);
                assert(holds_key(p, other, k));
                assert(s.contains(p[k]));
                let i = choose|i: int| 0 <= i < s.len() && s[i] == p[k];
                assert(holds_key(s, other, i));
                lemma_lookup_at(s, other, i, at);
                lemma_lookup_at(p, other, k, at);
            }
        }
        if p.len() < capacity {
            lemma_lookup_push_other(p, fresh, other, at);
        } else {
            let r = p.remove(0);
            assert(p.drop_first() =~= r);
            lemma_remove(p, 0);
            assert(holds_key(p, p[0].key, 0));
            if contains_key(r, fresh.key) {
                assert(fresh.key != p[0].key);
            }
            lemma_lookup_push_other(r, fresh, other, at);
            if other != p[0].key {
                lemma_lookup_remove_other(p, 0, other, at);
            }
        }
    }
}

/// An overwrite evicts nothing: the store holds the same keys after it as
/// before, in as many records.
pub proof fn law_overwrite_evicts_nothing(
    s: Seq<Entry>,
    fresh: Entry,
    now: int,
    capacity: int,
    key: Seq<char>,
)
    requires
        well_formed(s, capacity),
        contains_key(s, fresh.key),
    ensures
        after_set(s, fresh, now, capacity).len() == s.len(),
        contains_key(after_set(s, fresh, now, capacity), key) <==> contains_key(s, key),
{
    let i = position(s, fresh.key);
    assert(holds_key(s, fresh.key, i));
    lemma_remove(s, i);
    lemma_push(s.remove(i), fresh);
    let r = s.remove(i);
    let t = r.push(fresh);
    if key != fresh.key {
        if contains_key(t, key) {
            let k = position(t, key);
            assert(holds_key(t, key, k));
            assert(holds_key(r, key, k));
        }
        if contains_key(r, key) {
            let k = position(r, key);
            assert(holds_key(r, key, k));
            assert(holds_key(t, key, k));
        }
    }
}

/// The places of `s` whose records have expired at `now`.
pub open spec fn expired_places(s: Seq<Entry>, now: int) -> Set<int> {
    Set::new(|i: int| 0 <= i < s.len() && !s[i].live_at(now))
}

/// The records that a purge drops are as many as have expired.
pub proof fn lemma_expired_count(s: Seq<Entry>, now: int)
    ensures
        expired_places(s, now).finite(),
        expired_places(s, now).len() == s.len() - live_count(s, now),
    decreases s.len(),
{
    if s.len() == 0 {
        assert(expired_places(s, now) =~= Set::<int>::empty());
    } else {
        let rest = s.drop_last();
        lemma_expired_count(rest, now);
        let last = s.len() - 1;
        if s[last].live_at(now) {
            assert(expired_places(s, now) =~= expired_places(rest, now));
        } else {
            assert(expired_places(s, now) =~= expired_places(rest, now).insert(last));
            assert(!expired_places(rest, now).contains(last));
        }
    }
}

/// A sweep removes exactly the expired records: what is left was there and
/// is live, every live record is left, in the order it had, and the number
/// removed is the number of records that had expired.
pub proof fn law_cleanup_exact(s: Seq<Entry>, now: int)
    ensures
        forall|k: int|
            0 <= k < purge(s, now).len() ==> s.contains(#[trigger] purge(s, now)[k]) && purge(
                s,
                now,
            )[k].live_at(now),
        forall|i: int|
            0 <= i < s.len() && (#[trigger] s[i]).live_at(now) ==> purge(s, now).contains(s[i]),
        expired_places(s, now).finite(),
        s.len() - live_count(s, now) == expired_places(s, now).len(),
{
    lemma_purge_sound(s, now);
    lemma_expired_count(s, now);
    assert forall|i: int| 0 <= i < s.len() && (#[trigger] s[i]).live_at(now) implies purge(
        s,
        now,
    ).contains(s[i]) by {
        lemma_purge_complete(s, now, i);
    }
}

/// A second sweep at the time of the first removes nothing.
pub proof fn law_cleanup_twice(s: Seq<Entry>, now: int)
    ensures
        purge(purge(s, now), now) == purge(s, now),
        purge(s, now).len() - live_count(purge(s, now), now) == 0,
{
    lemma_purge_sound(s, now);
    lemma_purge_live(purge(s, now), now);
}

/// A second sweep at another time removes nothing either, where no record
/// that the first sweep left has expired by then.
pub proof fn law_cleanup_again(s: Seq<Entry>, now: int, again: int)
    requires
        all_live(purge(s, now), again),
    ensures
        purge(purge(s, now), again) == purge(s, now),
        purge(s, now).len() - live_count(purge(s, now), again) == 0,
{
    lemma_purge_live(purge(s, now), again);
}

/// Deleting a key that is not held leaves the store unchanged.
pub proof fn law_delete_absent(s: Seq<Entry>, key: Seq<char>)
    requires
        !contains_key(s, key),
    ensures
        after_delete(s, key) == s,
{
}

/// Deleting a key that is held, live or expired, removes its record and no
/// other: the key is absent afterwards and reads of it yield nothing.
pub proof fn law_delete_present(s: Seq<Entry>, key: Seq<char>, at: int)
    requires
        distinct_keys(s),
        contains_key(s, key),
    ensures
        !contains_key(after_delete(s, key), key),
        lookup(after_delete(s, key), key, at) is None,
        after_delete(s, key).len() == s.len() - 1,
{
    let i = position(s, key);
    assert(holds_key(s, key, i));
    lemma_remove(s, i);
}

/// Deleting one key changes no read of another.
pub proof fn law_delete_keeps_others(s: Seq<Entry>, key: Seq<char>, other: Seq<char>, at: int)
    requires
        distinct_keys(s),
        other != key,
    ensures
        lookup(after_delete(s, key), other, at) == lookup(s, other, at),
{
    if contains_key(s, key) {
        let i = position(s, key);
        assert(holds_key(s, key, i));
        lemma_lookup_remove_other(s, i, other, at);
    }
}

} // verus!
