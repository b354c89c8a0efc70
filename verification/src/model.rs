//! The store as a sequence of records in recency order, least recently used
//! first, and what each operation does to it.

use vstd::prelude::*;
use crate::entry::Entry;

verus! {

/// `i` is a position of `s` that holds `key`.
pub open spec fn holds_key(s: Seq<Entry>, key: Seq<char>, i: int) -> bool {
    0 <= i < s.len() && s[i].key == key
}

/// Some record of `s` has `key`, live or not.
pub open spec fn contains_key(s: Seq<Entry>, key: Seq<char>) -> bool {
    exists|i: int| holds_key(s, key, i)
}

/// A position of `key` in `s`; meaningful where `contains_key` holds.
pub open spec fn position(s: Seq<Entry>, key: Seq<char>) -> int {
    choose|i: int| holds_key(s, key, i)
}

/// No key occurs twice.
pub open spec fn distinct_keys(s: Seq<Entry>) -> bool {
    forall|i: int, j: int| 0 <= i < j < s.len() ==> s[i].key != s[j].key
}

/// Every record expires after it was created.
pub open spec fn all_valid(s: Seq<Entry>) -> bool {
    forall|i: int| 0 <= i < s.len() ==> (#[trigger] s[i]).valid()
}

/// Every record is live at `now`.
pub open spec fn all_live(s: Seq<Entry>, now: int) -> bool {
    forall|i: int| 0 <= i < s.len() ==> (#[trigger] s[i]).live_at(now)
}

/// What a store of the given capacity may hold.
pub open spec fn well_formed(s: Seq<Entry>, capacity: int) -> bool {
    &&& 0 < capacity
    &&& s.len() <= capacity
    &&& distinct_keys(s)
    &&& all_valid(s)
}

/// The payload that a read of `key` at `now` yields: that of the record with
/// this key if it is live, nothing otherwise.
pub open spec fn lookup(s: Seq<Entry>, key: Seq<char>, now: int) -> Option<Seq<char>> {
    if contains_key(s, key) && s[position(s, key)].live_at(now) {
        Some(s[position(s, key)].value)
    } else {
        None
    }
}

/// The records of `s` that are live at `now`, in their order.
pub open spec fn purge(s: Seq<Entry>, now: int) -> Seq<Entry>
    decreases s.len(),
{
    if s.len() == 0 {
        s
    } else if s.last().live_at(now) {
        purge(s.drop_last(), now).push(s.last())
    } else {
        purge(s.drop_last(), now)
    }
}

/// The number of records of `s` that are live at `now`.
pub open spec fn live_count(s: Seq<Entry>, now: int) -> nat {
    purge(s, now).len()
}

/// The store after a read of `key` at `now`: a live record moves to the
/// most recently used end, an expired one is dropped.
pub open spec fn after_get(s: Seq<Entry>, key: Seq<char>, now: int) -> Seq<Entry> {
    if contains_key(s, key) {
        let i = position(s, key);
        if s[i].live_at(now) {
            s.remove(i).push(s[i])
        } else {
            s.remove(i)
        }
    } else {
        s
    }
}

/// The store after `key` is deleted.
pub open spec fn after_delete(s: Seq<Entry>, key: Seq<char>) -> Seq<Entry> {
    if contains_key(s, key) {
        s.remove(position(s, key))
    } else {
        s
    }
}

/// The store after `fresh` is written at `now`. An overwrite takes the place
/// of the record that it replaces and of no other. A new key goes into a free
/// slot if there is one, else into the room that the expired records leave,
/// else into the slot of the least recently used record. In each case the
/// record written is the most recently used.
pub open spec fn after_set(s: Seq<Entry>, fresh: Entry, now: int, capacity: int) -> Seq<Entry> {
    if contains_key(s, fresh.key) {
        s.remove(position(s, fresh.key)).push(fresh)
    } else if s.len() < capacity {
        s.push(fresh)
    } else if purge(s, now).len() < capacity {
        purge(s, now).push(fresh)
    } else {
        purge(s, now).drop_first().push(fresh)
    }
}

/// A read of `key` at `now` gave `result` and turned `before` into `after`.
pub open spec fn read_at(
    before: Seq<Entry>,
    key: Seq<char>,
    now: u64,
    result: Option<Seq<char>>,
    after: Seq<Entry>,
) -> bool {
    result == lookup(before, key, now as int) && after == after_get(before, key, now as int)
}

/// A sweep at `now` dropped `removed` records and turned `before` into
/// `after`.
pub open spec fn swept_at(before: Seq<Entry>, now: u64, removed: usize, after: Seq<Entry>) -> bool {
    after == purge(before, now as int) && removed == before.len() - live_count(before, now as int)
}

/// `n` records of `s` are live at `now`.
pub open spec fn counted_at(s: Seq<Entry>, now: u64, n: usize) -> bool {
    n == live_count(s, now as int)
}

/// With distinct keys, the position of a key is the one place that holds it.
pub proof fn lemma_position(s: Seq<Entry>, key: Seq<char>, i: int)
    requires
        distinct_keys(s),
        holds_key(s, key, i),
    ensures
        contains_key(s, key),
        position(s, key) == i,
{
    let p = position(s, key);
    assert(holds_key(s, key, p));
    if p < i {
        assert(s[p].key != s[i].key);
    } else if i < p {
        assert(s[i].key != s[p].key);
    }
}

/// With distinct keys, a lookup is decided by the one record that holds the
/// key.
pub proof fn lemma_lookup_at(s: Seq<Entry>, key: Seq<char>, i: int, now: int)
    requires
        distinct_keys(s),
        holds_key(s, key, i),
    ensures
        lookup(s, key, now) == if s[i].live_at(now) {
            Some(s[i].value)
        } else {
            None
        },
{
    lemma_position(s, key, i);
}

/// Taking a record out keeps the others distinct and valid, and leaves no
/// record with its key; every other key is where it was, one place down if
/// it stood behind.
pub proof fn lemma_remove(s: Seq<Entry>, i: int)
    requires
        distinct_keys(s),
        0 <= i < s.len(),
    ensures
        distinct_keys(s.remove(i)),
        all_valid(s) ==> all_valid(s.remove(i)),
        !contains_key(s.remove(i), s[i].key),
        forall|key: Seq<char>|
            key != s[i].key ==> (#[trigger] contains_key(s.remove(i), key) <==> contains_key(
                s,
                key,
            )),
{
    let r = s.remove(i);
    assert forall|a: int, b: int| 0 <= a < b < r.len() implies r[a].key != r[b].key by {
        let a0 = if a < i { a } else { a + 1 };
        let b0 = if b < i { b } else { b + 1 };
        assert(s[a0].key != s[b0].key);
    }
    if all_valid(s) {
        assert forall|a: int| 0 <= a < r.len() implies (#[trigger] r[a]).valid() by {
            let a0 = if a < i { a } else { a + 1 };
            assert(s[a0].valid());
        }
    }
    if contains_key(r, s[i].key) {
        let a = position(r, s[i].key);
        assert(holds_key(r, s[i].key, a));
        let a0 = if a < i { a } else { a + 1 };
        if a0 < i {
            assert(s[a0].key != s[i].key);
        } else {
            assert(s[i].key != s[a0].key);
        }
    }
    assert forall|key: Seq<char>| key != s[i].key implies (#[trigger] contains_key(r, key)
        <==> contains_key(s, key)) by {
        if contains_key(r, key) {
            let a = position(r, key);
            assert(holds_key(r, key, a));
            let a0 = if a < i { a } else { a + 1 };
            assert(holds_key(s, key, a0));
        }
        if contains_key(s, key) {
            let a0 = position(s, key);
            assert(holds_key(s, key, a0));
            let a = if a0 < i { a0 } else { a0 - 1 };
            assert(holds_key(r, key, a));
        }
    }
}

/// A record with a new key, put at the end, keeps the keys distinct.
pub proof fn lemma_push(s: Seq<Entry>, e: Entry)
    requires
        distinct_keys(s),
        !contains_key(s, e.key),
    ensures
        distinct_keys(s.push(e)),
        all_valid(s) && e.valid() ==> all_valid(s.push(e)),
        holds_key(s.push(e), e.key, s.len() as int),
{
    let r = s.push(e);
    assert forall|a: int, b: int| 0 <= a < b < r.len() implies r[a].key != r[b].key by {
        if b == s.len() {
            assert(!holds_key(s, e.key, a));
        } else {
            assert(s[a].key != s[b].key);
        }
    }
    if all_valid(s) && e.valid() {
        assert forall|a: int| 0 <= a < r.len() implies (#[trigger] r[a]).valid() by {
            if a < s.len() {
                assert(s[a].valid());
            }
        }
    }
}

/// Purging takes the last record along exactly when it is live.
pub proof fn lemma_purge_push(s: Seq<Entry>, e: Entry, now: int)
    ensures
        purge(s.push(e), now) == if e.live_at(now) {
            purge(s, now).push(e)
        } else {
            purge(s, now)
        },
{
    assert(s.push(e).drop_last() =~= s);
}

/// Purging two stretches one after the other is purging them as one.
pub proof fn lemma_purge_concat(a: Seq<Entry>, b: Seq<Entry>, now: int)
    ensures
        purge(a + b, now) == purge(a, now) + purge(b, now),
    decreases b.len(),
{
    if b.len() == 0 {
        assert(a + b =~= a);
        assert(purge(a, now) + purge(b, now) =~= purge(a, now));
    } else {
        lemma_purge_concat(a, b.drop_last(), now);
        assert((a + b).drop_last() =~= a + b.drop_last());
        assert((a + b).last() == b.last());
        if b.last().live_at(now) {
            assert(purge(a, now) + purge(b.drop_last(), now).push(b.last()) =~= (purge(a, now)
                + purge(b.drop_last(), now)).push(b.last()));
        }
    }
}

/// What is left after a purge is live and was there before; keys stay
/// distinct and records valid.
pub proof fn lemma_purge_sound(s: Seq<Entry>, now: int)
    ensures
        purge(s, now).len() <= s.len(),
        all_live(purge(s, now), now),
        forall|k: int| 0 <= k < purge(s, now).len() ==> s.contains(#[trigger] purge(s, now)[k]),
        forall|k: int|
            0 <= k < purge(s, now).len() ==> contains_key(s, (#[trigger] purge(s, now)[k]).key),
        distinct_keys(s) ==> distinct_keys(purge(s, now)),
        all_valid(s) ==> all_valid(purge(s, now)),
    decreases s.len(),
{
    if s.len() > 0 {
        let rest = s.drop_last();
        lemma_purge_sound(rest, now);
        let p = purge(s, now);
        let q = purge(rest, now);
        assert forall|k: int| 0 <= k < p.len() implies s.contains(#[trigger] p[k]) by {
            if k < q.len() {
                assert(rest.contains(q[k]));
                let i = choose|i: int| 0 <= i < rest.len() && rest[i] == q[k];
                assert(s[i] == p[k]);
            } else {
                assert(s[s.len() - 1] == p[k]);
            }
        }
        assert forall|k: int| 0 <= k < p.len() implies contains_key(s, (#[trigger] p[k]).key) by {
            if k < q.len() {
                assert(contains_key(rest, q[k].key));
                let i = position(rest, q[k].key);
                assert(holds_key(rest, q[k].key, i));
                assert(holds_key(s, p[k].key, i));
            } else {
                assert(holds_key(s, p[k].key, s.len() - 1));
            }
        }
        if distinct_keys(s) {
            assert(distinct_keys(rest)) by {
                assert forall|i: int, j: int| 0 <= i < j < rest.len() implies rest[i].key
                    != rest[j].key by {
                    assert(s[i].key != s[j].key);
                }
            }
            assert forall|i: int, j: int| 0 <= i < j < p.len() implies p[i].key != p[j].key by {
                if j == q.len() {
                    assert(contains_key(rest, q[i].key));
                    let m = position(rest, q[i].key);
                    assert(holds_key(rest, q[i].key, m));
                    assert(s[m].key != s[s.len() - 1].key);
                }
            }
        }
        if all_valid(s) {
            assert(all_valid(rest)) by {
                assert forall|i: int| 0 <= i < rest.len() implies (#[trigger] rest[i]).valid() by {
                    assert(s[i].valid());
                }
            }
            assert forall|k: int| 0 <= k < p.len() implies (#[trigger] p[k]).valid() by {
                if k == q.len() {
                    assert(s[s.len() - 1].valid());
                }
            }
        }
    }
}

/// A purge keeps every record that is live.
pub proof fn lemma_purge_complete(s: Seq<Entry>, now: int, i: int)
    requires
        0 <= i < s.len(),
        s[i].live_at(now),
    ensures
        purge(s, now).contains(s[i]),
    decreases s.len(),
{
    let p = purge(s, now);
    if i == s.len() - 1 {
        assert(p[p.len() - 1] == s[i]);
    } else {
        let rest = s.drop_last();
        lemma_purge_complete(rest, now, i);
        let q = purge(rest, now);
        let k = choose|k: int| 0 <= k < q.len() && q[k] == rest[i];
        assert(p[k] == s[i]);
    }
}

/// A purge that removes nothing leaves the store as it was, and then every
/// record is live.
pub proof fn lemma_purge_same_len(s: Seq<Entry>, now: int)
    requires
        purge(s, now).len() == s.len(),
    ensures
        purge(s, now) == s,
        all_live(s, now),
    decreases s.len(),
{
    if s.len() > 0 {
        let rest = s.drop_last();
        lemma_purge_sound(rest, now);
        lemma_purge_same_len(rest, now);
        assert(purge(s, now) =~= s);
        assert forall|i: int| 0 <= i < s.len() implies (#[trigger] s[i]).live_at(now) by {
            if i < rest.len() {
                assert(rest[i].live_at(now));
            }
        }
    }
}

/// Where every record is live, a purge removes nothing.
pub proof fn lemma_purge_live(s: Seq<Entry>, now: int)
    requires
        all_live(s, now),
    ensures
        purge(s, now) == s,
    decreases s.len(),
{
    if s.len() > 0 {
        let rest = s.drop_last();
        assert(all_live(rest, now)) by {
            assert forall|i: int| 0 <= i < rest.len() implies (#[trigger] rest[i]).live_at(now) by {
                assert(s[i].live_at(now));
            }
        }
        lemma_purge_live(rest, now);
        assert(s[s.len() - 1].live_at(now));
        assert(purge(s, now) =~= s);
    }
}

} // verus!
