//! Sequences of operations on the store, and what holds after any of them.

use vstd::prelude::*;
use crate::entry::Entry;
use crate::laws::{
    law_delete_keeps_bound, law_get_keeps_bound, law_purge_keeps_bound, law_read_after_write,
    law_read_keeps_others, law_read_keeps_own, law_set_keeps_bound, law_write_keeps_others,
};
use crate::model::{
    after_delete, after_get, after_set, contains_key, live_count, lookup, purge, well_formed,
};

verus! {

/// One operation that changes the store, with the time it is made at where
/// it depends on one.
pub enum Op {
    /// A read of `key` at `now`.
    Read { key: Seq<char>, now: int },
    /// A write of the record `fresh` at `now`.
    Write { fresh: Entry, now: int },
    /// The removal of `key`.
    Delete { key: Seq<char> },
    /// The removal of every record.
    Clear,
    /// A sweep of the expired records at `now`.
    Sweep { now: int },
}

impl Op {
    /// A write stores a record that expires after it is created, as every
    /// accepted write does; the other operations are always in order.
    pub open spec fn admissible(self) -> bool {
        self matches Op::Write { fresh, .. } ==> fresh.valid()
    }
}

/// The store after one operation.
pub open spec fn apply(s: Seq<Entry>, op: Op, capacity: int) -> Seq<Entry> {
    match op {
        Op::Read { key, now } => after_get(s, key, now),
        Op::Write { fresh, now } => after_set(s, fresh, now, capacity),
        Op::Delete { key } => after_delete(s, key),
        Op::Clear => Seq::empty(),
        Op::Sweep { now } => purge(s, now),
    }
}

/// The store after the operations `ops`, made in their order.
pub open spec fn run(s: Seq<Entry>, ops: Seq<Op>, capacity: int) -> Seq<Entry>
    decreases ops.len(),
{
    if ops.len() == 0 {
        s
    } else {
        apply(run(s, ops.drop_last(), capacity), ops.last(), capacity)
    }
}

/// Every operation of `ops` is admissible.
pub open spec fn all_admissible(ops: Seq<Op>) -> bool {
    forall|i: int| 0 <= i < ops.len() ==> (#[trigger] ops[i]).admissible()
}

/// One operation leaves a well-formed store well-formed.
pub proof fn law_step_keeps_bound(s: Seq<Entry>, op: Op, capacity: int)
    requires
        well_formed(s, capacity),
        op.admissible(),
    ensures
        well_formed(apply(s, op, capacity), capacity),
{
    match op {
        Op::Read { key, now } => law_get_keeps_bound(s, key, now, capacity),
        Op::Write { fresh, now } => law_set_keeps_bound(s, fresh, now, capacity),
        Op::Delete { key } => law_delete_keeps_bound(s, key, capacity),
        Op::Clear => {},
        Op::Sweep { now } => law_purge_keeps_bound(s, now, capacity),
    }
}

/// After any sequence of operations the store holds at most `capacity`
/// records, with distinct keys, and so at most `capacity` live ones at any
/// time.
pub proof fn law_never_over_capacity(s: Seq<Entry>, ops: Seq<Op>, capacity: int, at: int)
    requires
        well_formed(s, capacity),
        all_admissible(ops),
    ensures
        well_formed(run(s, ops, capacity), capacity),
        run(s, ops, capacity).len() <= capacity,
        live_count(run(s, ops, capacity), at) <= capacity,
    decreases ops.len(),
{
    if ops.len() > 0 {
        let earlier = ops.drop_last();
        assert(all_admissible(earlier)) by {
            assert forall|i: int| 0 <= i < earlier.len() implies (#[trigger] earlier[i]).admissible() by {
                assert(ops[i].admissible());
            }
        }
        law_never_over_capacity(s, earlier, capacity, at);
        assert(ops[ops.len() - 1].admissible());
        law_step_keeps_bound(run(s, earlier, capacity), ops.last(), capacity);
    }
    law_purge_keeps_bound(run(s, ops, capacity), at, capacity);
}

/// The record that `ops` wrote last under `key`, if they wrote one.
pub open spec fn last_written(ops: Seq<Op>, key: Seq<char>) -> Option<Entry>
    decreases ops.len(),
{
    if ops.len() == 0 {
        None
    } else {
        match ops.last() {
            Op::Write { fresh, .. } => if fresh.key == key {
                Some(fresh)
            } else {
                last_written(ops.drop_last(), key)
            },
            _ => last_written(ops.drop_last(), key),
        }
    }
}

/// `ops` are reads and writes only, made on `s` with no expiry elapsed by
/// the time `at` and no eviction pressure: every read is made at `at` at the
/// latest, every record written is still live at `at`, and every write finds
/// its key held or a slot free.
pub open spec fn calm(s: Seq<Entry>, ops: Seq<Op>, capacity: int, at: int) -> bool
    decreases ops.len(),
{
    ops.len() == 0 || {
        let before = run(s, ops.drop_last(), capacity);
        &&& calm(s, ops.drop_last(), capacity, at)
        &&& match ops.last() {
            Op::Read { key, now } => now <= at,
            Op::Write { fresh, now } => fresh.valid() && fresh.live_at(at) && (contains_key(
                before,
                fresh.key,
            ) || before.len() < capacity),
            _ => false,
        }
    }
}

/// Calm operations are admissible.
pub proof fn lemma_calm_admissible(s: Seq<Entry>, ops: Seq<Op>, capacity: int, at: int)
    requires
        calm(s, ops, capacity, at),
    ensures
        all_admissible(ops),
    decreases ops.len(),
{
    if ops.len() > 0 {
        let earlier = ops.drop_last();
        lemma_calm_admissible(s, earlier, capacity, at);
        assert forall|i: int| 0 <= i < ops.len() implies (#[trigger] ops[i]).admissible() by {
            if i < earlier.len() {
                assert(earlier[i].admissible());
            }
        }
    }
}

/// The last writer wins: after any sequence of reads and writes with no
/// expiry elapsed and no eviction pressure, a read of a key yields the
/// payload most recently written under it.
pub proof fn law_last_writer_wins(
    s: Seq<Entry>,
    ops: Seq<Op>,
    capacity: int,
    key: Seq<char>,
    at: int,
)
    requires
        well_formed(s, capacity),
        calm(s, ops, capacity, at),
        last_written(ops, key) is Some,
    ensures
        lookup(run(s, ops, capacity), key, at) == Some(last_written(ops, key)->0.value),
    decreases ops.len(),
{
    let earlier = ops.drop_last();
    let before = run(s, earlier, capacity);
    lemma_calm_admissible(s, earlier, capacity, at);
    law_never_over_capacity(s, earlier, capacity, at);
    match ops.last() {
        Op::Read { key: read, now } => {
            law_last_writer_wins(s, earlier, capacity, key, at);
            if read == key {
                law_read_keeps_own(before, key, now, at);
            } else {
                law_read_keeps_others(before, read, now, key, at);
            }
        },
        Op::Write { fresh, now } => {
            if fresh.key == key {
                law_read_after_write(before, fresh, now, capacity, at);
            } else {
                law_last_writer_wins(s, earlier, capacity, key, at);
                law_write_keeps_others(before, fresh, now, capacity, key, at);
            }
        },
        _ => {},
    }
}

} // verus!
