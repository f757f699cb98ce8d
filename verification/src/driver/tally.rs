//! How often user data occurs among operations, timers and entries.
use vstd::multiset::Multiset;
use vstd::prelude::*;

use crate::driver::attempts::{
    cancelled_entries, completions, entry_keys, keys, new_timers, still_pending, timers_have_delays,
    wants_timer, Attempts, OpView,
};
use crate::driver::time::{expires, law_expiry_conserves_timers, timer_entries, timer_runs, TimerView};
use crate::driver::queue::{is_first, lemma_first_exists, without};
use crate::driver::{has_key, Entry, OpObject};

verus! {

/// How often a key occurs.
pub open spec fn times(all: Seq<usize>, key: usize) -> nat
    decreases all.len(),
{
    if all.len() == 0 {
        0
    } else {
        times(all.drop_last(), key) + if all.last() == key {
            1nat
        } else {
            0nat
        }
    }
}

/// The timers with this key.
pub open spec fn timers_of(timers: Multiset<TimerView>, key: usize) -> Multiset<TimerView> {
    timers.filter(|t: TimerView| t.0 == key)
}

/// How many timers with this key run.
pub open spec fn timers_under(timers: Multiset<TimerView>, key: usize) -> nat {
    timers_of(timers, key).len()
}

/// How often entries with this user data were output.
pub open spec fn times_output(entries: Seq<Entry>, key: usize) -> nat {
    times(entry_keys(entries), key)
}

/// One more key.
pub proof fn lemma_times_push(all: Seq<usize>, k: usize, key: usize)
    ensures
        times(all.push(k), key) == times(all, key) + if k == key {
            1nat
        } else {
            0nat
        },
{
    assert(all.push(k).drop_last() =~= all);
}

/// The keys of two sequences, one behind the other.
pub proof fn lemma_times_add(a: Seq<usize>, b: Seq<usize>, key: usize)
    ensures
        times(a + b, key) == times(a, key) + times(b, key),
    decreases b.len(),
{
    if b.len() == 0 {
        assert(a + b =~= a);
    } else {
        lemma_times_add(a, b.drop_last(), key);
        assert((a + b).drop_last() =~= a + b.drop_last());
        assert((a + b).last() == b.last());
    }
}

/// The entries of two sequences, one behind the other.
pub proof fn lemma_output_add(a: Seq<Entry>, b: Seq<Entry>, key: usize)
    ensures
        times_output(a + b, key) == times_output(a, key) + times_output(b, key),
{
    assert(entry_keys(a + b) =~= entry_keys(a) + entry_keys(b));
    lemma_times_add(entry_keys(a), entry_keys(b), key);
}

/// The timers of two sets.
pub proof fn lemma_timers_add(a: Multiset<TimerView>, b: Multiset<TimerView>, key: usize)
    ensures
        timers_under(a.add(b), key) == timers_under(a, key) + timers_under(b, key),
{
    assert(timers_of(a.add(b), key) =~= timers_of(a, key).add(timers_of(b, key)));
}

/// One more timer.
pub proof fn lemma_timers_insert(timers: Multiset<TimerView>, t: TimerView, key: usize)
    ensures
        timers_under(timers.insert(t), key) == timers_under(timers, key) + if t.0 == key {
            1nat
        } else {
            0nat
        },
{
    lemma_timers_add(timers, Multiset::singleton(t), key);
    if t.0 == key {
        assert(timers_of(Multiset::singleton(t), key) =~= Multiset::singleton(t));
    } else {
        assert(timers_of(Multiset::singleton(t), key) =~= Multiset::empty());
    }
}

/// Timers that have fallen due are output once each.
pub proof fn lemma_due_output(due: Seq<TimerView>, key: usize)
    ensures
        timers_under(due.to_multiset(), key) == times_output(timer_entries(due), key),
    decreases due.len(),
{
    broadcast use vstd::seq_lib::group_to_multiset_ensures;

    if due.len() == 0 {
        assert(due.to_multiset() =~= Multiset::empty());
        assert(timers_of(due.to_multiset(), key) =~= Multiset::empty());
    } else {
        let rest = due.drop_last();
        lemma_due_output(rest, key);
        assert(due =~= rest.push(due.last()));
        lemma_timers_insert(rest.to_multiset(), due.last(), key);
        assert(entry_keys(timer_entries(due)) =~= entry_keys(timer_entries(rest)).push(due.last().0));
        lemma_times_push(entry_keys(timer_entries(rest)), due.last().0, key);
    }
}

/// Expiry moves timers to the output.
pub proof fn lemma_expiry_tally(
    before: Multiset<TimerView>,
    now: nat,
    due: Seq<TimerView>,
    left: Multiset<TimerView>,
    key: usize,
)
    requires
        expires(before, now, due, left),
    ensures
        timers_under(before, key) == timers_under(left, key) + times_output(timer_entries(due), key),
{
    law_expiry_conserves_timers(before, now, due, left);
    lemma_timers_add(left, due.to_multiset(), key);
    lemma_due_output(due, key);
}

/// Cancelled operations are output once each.
pub proof fn lemma_cancelled_tally(cancelled: Seq<usize>, key: usize)
    ensures
        times_output(cancelled_entries(cancelled), key) == times(cancelled, key),
{
    assert(entry_keys(cancelled_entries(cancelled)) =~= cancelled);
}

/// Each of the queued operations is pending afterwards, or output, or its timer is set.
pub proof fn lemma_submission_tally(ops: Seq<OpView>, attempts: Attempts, key: usize)
    requires
        attempts.len() == ops.len(),
        timers_have_delays(ops, attempts),
    ensures
        times(keys(ops), key) == times(keys(still_pending(ops, attempts)), key) + times_output(
            completions(ops, attempts),
            key,
        ) + timers_under(new_timers(ops, attempts), key),
    decreases ops.len(),
{
    if ops.len() == 0 {
        assert(timers_of(new_timers(ops, attempts), key) =~= Multiset::empty());
    } else {
        let (front, before) = (ops.drop_last(), attempts.drop_last());
        assert(timers_have_delays(front, before)) by {
            assert forall|i: int|
                0 <= i < front.len() && wants_timer((#[trigger] before[i]).0) implies front[i].1 is Some by {
                assert(attempts[i] == before[i]);
            }
        }
        lemma_submission_tally(front, before, key);
        let op = ops.last();
        let last = attempts[attempts.len() - 1];
        assert(wants_timer(last.0) ==> op.1 is Some);
        assert(keys(ops) =~= keys(front).push(op.0));
        lemma_times_push(keys(front), op.0, key);
        if last.0 is None {
            assert(keys(still_pending(ops, attempts)) =~= keys(still_pending(front, before)).push(op.0));
            lemma_times_push(keys(still_pending(front, before)), op.0, key);
        } else if wants_timer(last.0) {
            lemma_timers_insert(
                new_timers(front, before),
                (op.0, crate::time::after(last.1, op.1->0@)),
                key,
            );
        } else {
            assert(entry_keys(completions(ops, attempts)) =~= entry_keys(
                completions(front, before),
            ).push(op.0));
            lemma_times_push(entry_keys(completions(front, before)), op.0, key);
        }
    }
}

/// A key that occurs is among the keys, and once if none occurs twice.
pub proof fn lemma_times_some(all: Seq<usize>, key: usize)
    ensures
        times(all, key) > 0 <==> all.contains(key),
        all.no_duplicates() ==> times(all, key) <= 1,
    decreases all.len(),
{
    if all.len() > 0 {
        let front = all.drop_last();
        lemma_times_some(front, key);
        if front.contains(key) {
            let i = choose|i: int| 0 <= i < front.len() && front[i] == key;
            assert(all[i] == key);
        }
        if all.contains(key) && all.last() != key {
            let i = choose|i: int| 0 <= i < all.len() && all[i] == key;
            assert(front[i] == key);
        }
        if all.last() == key {
            assert(all[all.len() - 1] == key);
        }
    }
}

/// There are timers with a key exactly if one runs.
pub proof fn lemma_timers_some(timers: Multiset<TimerView>, key: usize)
    ensures
        timers_under(timers, key) > 0 <==> timer_runs(timers, key),
{
    broadcast use vstd::multiset::group_multiset_axioms;

    let those = timers_of(timers, key);
    if those.len() > 0 {
        let t = those.choose();
        assert(those.count(t) > 0);
        assert(timers.contains(t));
    }
    if timer_runs(timers, key) {
        let t = choose|t: TimerView| #[trigger] timers.contains(t) && t.0 == key;
        assert(those.count(t) == timers.count(t));
        assert(those.count(t) <= those.len());
    }
}

/// The user data of queued operations, the front of the queue first.
pub open spec fn op_keys<'arena, O>(ops: Seq<OpObject<'arena, O>>) -> Seq<usize> {
    ops.map_values(|op: OpObject<'arena, O>| op.user_data)
}

/// What is taken out of a queue by its user data is one operation with that user data.
pub proof fn lemma_without_tally<'arena, O>(ops: Seq<OpObject<'arena, O>>, user_data: usize, key: usize)
    ensures
        times(op_keys(ops), key) == times(op_keys(without(ops, user_data)), key) + if has_key(ops, user_data)
            && key == user_data {
            1nat
        } else {
            0nat
        },
{
    if has_key(ops, user_data) {
        let i = choose|i: int| 0 <= i < ops.len() && (#[trigger] ops[i]).user_data == user_data;
        lemma_first_exists(ops, user_data, i);
        let p = choose|p: int| is_first(ops, user_data, p);
        let all = op_keys(ops);
        let front = all.take(p);
        let behind = all.skip(p + 1);
        assert(op_keys(without(ops, user_data)) =~= front + behind);
        assert(all =~= front.push(user_data) + behind);
        lemma_times_push(front, user_data, key);
        lemma_times_add(front.push(user_data), behind, key);
        lemma_times_add(front, behind, key);
    } else {
        assert forall|p: int| !is_first(ops, user_data, p) by {
            if is_first(ops, user_data, p) {
                assert(ops[p].user_data == user_data);
            }
        }
    }
}

/// An operation is among those that are queued exactly if its user data is among theirs.
pub proof fn lemma_has_key<'arena, O>(ops: Seq<OpObject<'arena, O>>, key: usize)
    ensures
        times(op_keys(ops), key) > 0 <==> has_key(ops, key),
{
    let all = op_keys(ops);
    lemma_times_some(all, key);
    if has_key(ops, key) {
        let i = choose|i: int| 0 <= i < ops.len() && (#[trigger] ops[i]).user_data == key;
        assert(all[i] == key);
    }
    if all.contains(key) {
        let i = choose|i: int| 0 <= i < all.len() && all[i] == key;
        assert(ops[i].user_data == key);
    }
}

} // verus!
