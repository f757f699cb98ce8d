//! What the attempts at queued operations come to.
use vstd::multiset::Multiset;
use vstd::prelude::*;

use crate::driver::time::TimerView;
use crate::driver::{has_key, Entry, OpObject};
use crate::error::{IoError, IoResult};
use crate::time::{after, Clock, Duration};

verus! {

/// What an attempt at an operation came to: nothing as long as it would block.
pub type Operated = Option<IoResult<usize>>;

/// The result by which an operation asks for a timer.
pub const TIMER_PENDING: usize = usize::MAX - 2;

/// The attempt asks for a timer.
pub open spec fn wants_timer(operated: Operated) -> bool {
    operated == Some(Ok::<usize, IoError>(TIMER_PENDING))
}

/// An operation as the contracts speak of it: its user data, and its delay if it is a timer.
pub type OpView = (usize, Option<Duration>);

/// The user data of operations.
pub open spec fn keys(ops: Seq<OpView>) -> Seq<usize> {
    ops.map_values(|op: OpView| op.0)
}

/// What the attempts at some operations came to, and when each was made.
pub type Attempts = Seq<(Operated, nat)>;

/// `i` can be a place in a sequence.
pub open spec fn place(i: int) -> bool {
    0 <= i
}

/// The attempts that ask for a timer were made at times that the clock shows.
pub open spec fn made_on_time(clock: Clock, attempts: Attempts) -> bool {
    forall|i: int|
        0 <= i < attempts.len() && wants_timer((#[trigger] attempts[i]).0) ==> clock.shows(
            attempts[i].1,
        )
}

/// Only operations with a delay ask for a timer.
pub open spec fn timers_have_delays(ops: Seq<OpView>, attempts: Attempts) -> bool {
    forall|i: int| 0 <= i < ops.len() && wants_timer((#[trigger] attempts[i]).0) ==> ops[i].1 is Some
}

/// Those of the operations that would block, in their order.
pub open spec fn still_pending<T>(ops: Seq<T>, attempts: Attempts) -> Seq<T>
    decreases ops.len(),
{
    if ops.len() == 0 {
        Seq::empty()
    } else {
        let rest = still_pending(ops.drop_last(), attempts.drop_last());
        if attempts.last().0 is None {
            rest.push(ops.last())
        } else {
            rest
        }
    }
}

/// The entries of the operations that have completed, in their order.
pub open spec fn completions(ops: Seq<OpView>, attempts: Attempts) -> Seq<Entry>
    decreases ops.len(),
{
    if ops.len() == 0 {
        Seq::empty()
    } else {
        let rest = completions(ops.drop_last(), attempts.drop_last());
        match attempts.last().0 {
            Some(result) if !wants_timer(attempts.last().0) => rest.push(
                Entry { user_data: ops.last().0, result },
            ),
            _ => rest,
        }
    }
}

/// The timers that are set.
pub open spec fn new_timers(ops: Seq<OpView>, attempts: Attempts) -> Multiset<(usize, nat)>
    decreases ops.len(),
{
    if ops.len() == 0 {
        Multiset::empty()
    } else {
        let rest = new_timers(ops.drop_last(), attempts.drop_last());
        if wants_timer(attempts.last().0) && ops.last().1 is Some {
            rest.insert((ops.last().0, after(attempts.last().1, ops.last().1->0@)))
        } else {
            rest
        }
    }
}

/// The attempts that go with a first few operations are the first few attempts.
pub proof fn lemma_attempts_push(ops: Seq<OpView>, attempts: Attempts, op: OpView, attempt: (Operated, nat))
    requires
        ops.len() == attempts.len(),
    ensures
        still_pending(ops.push(op), attempts.push(attempt)) == if attempt.0 is None {
            still_pending(ops, attempts).push(op)
        } else {
            still_pending(ops, attempts)
        },
        completions(ops.push(op), attempts.push(attempt)) == match attempt.0 {
            Some(result) if !wants_timer(attempt.0) => completions(ops, attempts).push(
                Entry { user_data: op.0, result },
            ),
            _ => completions(ops, attempts),
        },
        new_timers(ops.push(op), attempts.push(attempt)) == if wants_timer(attempt.0) && op.1 is Some {
            new_timers(ops, attempts).insert((op.0, after(attempt.1, op.1->0@)))
        } else {
            new_timers(ops, attempts)
        },
{
    assert(ops.push(op).drop_last() =~= ops);
    assert(attempts.push(attempt).drop_last() =~= attempts);
}

/// As above, for whatever is said of the operations.
pub proof fn lemma_still_pending_push<T>(ops: Seq<T>, attempts: Attempts, op: T, attempt: (Operated, nat))
    ensures
        still_pending(ops.push(op), attempts.push(attempt)) == if attempt.0 is None {
            still_pending(ops, attempts).push(op)
        } else {
            still_pending(ops, attempts)
        },
{
    assert(ops.push(op).drop_last() =~= ops);
    assert(attempts.push(attempt).drop_last() =~= attempts);
}

/// The entries of cancelled operations, in their order.
pub open spec fn cancelled_entries(cancelled: Seq<usize>) -> Seq<Entry> {
    cancelled.map_values(|u: usize| Entry { user_data: u, result: Err(IoError::Cancelled) })
}

/// What a cancellation takes out of two queues, to be output.
pub open spec fn cancellations<'arena, O>(
    first: Seq<OpObject<'arena, O>>,
    second: Seq<OpObject<'arena, O>>,
    user_data: usize,
) -> Seq<usize> {
    let one = if has_key(first, user_data) {
        seq![user_data]
    } else {
        Seq::empty()
    };
    if has_key(second, user_data) {
        one.push(user_data)
    } else {
        one
    }
}

/// What is to be output after some more cancellations.
pub proof fn lemma_cancelled_add(cancelled: Seq<usize>, more: Seq<usize>)
    ensures
        forall|u: usize| #[trigger]
            (cancelled + more).contains(u) == (cancelled.contains(u) || more.contains(u)),
{
    assert forall|u: usize| #[trigger]
        (cancelled + more).contains(u) == (cancelled.contains(u) || more.contains(u)) by {
        if cancelled.contains(u) {
            let i = choose|i: int| 0 <= i < cancelled.len() && cancelled[i] == u;
            assert((cancelled + more)[i] == u);
        }
        if more.contains(u) {
            let i = choose|i: int| 0 <= i < more.len() && more[i] == u;
            assert((cancelled + more)[cancelled.len() + i] == u);
        }
    }
}

/// Reports the cancelled operations.
pub fn report_cancelled(cancelled: &mut Vec<usize>, entries: &mut Vec<Entry>)
    ensures
        final(cancelled)@.len() == 0,
        final(entries)@ == old(entries)@ + cancelled_entries(old(cancelled)@),
{
    let mut i: usize = 0;
    proof {
        assert(entries@ + cancelled_entries(cancelled@.take(0)) =~= entries@);
    }
    while i < cancelled.len()
        invariant
            i <= cancelled.len(),
            cancelled@ == old(cancelled)@,
            entries@ == old(entries)@ + cancelled_entries(cancelled@.take(i as int)),
        decreases cancelled.len() - i,
    {
        entries.push(Entry::new(cancelled[i], Err(IoError::Cancelled)));
        proof {
            assert(entries@ =~= old(entries)@ + cancelled_entries(cancelled@.take(i + 1)));
        }
        i += 1;
    }
    proof {
        assert(cancelled@.take(i as int) =~= cancelled@);
    }
    cancelled.clear();
}

/// The user data of entries.
pub open spec fn entry_keys(entries: Seq<Entry>) -> Seq<usize> {
    entries.map_values(|entry: Entry| entry.user_data)
}

/// The user data of timers.
pub open spec fn timer_keys(timers: Seq<TimerView>) -> Seq<usize> {
    timers.map_values(|timer: TimerView| timer.0)
}

/// The timers that are set, in the order of the operations that ask for them.
pub open spec fn timers_set(ops: Seq<OpView>, attempts: Attempts) -> Seq<TimerView>
    decreases ops.len(),
{
    if ops.len() == 0 {
        Seq::empty()
    } else {
        let rest = timers_set(ops.drop_last(), attempts.drop_last());
        if wants_timer(attempts.last().0) && ops.last().1 is Some {
            rest.push((ops.last().0, after(attempts.last().1, ops.last().1->0@)))
        } else {
            rest
        }
    }
}

/// A submission loses no operation and reports none twice: each of the queued operations is either pending
/// afterwards, or reported as completed, or its timer is set.
pub proof fn law_submission_conserves_operations(ops: Seq<OpView>, attempts: Attempts)
    requires
        attempts.len() == ops.len(),
        timers_have_delays(ops, attempts),
    ensures
        new_timers(ops, attempts) == timers_set(ops, attempts).to_multiset(),
        keys(ops).to_multiset() == keys(still_pending(ops, attempts)).to_multiset().add(
            entry_keys(completions(ops, attempts)).to_multiset(),
        ).add(timer_keys(timers_set(ops, attempts)).to_multiset()),
    decreases ops.len(),
{
    broadcast use vstd::seq_lib::group_to_multiset_ensures;

    if ops.len() == 0 {
        assert(keys(ops) =~= Seq::empty());
        assert(keys(still_pending(ops, attempts)) =~= Seq::empty());
        assert(entry_keys(completions(ops, attempts)) =~= Seq::empty());
        assert(timer_keys(timers_set(ops, attempts)) =~= Seq::empty());
        assert(timers_set(ops, attempts).to_multiset() =~= Multiset::empty());
        assert(keys(ops).to_multiset() =~= keys(still_pending(ops, attempts)).to_multiset().add(
            entry_keys(completions(ops, attempts)).to_multiset(),
        ).add(timer_keys(timers_set(ops, attempts)).to_multiset()));
    } else {
        let (front, before) = (ops.drop_last(), attempts.drop_last());
        assert(timers_have_delays(front, before)) by {
            assert forall|i: int|
                0 <= i < front.len() && wants_timer((#[trigger] before[i]).0) implies front[i].1 is Some by {
                assert(attempts[i] == before[i]);
            }
        }
        law_submission_conserves_operations(front, before);
        assert(wants_timer(attempts[attempts.len() - 1].0) ==> ops[ops.len() - 1].1 is Some);
        let key = ops.last().0;
        assert(keys(ops) =~= keys(front).push(key));
        if attempts.last().0 is None {
            assert(keys(still_pending(ops, attempts)) =~= keys(still_pending(front, before)).push(key));
        } else if wants_timer(attempts.last().0) {
            let timer = (key, after(attempts.last().1, ops.last().1->0@));
            assert(timer_keys(timers_set(ops, attempts)) =~= timer_keys(
                timers_set(front, before),
            ).push(key));
        } else {
            let entry = completions(ops, attempts).last();
            assert(entry_keys(completions(ops, attempts)) =~= entry_keys(
                completions(front, before),
            ).push(key));
        }
        assert(keys(ops).to_multiset() =~= keys(still_pending(ops, attempts)).to_multiset().add(
            entry_keys(completions(ops, attempts)).to_multiset(),
        ).add(timer_keys(timers_set(ops, attempts)).to_multiset()));
    }
}

/// What the attempt at an operation comes to decides where the operation goes: it stays pending as long as it would
/// block, its timer is set for when its delay has passed, and otherwise it is output under its user data, with just
/// the result of the attempt.
pub proof fn law_each_attempt_counts(ops: Seq<OpView>, attempts: Attempts, i: int)
    requires
        attempts.len() == ops.len(),
        0 <= i < ops.len(),
    ensures
        attempts[i].0 is None ==> still_pending(ops, attempts).contains(ops[i]),
        attempts[i].0 matches Some(result) ==> result != Ok::<usize, IoError>(TIMER_PENDING) ==> completions(
            ops,
            attempts,
        ).contains(Entry { user_data: ops[i].0, result }),
        attempts[i].0 == Some(Ok::<usize, IoError>(TIMER_PENDING)) && ops[i].1 is Some && attempts[i].1
            + ops[i].1->0@ <= u64::MAX * 1_000_000_000 + 999_999_999 ==> new_timers(ops, attempts).contains(
            (ops[i].0, attempts[i].1 + ops[i].1->0@),
        ),
    decreases ops.len(),
{
    let last = ops.len() - 1;
    let (front, before) = (ops.drop_last(), attempts.drop_last());
    let (pending, output) = (still_pending(ops, attempts), completions(ops, attempts));
    if i < last {
        law_each_attempt_counts(front, before, i);
        assert(front[i] == ops[i] && before[i] == attempts[i]);
        if attempts[i].0 is None {
            let rest = still_pending(front, before);
            let k = choose|k: int| 0 <= k < rest.len() && rest[k] == ops[i];
            assert(pending[k] == ops[i]);
        }
        if let Some(result) = attempts[i].0 {
            if result != Ok::<usize, IoError>(TIMER_PENDING) {
                let rest = completions(front, before);
                let entry = Entry { user_data: ops[i].0, result };
                let k = choose|k: int| 0 <= k < rest.len() && rest[k] == entry;
                assert(output[k] == entry);
            }
        }
    } else {
        if attempts[i].0 is None {
            assert(pending[pending.len() - 1] == ops[i]);
        }
        if let Some(result) = attempts[i].0 {
            if result != Ok::<usize, IoError>(TIMER_PENDING) {
                assert(output[output.len() - 1] == (Entry { user_data: ops[i].0, result }));
            }
        }
    }
}

/// Operations are dealt with in the order in which they were pushed: of the first few, what is output and what stays
/// pending comes first, and one more operation adds at most one entry, or one that is pending, at the end.
pub proof fn law_operations_keep_their_order(ops: Seq<OpView>, attempts: Attempts, i: int)
    requires
        attempts.len() == ops.len(),
        0 <= i < ops.len(),
    ensures
        completions(ops.take(i), attempts.take(i)).is_prefix_of(completions(ops, attempts)),
        still_pending(ops.take(i), attempts.take(i)).is_prefix_of(still_pending(ops, attempts)),
        completions(ops.take(i + 1), attempts.take(i + 1)) == completions(ops.take(i), attempts.take(i))
            + match attempts[i].0 {
            Some(result) => if result == Ok::<usize, IoError>(TIMER_PENDING) {
                Seq::empty()
            } else {
                seq![Entry { user_data: ops[i].0, result }]
            },
            None => Seq::empty(),
        },
        still_pending(ops.take(i + 1), attempts.take(i + 1)) == still_pending(ops.take(i), attempts.take(i))
            + if attempts[i].0 is None {
            seq![ops[i]]
        } else {
            Seq::empty()
        },
    decreases ops.len(),
{
    let n = ops.len() - 1;
    assert(ops.take(i + 1).drop_last() =~= ops.take(i));
    assert(attempts.take(i + 1).drop_last() =~= attempts.take(i));
    if i < n {
        let (front, before) = (ops.drop_last(), attempts.drop_last());
        law_operations_keep_their_order(front, before, i);
        assert(front.take(i) =~= ops.take(i));
        assert(before.take(i) =~= attempts.take(i));
    } else {
        assert(ops.take(i) =~= ops.drop_last());
        assert(attempts.take(i) =~= attempts.drop_last());
    }
}

/// The result by which an operation asks for a timer is none that a transfer can have.
pub proof fn law_timer_mark_is_no_transfer(n: usize, error: IoError)
    requires
        n <= isize::MAX,
    ensures
        !wants_timer(Some(Ok::<usize, IoError>(n))),
        wants_timer(Some(Ok::<usize, IoError>((usize::MAX - 2) as usize))),
        !wants_timer(Some(Err::<usize, IoError>(error))),
        !wants_timer(None),
{
}

/// Cancelled operations are output as such, each under its user data, in their order and behind what was output before.
pub proof fn law_cancelled_operations_are_reported(before: Seq<usize>, output: Seq<Entry>)
    ensures
        forall|cancelled: &mut Vec<usize>, entries: &mut Vec<Entry>|
            cancelled@ == before && entries@ == output && #[trigger] call_ensures(
                report_cancelled,
                (cancelled, entries),
                (),
            ) ==> {
                &&& final(cancelled)@.len() == 0
                &&& final(entries)@.len() == output.len() + before.len()
                &&& forall|i: int| 0 <= i < output.len() ==> #[trigger] final(entries)@[i] == output[i]
                &&& forall|i: int|
                    0 <= i < before.len() ==> (#[trigger] final(entries)@[output.len() + i]) == (Entry {
                        user_data: before[i],
                        result: Err(IoError::Cancelled),
                    })
            },
{
}

/// An attempt that asks for a timer sets one under the user data of the operation.
pub proof fn lemma_timer_is_set(ops: Seq<OpView>, attempts: Attempts, i: int)
    requires
        attempts.len() == ops.len(),
        0 <= i < ops.len(),
        wants_timer(attempts[i].0),
        ops[i].1 is Some,
    ensures
        new_timers(ops, attempts).contains((ops[i].0, after(attempts[i].1, ops[i].1->0@))),
    decreases ops.len(),
{
    if i < ops.len() - 1 {
        let (front, before) = (ops.drop_last(), attempts.drop_last());
        assert(front[i] == ops[i] && before[i] == attempts[i]);
        lemma_timer_is_set(front, before, i);
    }
}

} // verus!
