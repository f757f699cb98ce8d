//! What holds of submissions and waits as a whole.
use vstd::multiset::Multiset;
use vstd::prelude::*;

use std::collections::VecDeque;

use crate::driver::attempts::{
    cancellations, cancelled_entries, completions, entry_keys, keys, law_each_attempt_counts, lemma_timer_is_set,
    new_timers, place, still_pending, Attempts, OpView, Operated, TIMER_PENDING,
};
use crate::driver::kqueue::model::{
    change_list, completed_places, filters, first_uses, kept, lemma_first_uses, lemma_first_uses_cover,
    lemma_first_uses_distinct, lemma_requeued_map, op_views, ready_entries, requeued, scanned,
};
use crate::driver::kqueue::{
    ready_operated, submission_output, submitted, waited, watch_once, Driver, Event, EventFilter, Fd, OpCode,
    Submitted, Wait, INVALID_FD,
};
use crate::driver::queue::without;
use crate::driver::tally::{
    lemma_cancelled_tally, lemma_expiry_tally, lemma_has_key, lemma_output_add, lemma_submission_tally,
    lemma_timers_add, lemma_timers_some, lemma_times_add, lemma_times_push, lemma_times_some,
    lemma_without_tally, op_keys, timers_under, times, times_output,
};
use crate::driver::time::{
    cut_short, law_cut_short_as_little_as_possible, law_wait_ends_in_time, law_what_expires_is_due, reports_what_is_due,
    timer_entries, timer_runs, waits_as_long_as_it_can, TimerView,
};
use crate::driver::unix::{IntoFdOrFixed, RawFd};
use crate::driver::{has_key, CompleteIo, Entry, OpObject, Operation};
use crate::error::{IoError, IoResult};
use crate::time::{Duration, Moment};

verus! {

/// How many events have been found when a scan stops.
proof fn lemma_found_at_most(waits: Seq<EventFilter>, limit: nat)
    ensures
        scanned(waits, limit) <= waits.len(),
        first_uses(waits.take(scanned(waits, limit) as int)).len() <= limit,
        scanned(waits, limit) < waits.len() ==> first_uses(
            waits.take(scanned(waits, limit) as int),
        ).len() == limit,
    decreases waits.len(),
{
    if waits.len() > 0 {
        let front = waits.drop_last();
        lemma_found_at_most(front, limit);
        let before = scanned(front, limit) as int;
        assert(front.take(before) =~= waits.take(before));
        if before == waits.len() - 1 && first_uses(front).len() < limit {
            assert(waits.take(waits.len() as int) =~= waits);
        } else {
            assert(before == waits.len() - 1 ==> front.take(before) =~= front);
        }
    }
}

/// The kernel is never asked for more events than there are entries, nor twice for the same direction of the
/// same descriptor. Each event carries the place of the first operation that waits for it, and an operation
/// that waits for an event that is not asked for stands where the scan did not get to.
pub proof fn law_change_list(waits: Seq<EventFilter>, limit: nat)
    requires
        waits.len() <= usize::MAX,
    ensures
        change_list(waits, limit).len() <= limit,
        forall|k: int, l: int|
            0 <= k < l < change_list(waits, limit).len() ==> (#[trigger] change_list(
                waits,
                limit,
            )[k]).filter != (#[trigger] change_list(waits, limit)[l]).filter,
        forall|k: int|
            #![trigger change_list(waits, limit)[k]]
            0 <= k < change_list(waits, limit).len() ==> {
                let event = change_list(waits, limit)[k];
                &&& event.udata < waits.len()
                &&& waits[event.udata as int] == event.filter
                &&& forall|i: int| 0 <= i < event.udata ==> #[trigger] waits[i] != event.filter
            },
        forall|i: int|
            #![trigger waits[i]]
            0 <= i < scanned(waits, limit) ==> exists|k: int|
                0 <= k < change_list(waits, limit).len() && (#[trigger] change_list(
                    waits,
                    limit,
                )[k]).filter == waits[i],
        scanned(waits, limit) < waits.len() ==> change_list(waits, limit).len() == limit,
{
    lemma_found_at_most(waits, limit);
    let seen = waits.take(scanned(waits, limit) as int);
    let found = first_uses(seen);
    let events = change_list(waits, limit);
    lemma_first_uses(seen);
    assert forall|k: int, l: int| 0 <= k < l < events.len() implies (#[trigger] events[k]).filter != (
    #[trigger] events[l]).filter by {
        lemma_first_uses_distinct(seen, k, l);
        assert(found[k] < found[l]);
    }
    assert forall|k: int|
        #![trigger events[k]]
        0 <= k < events.len() implies {
        let event = events[k];
        &&& event.udata < waits.len()
        &&& waits[event.udata as int] == event.filter
        &&& forall|i: int| 0 <= i < event.udata ==> #[trigger] waits[i] != event.filter
    } by {
        let place = found[k];
        assert(events[k].udata == place);
        assert forall|i: int| 0 <= i < place implies #[trigger] waits[i] != events[k].filter by {
            lemma_first_uses_cover(seen, i);
            let m = choose|m: int|
                0 <= m < found.len() && #[trigger] found[m] <= i && seen[found[m]] == seen[i];
            assert(found[m] < found[k]);
            if m < k {
                lemma_first_uses_distinct(seen, m, k);
            } else {
                assert(m == k || found[k] < found[m]);
            }
            assert(seen[place] == waits[place]);
            assert(seen[i] == waits[i]);
        }
    }
    assert forall|i: int|
        #![trigger waits[i]]
        0 <= i < scanned(waits, limit) implies exists|k: int|
        0 <= k < events.len() && (#[trigger] events[k]).filter == waits[i] by {
        lemma_first_uses_cover(seen, i);
        let k = choose|k: int|
            0 <= k < found.len() && #[trigger] found[k] <= i && seen[found[k]] == seen[i];
        assert(events[k].filter == waits[found[k]]);
        assert(seen[i] == waits[i]);
        assert(seen[found[k]] == waits[found[k]]);
    }
}

/// What is kept of the first few items is what does not stand at a place that is done, each item as often as
/// it stands there.
proof fn lemma_kept<T>(items: Seq<T>, count: nat, done: Set<usize>)
    requires
        count <= items.len() <= usize::MAX,
    ensures
        forall|i: int|
            0 <= i < count && !done.contains(i as usize) ==> kept(items, count, done).contains(
                #[trigger] items[i],
            ),
        forall|k: int|
            0 <= k < kept(items, count, done).len() ==> exists|i: int|
                0 <= i < count && !done.contains(i as usize) && #[trigger] items[i] == #[trigger] kept(
                    items,
                    count,
                    done,
                )[k],
    decreases count,
{
    if count > 0 {
        let rest = kept(items, (count - 1) as nat, done);
        let all = kept(items, count, done);
        lemma_kept(items, (count - 1) as nat, done);
        assert forall|i: int| 0 <= i < count && !done.contains(i as usize) implies all.contains(
            #[trigger] items[i],
        ) by {
            if i < count - 1 {
                let k = choose|k: int| 0 <= k < rest.len() && rest[k] == items[i];
                assert(all[k] == items[i]);
            } else {
                assert(all[all.len() - 1] == items[i]);
            }
        }
        assert forall|k: int| 0 <= k < all.len() implies exists|i: int|
            0 <= i < count && !done.contains(i as usize) && #[trigger] items[i] == #[trigger] all[k] by {
            if k < rest.len() {
                assert(all[k] == rest[k]);
            } else {
                assert(items[count - 1] == all[k]);
            }
        }
    }
}

/// Requeueing keeps every operation that has not completed or was not looked at, and where no operation
/// occurs twice, an operation that has completed and was looked at is gone.
pub proof fn law_requeue_keeps_the_rest<T>(items: Seq<T>, count: nat, done: Set<usize>, i: int)
    requires
        count <= items.len() <= usize::MAX,
        0 <= i < items.len(),
    ensures
        i >= count || !done.contains(i as usize) ==> requeued(items, count, done).contains(items[i]),
        i < count && done.contains(i as usize) && items.no_duplicates() ==> !requeued(
            items,
            count,
            done,
        ).contains(items[i]),
        i >= count ==> requeued(items, count, done)[i - count] == items[i],
{
    lemma_kept(items, count, done);
    let front = items.skip(count as int);
    let back = kept(items, count, done);
    let all = requeued(items, count, done);
    if i >= count {
        assert(front[i - count] == items[i]);
        assert(all[i - count] == items[i]);
    } else if !done.contains(i as usize) {
        let k = choose|k: int| 0 <= k < back.len() && back[k] == items[i];
        assert(all[front.len() + k] == items[i]);
    } else if items.no_duplicates() && all.contains(items[i]) {
        let k = choose|k: int| 0 <= k < all.len() && all[k] == items[i];
        if k < front.len() {
            assert(all[k] == items[k + count]);
        } else {
            assert(all[k] == back[k - front.len()]);
            let j = choose|j: int|
                0 <= j < count && !done.contains(j as usize) && #[trigger] items[j] == back[k
                    - front.len()];
            assert(items[j] == items[i]);
        }
    }
}

/// Every operation that is reported has completed, and every operation that has completed is reported under
/// its user data.
pub proof fn law_completed_are_reported(
    pending: Seq<usize>,
    events: Seq<Event>,
    operated: Seq<Operated>,
    place: usize,
)
    requires
        operated.len() == events.len(),
        forall|i: int| 0 <= i < events.len() ==> (#[trigger] events[i]).udata < pending.len(),
        pending.no_duplicates(),
        place < pending.len(),
    ensures
        completed_places(events, operated).contains(place) <==> entry_keys(
            ready_entries(pending, events, operated),
        ).contains(pending[place as int]),
    decreases events.len(),
{
    if events.len() > 0 {
        let (front, before) = (events.drop_last(), operated.drop_last());
        assert forall|i: int| 0 <= i < front.len() implies (#[trigger] front[i]).udata < pending.len() by {
            assert(front[i] == events[i]);
        }
        law_completed_are_reported(pending, front, before, place);
        let old_keys = entry_keys(ready_entries(pending, front, before));
        let new_keys = entry_keys(ready_entries(pending, events, operated));
        let last = events[events.len() - 1];
        if last.flags.error || operated.last() is Some {
            let key = pending[last.udata as int];
            assert(new_keys =~= old_keys.push(key));
            if old_keys.contains(pending[place as int]) {
                let k = choose|k: int| 0 <= k < old_keys.len() && old_keys[k] == pending[place as int];
                assert(new_keys[k] == pending[place as int]);
            }
            if place == last.udata {
                assert(new_keys[old_keys.len() as int] == key);
            }
        } else {
            assert(new_keys =~= old_keys);
        }
    } else {
        assert(entry_keys(ready_entries(pending, events, operated)) =~= Seq::empty());
    }
}

/// An operation that completes on an event that was asked for is pending no more, so that it is never attempted
/// again.
pub proof fn law_completed_leave_the_queue(
    pending: Seq<usize>,
    events: Seq<Event>,
    operated: Seq<Operated>,
    waits: Seq<EventFilter>,
    limit: nat,
    k: int,
)
    requires
        pending.len() == waits.len() <= usize::MAX,
        pending.no_duplicates(),
        0 <= k < change_list(waits, limit).len(),
        completed_places(events, operated).contains(change_list(waits, limit)[k].udata),
    ensures
        !requeued(pending, scanned(waits, limit), completed_places(events, operated)).contains(
            pending[change_list(waits, limit)[k].udata as int],
        ),
{
    lemma_found_at_most(waits, limit);
    lemma_first_uses(waits.take(scanned(waits, limit) as int));
    law_requeue_keeps_the_rest(
        pending,
        scanned(waits, limit),
        completed_places(events, operated),
        change_list(waits, limit)[k].udata as int,
    );
}

/// An operation that a wait does not complete is still pending.
pub proof fn law_others_stay_in_the_queue(
    pending: Seq<usize>,
    events: Seq<Event>,
    operated: Seq<Operated>,
    waits: Seq<EventFilter>,
    limit: nat,
    place: usize,
)
    requires
        pending.len() == waits.len() <= usize::MAX,
        place < pending.len(),
        !completed_places(events, operated).contains(place),
    ensures
        requeued(pending, scanned(waits, limit), completed_places(events, operated)).contains(
            pending[place as int],
        ),
{
    lemma_found_at_most(waits, limit);
    law_requeue_keeps_the_rest(
        pending,
        scanned(waits, limit),
        completed_places(events, operated),
        place as int,
    );
}

/// How often a driver still has to output something under a key, and has output it.
pub open spec fn account<'arena, O: OpCode>(
    driver: Driver<'arena, O>,
    entries: Seq<Entry>,
    key: usize,
) -> nat {
    times(keys(op_views(driver.squeue())), key) + times(keys(op_views(driver.pending())), key)
        + timers_under(driver.timers(), key) + times(driver.cancelled(), key) + times_output(entries, key)
}

/// A submission leaves the account as it is: whatever it takes out of the queues it outputs, once.
pub proof fn law_submission_keeps_the_account<'arena, O: OpCode>(
    before: Driver<'arena, O>,
    after: Driver<'arena, O>,
    entries_before: Seq<Entry>,
    entries_after: Seq<Entry>,
    timeout: Option<Duration>,
    outcome: Submitted,
    attempts: Attempts,
    left: Seq<O>,
    now: nat,
    due: Seq<TimerView>,
    key: usize,
)
    requires
        submitted(
            before,
            after,
            entries_before,
            entries_after,
            timeout,
            outcome,
            attempts,
            left,
            now,
            due,
        ),
    ensures
        account(after, entries_after, key) == account(before, entries_before, key),
{
    let ops = op_views(before.squeue());
    let output = submission_output(before, attempts);
    let more = new_timers(ops, attempts);
    lemma_submission_tally(ops, attempts, key);
    lemma_cancelled_tally(before.cancelled(), key);
    lemma_output_add(cancelled_entries(before.cancelled()), completions(ops, attempts), key);
    lemma_output_add(entries_before, output, key);
    lemma_timers_add(before.timers(), more, key);
    assert(keys(op_views(after.pending())) =~= keys(op_views(before.pending())) + keys(
        still_pending(ops, attempts),
    ));
    lemma_times_add(keys(op_views(before.pending())), keys(still_pending(ops, attempts)), key);
    assert(keys(op_views(after.squeue())) =~= Seq::empty());
    assert(after.cancelled() =~= Seq::empty());
    if outcome is Completed {
        lemma_expiry_tally(before.timers().add(more), now, due, after.timers(), key);
        lemma_output_add(entries_before + output, timer_entries(due), key);
    }
}

/// Of some items, those at a place that is done are missing from what is kept: here the place `p`.
proof fn lemma_kept_without(items: Seq<usize>, count: nat, done: Set<usize>, p: usize, key: usize)
    requires
        count <= items.len() <= usize::MAX,
        p < count,
        !done.contains(p),
    ensures
        times(kept(items, count, done), key) == times(kept(items, count, done.insert(p)), key)
            + if items[p as int] == key {
            1nat
        } else {
            0nat
        },
    decreases count,
{
    let last = (count - 1) as nat;
    let with = kept(items, last, done);
    let less = kept(items, last, done.insert(p));
    if p == last {
        lemma_kept_same(items, last, done, p);
        lemma_times_push(with, items[last as int], key);
    } else {
        lemma_kept_without(items, last, done, p, key);
        if !done.contains(last as usize) {
            lemma_times_push(with, items[last as int], key);
            lemma_times_push(less, items[last as int], key);
        }
    }
}

/// A place further back makes no difference.
proof fn lemma_kept_same(items: Seq<usize>, count: nat, done: Set<usize>, p: usize)
    requires
        count <= p < usize::MAX,
    ensures
        kept(items, count, done) == kept(items, count, done.insert(p)),
    decreases count,
{
    if count > 0 {
        lemma_kept_same(items, (count - 1) as nat, done, p);
    }
}

/// Where nothing is done, everything is kept.
proof fn lemma_kept_all(items: Seq<usize>, count: nat)
    requires
        count <= items.len(),
    ensures
        kept(items, count, Set::empty()) == items.take(count as int),
    decreases count,
{
    if count > 0 {
        lemma_kept_all(items, (count - 1) as nat);
        assert(items.take(count as int) =~= items.take(count - 1).push(items[count - 1]));
    } else {
        assert(items.take(0) =~= Seq::empty());
    }
}

/// The events concern different operations, all of them in front of the place that the scan stopped at.
pub open spec fn distinct_places(events: Seq<Event>, scanned_till: nat) -> bool {
    &&& forall|i: int| 0 <= i < events.len() ==> (#[trigger] events[i]).udata < scanned_till
    &&& forall|i: int, j: int|
        0 <= i < j < events.len() ==> (#[trigger] events[i]).udata != (#[trigger] events[j]).udata
}

/// A place that no event concerns is not done.
proof fn lemma_not_done(events: Seq<Event>, operated: Seq<Operated>, p: usize)
    requires
        operated.len() == events.len(),
        forall|i: int| 0 <= i < events.len() ==> (#[trigger] events[i]).udata != p,
    ensures
        !completed_places(events, operated).contains(p),
    decreases events.len(),
{
    if events.len() > 0 {
        assert(events[events.len() - 1].udata != p);
        assert forall|i: int| 0 <= i < events.len() - 1 implies (#[trigger] events.drop_last()[i]).udata != p by {
            assert(events[i].udata != p);
        }
        lemma_not_done(events.drop_last(), operated.drop_last(), p);
    }
}

/// What the events take out of the pending queue they output, once.
proof fn lemma_ready_tally(
    pending: Seq<usize>,
    scanned_till: nat,
    events: Seq<Event>,
    operated: Seq<Operated>,
    key: usize,
)
    requires
        scanned_till <= pending.len() <= usize::MAX,
        operated.len() == events.len(),
        distinct_places(events, scanned_till),
    ensures
        times(kept(pending, scanned_till, completed_places(events, operated)), key) + times_output(
            ready_entries(pending, events, operated),
            key,
        ) == times(pending.take(scanned_till as int), key),
    decreases events.len(),
{
    if events.len() == 0 {
        lemma_kept_all(pending, scanned_till);
        assert(entry_keys(ready_entries(pending, events, operated)) =~= Seq::empty());
    } else {
        let (front, before) = (events.drop_last(), operated.drop_last());
        let last = events[events.len() - 1];
        assert forall|i: int| 0 <= i < front.len() implies #[trigger] front[i] == events[i] by {}
        assert forall|i: int| 0 <= i < front.len() implies (#[trigger] front[i]).udata != last.udata by {
            assert(events[i].udata != last.udata);
        }
        lemma_ready_tally(pending, scanned_till, front, before, key);
        lemma_not_done(front, before, last.udata);
        if last.flags.error || operated.last() is Some {
            lemma_kept_without(
                pending,
                scanned_till,
                completed_places(front, before),
                last.udata,
                key,
            );
            let entries = ready_entries(pending, front, before);
            assert(entry_keys(ready_entries(pending, events, operated)) =~= entry_keys(entries).push(
                pending[last.udata as int],
            ));
            lemma_times_push(entry_keys(entries), pending[last.udata as int], key);
        }
    }
}

/// A wait leaves the account as it is, where the kernel reports an operation once: whatever it takes out of the
/// pending queue and of the timers it outputs, once.
pub proof fn law_wait_keeps_the_account<'arena, O: OpCode>(
    before: Driver<'arena, O>,
    after: Driver<'arena, O>,
    entries_before: Seq<Entry>,
    entries_after: Seq<Entry>,
    scanned_till: nat,
    answer: IoResult<Vec<Event>>,
    now: nat,
    due: Seq<TimerView>,
    operated: Seq<Operated>,
    stages: Seq<Seq<O>>,
    key: usize,
)
    requires
        scanned_till <= before.pending().len() <= usize::MAX,
        answer is Ok ==> distinct_places(answer->Ok_0@, scanned_till),
        waited(
            before,
            after,
            entries_before,
            entries_after,
            scanned_till,
            answer,
            now,
            due,
            operated,
            stages,
        ),
    ensures
        account(after, entries_after, key) == account(before, entries_before, key),
{
    lemma_expiry_tally(before.timers(), now, due, after.timers(), key);
    lemma_output_add(entries_before, timer_entries(due), key);
    match answer {
        Ok(events) => {
            let pending = keys(op_views(before.pending()));
            let done = completed_places(events@, operated);
            lemma_ready_tally(pending, scanned_till, events@, operated, key);
            lemma_output_add(
                entries_before + timer_entries(due),
                ready_entries(pending, events@, operated),
                key,
            );
            lemma_requeued_map(
                op_views(before.pending()),
                scanned_till,
                done,
                |op: OpView| op.0,
            );
            let behind = pending.skip(scanned_till as int);
            assert(keys(op_views(after.pending())) =~= behind + kept(pending, scanned_till, done));
            lemma_times_add(behind, kept(pending, scanned_till, done), key);
            lemma_times_add(pending.take(scanned_till as int), behind, key);
            assert(pending =~= pending.take(scanned_till as int) + behind);
        },
        Err(_) => {},
    }
}

/// What a cancellation that was taken makes of a driver.
pub open spec fn cancellation_taken<'arena, O: OpCode>(
    before: Driver<'arena, O>,
    after: Driver<'arena, O>,
    user_data: usize,
) -> bool {
    &&& after.timers() == before.timers()
    &&& after.squeue() == without(before.squeue(), user_data)
    &&& after.pending() == without(before.pending(), user_data)
    &&& after.cancelled() == before.cancelled() + cancellations(
        before.squeue(),
        before.pending(),
        user_data,
    )
}

/// A cancellation leaves the account as it is: the operation is still to be output.
pub proof fn law_cancellation_keeps_the_account<'arena, O: OpCode>(
    before: Driver<'arena, O>,
    after: Driver<'arena, O>,
    entries: Seq<Entry>,
    user_data: usize,
    key: usize,
)
    requires
        cancellation_taken(before, after, user_data),
    ensures
        account(after, entries, key) == account(before, entries, key),
{
    lemma_without_tally(before.squeue(), user_data, key);
    lemma_without_tally(before.pending(), user_data, key);
    assert(keys(op_views(before.squeue())) =~= op_keys(before.squeue()));
    assert(keys(op_views(before.pending())) =~= op_keys(before.pending()));
    assert(keys(op_views(after.squeue())) =~= op_keys(after.squeue()));
    assert(keys(op_views(after.pending())) =~= op_keys(after.pending()));
    let more = cancellations(before.squeue(), before.pending(), user_data);
    lemma_times_add(before.cancelled(), more, key);
    let one = if has_key(before.squeue(), user_data) {
        seq![user_data]
    } else {
        Seq::empty()
    };
    if has_key(before.squeue(), user_data) {
        assert(one =~= Seq::<usize>::empty().push(user_data));
        lemma_times_push(Seq::empty(), user_data, key);
    }
    lemma_times_push(one, user_data, key);
}

/// A cancelled operation that was queued or pending is output by the next submission, as cancelled.
pub proof fn law_cancelled_operation_is_output<'arena, O: OpCode>(
    before: Driver<'arena, O>,
    mid: Driver<'arena, O>,
    after: Driver<'arena, O>,
    entries_before: Seq<Entry>,
    entries_after: Seq<Entry>,
    timeout: Option<Duration>,
    outcome: Submitted,
    attempts: Attempts,
    left: Seq<O>,
    now: nat,
    due: Seq<TimerView>,
    user_data: usize,
)
    requires
        has_key(before.squeue(), user_data) || has_key(before.pending(), user_data),
        cancellation_taken(before, mid, user_data),
        submitted(
            mid,
            after,
            entries_before,
            entries_after,
            timeout,
            outcome,
            attempts,
            left,
            now,
            due,
        ),
    ensures
        entries_after.contains(Entry { user_data, result: Err(IoError::Cancelled) }),
{
    let more = cancellations(before.squeue(), before.pending(), user_data);
    assert(more[0] == user_data);
    let at = before.cancelled().len() as int;
    assert(mid.cancelled()[at] == user_data);
    let entry = Entry { user_data, result: Err(IoError::Cancelled) };
    assert(cancelled_entries(mid.cancelled())[at] == entry);
    assert(submission_output(mid, attempts)[at] == entry);
    assert(entries_after[entries_before.len() + at] == entry);
}

/// A driver with what it has output so far.
pub struct State<'arena, O: OpCode> {
    /// The driver.
    pub driver: Driver<'arena, O>,
    /// The entries that were output, in their order.
    pub entries: Seq<Entry>,
}

/// One state leads to the next by a submission, or by a wait in which the kernel reports an operation at most once.
pub open spec fn goes_on<'arena, O: OpCode>(a: State<'arena, O>, b: State<'arena, O>) -> bool {
    ||| exists|
        timeout: Option<Duration>,
        outcome: Submitted,
        attempts: Attempts,
        left: Seq<O>,
        now: nat,
        due: Seq<TimerView>,
    | #[trigger]
        submitted(
            a.driver,
            b.driver,
            a.entries,
            b.entries,
            timeout,
            outcome,
            attempts,
            left,
            now,
            due,
        )
    ||| exists|
        scanned_till: nat,
        answer: IoResult<Vec<Event>>,
        now: nat,
        due: Seq<TimerView>,
        operated: Seq<Operated>,
        stages: Seq<Seq<O>>,
    |
        {
            &&& scanned_till <= a.driver.pending().len() <= usize::MAX
            &&& answer is Ok ==> distinct_places(answer->Ok_0@, scanned_till)
            &&& #[trigger] waited(
                a.driver,
                b.driver,
                a.entries,
                b.entries,
                scanned_till,
                answer,
                now,
                due,
                operated,
                stages,
            )
        }
}

/// One state leads to the next by a submission, by a wait in which the kernel reports an operation at most once,
/// or by a cancellation.
pub open spec fn leads_to<'arena, O: OpCode>(a: State<'arena, O>, b: State<'arena, O>) -> bool {
    ||| goes_on(a, b)
    ||| exists|user_data: usize| #[trigger]
        cancellation_taken(a.driver, b.driver, user_data) && b.entries == a.entries
}

/// Over any number of submissions, waits and cancellations, nothing is output more often than it was pushed: user
/// data that stands for one operation is output at most once, and as long as it is not output, the driver has
/// it.
pub proof fn law_output_at_most_once<'arena, O: OpCode>(run: Seq<State<'arena, O>>, key: usize)
    requires
        run.len() > 0,
        forall|i: int| 0 <= i < run.len() - 1 ==> leads_to(#[trigger] run[i], run[i + 1]),
        account(run[0].driver, run[0].entries, key) <= 1,
    ensures
        account(run.last().driver, run.last().entries, key) == account(
            run[0].driver,
            run[0].entries,
            key,
        ),
        times_output(run.last().entries, key) <= 1,
    decreases run.len(),
{
    if run.len() > 1 {
        let front = run.drop_last();
        assert forall|i: int| 0 <= i < front.len() - 1 implies leads_to(#[trigger] front[i], front[i + 1]) by {
            assert(leads_to(run[i], run[i + 1]));
        }
        law_output_at_most_once(front, key);
        let a = run[run.len() - 2];
        let b = run.last();
        assert(leads_to(a, b));
        if exists|user_data: usize| #[trigger]
            cancellation_taken(a.driver, b.driver, user_data) && b.entries == a.entries {
            let user_data = choose|user_data: usize| #[trigger]
                cancellation_taken(a.driver, b.driver, user_data) && b.entries == a.entries;
            law_cancellation_keeps_the_account(a.driver, b.driver, a.entries, user_data, key);
        } else if exists|
            timeout: Option<Duration>,
            outcome: Submitted,
            attempts: Attempts,
            left: Seq<O>,
            now: nat,
            due: Seq<TimerView>,
        | #[trigger]
            submitted(
                a.driver,
                b.driver,
                a.entries,
                b.entries,
                timeout,
                outcome,
                attempts,
                left,
                now,
                due,
            ) {
            let (timeout, outcome, attempts, left, now, due) = choose|
                timeout: Option<Duration>,
                outcome: Submitted,
                attempts: Attempts,
                left: Seq<O>,
                now: nat,
                due: Seq<TimerView>,
            | #[trigger]
                submitted(
                    a.driver,
                    b.driver,
                    a.entries,
                    b.entries,
                    timeout,
                    outcome,
                    attempts,
                    left,
                    now,
                    due,
                );
            law_submission_keeps_the_account(
                a.driver,
                b.driver,
                a.entries,
                b.entries,
                timeout,
                outcome,
                attempts,
                left,
                now,
                due,
                key,
            );
        } else {
            let (scanned_till, answer, now, due, operated, stages) = choose|
                scanned_till: nat,
                answer: IoResult<Vec<Event>>,
                now: nat,
                due: Seq<TimerView>,
                operated: Seq<Operated>,
                stages: Seq<Seq<O>>,
            |
                {
                    &&& scanned_till <= a.driver.pending().len() <= usize::MAX
                    &&& answer is Ok ==> distinct_places(answer->Ok_0@, scanned_till)
                    &&& #[trigger] waited(
                        a.driver,
                        b.driver,
                        a.entries,
                        b.entries,
                        scanned_till,
                        answer,
                        now,
                        due,
                        operated,
                        stages,
                    )
                };
            law_wait_keeps_the_account(
                a.driver,
                b.driver,
                a.entries,
                b.entries,
                scanned_till,
                answer,
                now,
                due,
                operated,
                stages,
                key,
            );
        }
    }
}

/// Without a cancellation, no cancelled operation is to be output.
proof fn lemma_none_cancelled<'arena, O: OpCode>(run: Seq<State<'arena, O>>)
    requires
        run.len() > 0,
        forall|i: int| 0 <= i < run.len() - 1 ==> goes_on(#[trigger] run[i], run[i + 1]),
        run[0].driver.cancelled().len() == 0,
    ensures
        run.last().driver.cancelled().len() == 0,
    decreases run.len(),
{
    if run.len() > 1 {
        let front = run.drop_last();
        assert forall|i: int| 0 <= i < front.len() - 1 implies goes_on(#[trigger] front[i], front[i + 1]) by {
            assert(goes_on(run[i], run[i + 1]));
        }
        lemma_none_cancelled(front);
        assert(goes_on(run[run.len() - 2], run[run.len() - 2 + 1]));
    }
}

/// Operations with different user data that were pushed, and of which none is cancelled, are output at most once each
/// over any number of submissions, and nothing else is output. An operation that was output is neither queued nor
/// pending, nor does its timer run, so that it is not operated again; one that was not output is still there.
pub proof fn law_each_operation_is_output_once<'arena, O: OpCode>(run: Seq<State<'arena, O>>, key: usize)
    requires
        run.len() > 0,
        forall|i: int| 0 <= i < run.len() - 1 ==> goes_on(#[trigger] run[i], run[i + 1]),
        keys(op_views(run[0].driver.squeue())).no_duplicates(),
        run[0].driver.pending().len() == 0,
        run[0].driver.timers() == Multiset::<TimerView>::empty(),
        run[0].driver.cancelled().len() == 0,
        run[0].entries.len() == 0,
    ensures
        times_output(run.last().entries, key) <= 1,
        ({
            let driver = run.last().driver;
            let is_output = entry_keys(run.last().entries).contains(key);
            let is_there = has_key(driver.squeue(), key) || has_key(driver.pending(), key) || timer_runs(
                driver.timers(),
                key,
            );
            &&& is_output ==> has_key(run[0].driver.squeue(), key) && !is_there
            &&& has_key(run[0].driver.squeue(), key) && !is_output ==> is_there
        }),
{
    let first = run[0].driver;
    let last = run.last().driver;
    lemma_times_some(keys(op_views(first.squeue())), key);
    lemma_timers_some(first.timers(), key);
    assert(keys(op_views(first.pending())) =~= Seq::empty());
    assert(first.cancelled() =~= Seq::empty());
    assert(entry_keys(run[0].entries) =~= Seq::empty());
    assert forall|i: int| 0 <= i < run.len() - 1 implies leads_to(#[trigger] run[i], run[i + 1]) by {
        assert(goes_on(run[i], run[i + 1]));
    }
    law_output_at_most_once(run, key);
    lemma_none_cancelled(run);
    assert(last.cancelled() =~= Seq::empty());
    lemma_timers_some(last.timers(), key);
    lemma_times_some(entry_keys(run.last().entries), key);
    lemma_has_key(first.squeue(), key);
    lemma_has_key(last.squeue(), key);
    lemma_has_key(last.pending(), key);
    assert(keys(op_views(first.squeue())) =~= op_keys(first.squeue()));
    assert(keys(op_views(last.squeue())) =~= op_keys(last.squeue()));
    assert(keys(op_views(last.pending())) =~= op_keys(last.pending()));
}

/// What the attempt at an operation came to decides where the operation goes, and nothing else is touched: it is put at
/// the back of the pending queue if it would block, its timer is set for when its delay has passed, and otherwise its
/// entry says what the attempt came to.
pub proof fn law_attempt_decides<'arena, O: OpCode>(
    before: Driver<'arena, O>,
    op: OpObject<'arena, O>,
    operated: Operated,
    now: Moment,
)
    ensures
        forall|driver: &mut Driver<'arena, O>, entry: Option<Entry>|
            *driver == before && #[trigger] call_ensures(
                Driver::<'arena, O>::settle,
                (driver, op, operated, now),
                entry,
            ) ==> {
                &&& final(driver).squeue() == before.squeue()
                &&& operated is None ==> {
                    &&& entry is None
                    &&& final(driver).pending() == before.pending().push(op)
                    &&& final(driver).timers() == before.timers()
                }
                &&& operated == Some(Ok::<usize, IoError>(TIMER_PENDING)) ==> {
                    &&& entry is None
                    &&& final(driver).pending() == before.pending()
                    &&& now@ + op.code().delay()->0@ <= u64::MAX * 1_000_000_000 + 999_999_999 ==> final(
                        driver).timers() == before.timers().insert(
                        (op.user_data, now@ + op.code().delay()->0@),
                    )
                }
                &&& operated matches Some(result) ==> result != Ok::<usize, IoError>(TIMER_PENDING) ==> {
                    &&& entry == Some(Entry { user_data: op.user_data, result })
                    &&& final(driver).pending() == before.pending()
                    &&& final(driver).timers() == before.timers()
                }
            },
{
}

/// An event that reports a failure completes its operation with the error code that it carries. Any other completes it
/// with what the attempt came to, and not at all as long as it would block.
pub proof fn law_event_decides<'arena, O: OpCode>(before: Driver<'arena, O>, event: Event, operated: Operated)
    requires
        event.udata < before.pending().len(),
    ensures
        forall|driver: &mut Driver<'arena, O>, entry: Option<Entry>|
            *driver == before && #[trigger] call_ensures(
                Driver::<'arena, O>::settle_ready,
                (driver, event, operated),
                entry,
            ) ==> {
                let user_data = before.pending()[event.udata as int].user_data;
                &&& event.flags.error ==> entry == Some(
                    Entry { user_data, result: Err(IoError::Os(event.data as i32)) },
                )
                &&& !event.flags.error && operated is None ==> entry is None
                &&& !event.flags.error ==> (operated matches Some(result) ==> entry == Some(
                    Entry { user_data, result },
                ))
                &&& final(driver).pending() == before.pending()
                &&& entry is Some <==> final(driver).completed() == before.completed().insert(event.udata) && (
                event.flags.error || operated is Some)
                &&& entry is None ==> final(driver).completed() == before.completed()
            },
{
}

/// What is kept of the pending operations keeps its order, and goes behind those that were not looked at: of one more
/// operation, it is put at the end exactly if it has not completed.
pub proof fn law_requeue_keeps_the_order<T>(items: Seq<T>, count: nat, done: Set<usize>)
    requires
        count < items.len(),
    ensures
        kept(items, 0, done).len() == 0,
        kept(items, count + 1, done) == kept(items, count, done) + if done.contains(count as usize) {
            Seq::empty()
        } else {
            seq![items[count as int]]
        },
        requeued(items, count, done).take(items.len() - count) == items.skip(count as int),
        requeued(items, count, done).skip(items.len() - count) == kept(items, count, done),
{
    assert(kept(items, count + 1, done) =~= kept(items, count, done) + if done.contains(count as usize) {
        Seq::empty()
    } else {
        seq![items[count as int]]
    });
    assert(requeued(items, count, done).take(items.len() - count) =~= items.skip(count as int));
    assert(requeued(items, count, done).skip(items.len() - count) =~= kept(items, count, done));
}

/// A submission attempts everything that is queued, and outputs the cancelled operations first. What it outputs is not
/// held back: it does not wait then. Otherwise it waits until the first timer falls due or the timeout is over, and as
/// long as it takes if there is neither.
pub proof fn law_output_is_not_held_back<'arena, O: OpCode>(
    before: Driver<'arena, O>,
    timeout: Option<Duration>,
    output: Seq<Entry>,
)
    requires
        before.wf(),
    ensures
        forall|driver: &mut Driver<'arena, O>, entries: &mut Vec<Entry>, outcome: Submitted|
            *driver == before && entries@ == output && #[trigger] call_ensures(
                Driver::<'arena, O>::submit,
                (driver, timeout, entries),
                outcome,
            ) ==> {
                let after = *final(driver);
                let more = final(entries)@.skip(output.len() as int);
                &&& final(entries)@.len() >= output.len() + before.cancelled().len()
                &&& final(entries)@.take(output.len() as int) == output
                &&& forall|i: int|
                    0 <= i < before.cancelled().len() ==> (#[trigger] more[i]) == (Entry {
                        user_data: before.cancelled()[i],
                        result: Err(IoError::Cancelled),
                    })
                &&& after.squeue().len() == 0
                &&& after.cancelled().len() == 0
                &&& outcome is Completed ==> more.len() > 0 && after.pending().len() == 0
                &&& outcome matches Submitted::Wait(wait) ==> {
                    &&& more.len() > 0 ==> wait.timeout is Some && wait.timeout->0@ == 0 && after.pending().len() > 0
                    &&& more.len() == 0 && after.timers().len() == 0 ==> wait.timeout == timeout
                    &&& more.len() == 0 && after.timers().len() > 0 ==> wait.timeout is Some && (timeout is Some
                        ==> wait.timeout->0@ <= timeout->0@)
                }
            },
{
    assert forall|driver: &mut Driver<'arena, O>, entries: &mut Vec<Entry>, outcome: Submitted|
        *driver == before && entries@ == output && #[trigger] call_ensures(
            Driver::<'arena, O>::submit,
            (driver, timeout, entries),
            outcome,
        ) implies {
        let after = *final(driver);
        let more = final(entries)@.skip(output.len() as int);
        &&& final(entries)@.len() >= output.len() + before.cancelled().len()
        &&& final(entries)@.take(output.len() as int) == output
        &&& forall|i: int|
            0 <= i < before.cancelled().len() ==> (#[trigger] more[i]) == (Entry {
                user_data: before.cancelled()[i],
                result: Err(IoError::Cancelled),
            })
        &&& after.squeue().len() == 0
        &&& after.cancelled().len() == 0
        &&& outcome is Completed ==> more.len() > 0 && after.pending().len() == 0
        &&& outcome matches Submitted::Wait(wait) ==> {
            &&& more.len() > 0 ==> wait.timeout is Some && wait.timeout->0@ == 0 && after.pending().len() > 0
            &&& more.len() == 0 && after.timers().len() == 0 ==> wait.timeout == timeout
            &&& more.len() == 0 && after.timers().len() > 0 ==> wait.timeout is Some && (timeout is Some
                ==> wait.timeout->0@ <= timeout->0@)
        }
    } by {
        let (attempts, left, now, due) = choose|attempts: Attempts, left: Seq<O>, now: nat,
            due: Seq<TimerView>| #[trigger]
            submitted(
                before,
                *final(driver),
                output,
                final(entries)@,
                timeout,
                outcome,
                attempts,
                left,
                now,
                due,
            );
        assert(submitted(
            before,
            *final(driver),
            output,
            final(entries)@,
            timeout,
            outcome,
            attempts,
            left,
            now,
            due,
        ));
        let first = submission_output(before, attempts);
        assert(final(entries)@.take(output.len() as int) =~= output);
        assert forall|i: int| 0 <= i < before.cancelled().len() implies #[trigger] final(entries)@.skip(
            output.len() as int,
        )[i] == (Entry { user_data: before.cancelled()[i], result: Err(IoError::Cancelled) }) by {
            assert(first[i] == cancelled_entries(before.cancelled())[i]);
        }
        if let Submitted::Wait(wait) = outcome {
            if first.len() == 0 {
                law_wait_ends_in_time(final(driver).timers(), now, timeout, wait.timeout);
            }
        }
    }
}

/// A wait fails with the error of the kernel, and then no operation is attempted; otherwise it succeeds. Either way the
/// timers that have fallen due are output first.
pub proof fn law_failed_wait_attempts_nothing<'arena, O: OpCode>(
    before: Driver<'arena, O>,
    wait: Wait,
    error: IoError,
    output: Seq<Entry>,
)
    ensures
        forall|driver: &mut Driver<'arena, O>, entries: &mut Vec<Entry>, r: IoResult<()>|
            *driver == before && entries@ == output && #[trigger] call_ensures(
                Driver::<'arena, O>::complete_submit,
                (driver, wait, Err::<Vec<Event>, IoError>(error), entries),
                r,
            ) ==> {
                let more = final(entries)@.skip(output.len() as int);
                &&& r == Err::<(), IoError>(error)
                &&& final(driver).pending() == before.pending()
                &&& final(driver).squeue() == before.squeue()
                &&& final(entries)@.len() >= output.len()
                &&& final(entries)@.take(output.len() as int) == output
                &&& forall|i: int| 0 <= i < more.len() ==> (#[trigger] more[i]).result == Ok::<usize, IoError>(0)
            },
        forall|driver: &mut Driver<'arena, O>, entries: &mut Vec<Entry>, events: Vec<Event>, r: IoResult<()>|
            *driver == before && entries@ == output && #[trigger] call_ensures(
                Driver::<'arena, O>::complete_submit,
                (driver, wait, Ok::<Vec<Event>, IoError>(events), entries),
                r,
            ) ==> r is Ok,
{
    assert forall|driver: &mut Driver<'arena, O>, entries: &mut Vec<Entry>, r: IoResult<()>|
        *driver == before && entries@ == output && #[trigger] call_ensures(
            Driver::<'arena, O>::complete_submit,
            (driver, wait, Err::<Vec<Event>, IoError>(error), entries),
            r,
        ) implies {
        let more = final(entries)@.skip(output.len() as int);
        &&& final(driver).pending() == before.pending()
        &&& final(driver).squeue() == before.squeue()
        &&& final(entries)@.len() >= output.len()
        &&& final(entries)@.take(output.len() as int) == output
        &&& forall|i: int| 0 <= i < more.len() ==> (#[trigger] more[i]).result == Ok::<usize, IoError>(0)
    } by {
        let (now, due, operated, stages) = choose|
            now: nat,
            due: Seq<TimerView>,
            operated: Seq<Operated>,
            stages: Seq<Seq<O>>,
        | #[trigger]
            waited(
                before,
                *final(driver),
                output,
                final(entries)@,
                wait.scanned_till as nat,
                Err::<Vec<Event>, IoError>(error),
                now,
                due,
                operated,
                stages,
            );
        assert(waited(
            before,
            *final(driver),
            output,
            final(entries)@,
            wait.scanned_till as nat,
            Err::<Vec<Event>, IoError>(error),
            now,
            due,
            operated,
            stages,
        ));
        assert(final(entries)@.take(output.len() as int) =~= output);
        assert(final(entries)@.skip(output.len() as int) =~= timer_entries(due));
    }
}

/// A driver takes as many operations as it was made for, and a descriptor is attached or registered as it is.
pub proof fn law_new_driver<'arena, O: OpCode>(entries: u32, files: u32, made: Driver<'arena, O>, fd: RawFd, id: u32)
    requires
        call_ensures(Driver::<'arena, O>::with, (entries, files), made),
    ensures
        made.limit() == entries,
        made.squeue().len() == 0,
        made.pending().len() == 0,
        made.timers().len() == 0,
        made.cancelled().len() == 0,
        forall|plain: Driver<'arena, O>| #[trigger]
            call_ensures(Driver::<'arena, O>::new, (), plain) ==> plain.limit() == 1024 && plain.squeue().len()
                == 0,
        forall|driver: &mut Driver<'arena, O>, r: IoResult<Fd>| #[trigger]
            call_ensures(Driver::<'arena, O>::attach, (driver, fd), r) ==> r is Ok && r->Ok_0.raw_fd == fd
                && *final(driver) == *driver,
        forall|driver: &mut Driver<'arena, O>, r: IoResult<Fd>| #[trigger]
            call_ensures(Driver::<'arena, O>::register_fd, (driver, fd, id), r) ==> r is Ok && r->Ok_0.raw_fd
                == fd && *final(driver) == *driver,
        forall|driver: &mut Driver<'arena, O>, fixed: Fd, r: IoResult<()>| #[trigger]
            call_ensures(Driver::<'arena, O>::unregister_fd, (driver, fixed), r) ==> r is Ok && *final(driver)
                == *driver,
{
}

/// A cancellation takes the first operation with its user data out of the queue of those that are to be attempted, and
/// out of the pending ones, and each of them is still to be output; all others stay where they are. It is refused
/// exactly if the submission queue is full, and then changes nothing.
pub proof fn law_cancellation_takes_its_operation<'arena, O: OpCode>(
    before: Driver<'arena, O>,
    user_data: usize,
    key: usize,
)
    requires
        before.wf(),
    ensures
        forall|driver: &mut Driver<'arena, O>, r: Result<(), ()>|
            *driver == before && #[trigger] call_ensures(
                <Driver<'arena, O> as CompleteIo<'arena, O>>::try_cancel,
                (driver, user_data),
                r,
            ) ==> {
                let queued = times(op_keys(before.squeue()), key) - times(op_keys(final(driver).squeue()), key);
                let pending = times(op_keys(before.pending()), key) - times(op_keys(final(driver).pending()), key);
                &&& r is Err <==> before.squeue().len() >= before.limit()
                &&& r is Err ==> *final(driver) == before
                &&& r is Ok ==> {
                    &&& queued == if key == user_data && has_key(before.squeue(), key) {
                        1int
                    } else {
                        0int
                    }
                    &&& pending == if key == user_data && has_key(before.pending(), key) {
                        1int
                    } else {
                        0int
                    }
                    &&& times(final(driver).cancelled(), key) == times(before.cancelled(), key) + queued + pending
                }
                &&& final(driver).timers() == before.timers()
            },
{
    lemma_without_tally(before.squeue(), user_data, key);
    lemma_without_tally(before.pending(), user_data, key);
    let more = cancellations(before.squeue(), before.pending(), user_data);
    lemma_times_add(before.cancelled(), more, key);
    let one = if has_key(before.squeue(), user_data) {
        seq![user_data]
    } else {
        Seq::empty()
    };
    if has_key(before.squeue(), user_data) {
        assert(one =~= Seq::<usize>::empty().push(user_data));
        lemma_times_push(Seq::empty(), user_data, key);
    }
    lemma_times_push(one, user_data, key);
}

/// Each queued operation is attempted. Where the attempt comes to a result, that is output under the user data; where
/// it would block, the operation is pending; and where it asks for a timer, one runs or has fallen due.
pub proof fn law_each_operation_is_attempted<'arena, O: OpCode>(
    before: Driver<'arena, O>,
    timeout: Option<Duration>,
    output: Seq<Entry>,
    i: int,
)
    requires
        before.wf(),
        0 <= i < before.squeue().len(),
    ensures
        forall|driver: &mut Driver<'arena, O>, entries: &mut Vec<Entry>, outcome: Submitted|
            *driver == before && entries@ == output && #[trigger] call_ensures(
                Driver::<'arena, O>::submit,
                (driver, timeout, entries),
                outcome,
            ) ==> exists|op: &mut O, operated: Operated|
                {
                    let queued = before.squeue()[i];
                    &&& *op == queued.code()
                    &&& #[trigger] call_ensures(O::operate, (op,), operated)
                    &&& operated matches Some(result) ==> result != Ok::<usize, IoError>(TIMER_PENDING) ==> final(
                        entries)@.contains(Entry { user_data: queued.user_data, result })
                    &&& operated is None ==> has_key(final(driver).pending(), queued.user_data)
                    &&& operated == Some(Ok::<usize, IoError>(TIMER_PENDING)) && outcome is Wait ==> timer_runs(
                        final(driver).timers(),
                        queued.user_data,
                    )
                },
{
    assert forall|driver: &mut Driver<'arena, O>, entries: &mut Vec<Entry>, outcome: Submitted|
        *driver == before && entries@ == output && #[trigger] call_ensures(
            Driver::<'arena, O>::submit,
            (driver, timeout, entries),
            outcome,
        ) implies exists|op: &mut O, operated: Operated|
        {
            let queued = before.squeue()[i];
            &&& *op == queued.code()
            &&& #[trigger] call_ensures(O::operate, (op,), operated)
            &&& operated matches Some(result) ==> result != Ok::<usize, IoError>(TIMER_PENDING) ==> final(
                entries)@.contains(Entry { user_data: queued.user_data, result })
            &&& operated is None ==> has_key(final(driver).pending(), queued.user_data)
            &&& operated == Some(Ok::<usize, IoError>(TIMER_PENDING)) && outcome is Wait ==> timer_runs(
                final(driver).timers(),
                queued.user_data,
            )
        } by {
        let after = *final(driver);
        let all = final(entries)@;
        let queue = before.squeue();
        let (attempts, left, now, due) = choose|attempts: Attempts, left: Seq<O>, now: nat, due: Seq<TimerView>|
            {
                &&& #[trigger] submitted(before, after, output, all, timeout, outcome, attempts, left, now, due)
                &&& forall|i: int| #[trigger]
                    place(i) && i < attempts.len() ==> exists|op: &mut O|
                        {
                            &&& *op == queue[i].code()
                            &&& *final(op) == left[i]
                            &&& #[trigger] call_ensures(O::operate, (op,), attempts[i].0)
                        }
            };
        assert(submitted(before, after, output, all, timeout, outcome, attempts, left, now, due));
        assert(place(i));
        let op = choose|op: &mut O|
            {
                &&& *op == queue[i].code()
                &&& *final(op) == left[i]
                &&& #[trigger] call_ensures(O::operate, (op,), attempts[i].0)
            };
        assert(call_ensures(O::operate, (op,), attempts[i].0));
        let ops = op_views(queue);
        law_each_attempt_counts(ops, attempts, i);
        assert(ops[i].0 == queue[i].user_data);
        match attempts[i].0 {
            Some(result) => {
                let entry = Entry { user_data: queue[i].user_data, result };
                if result != Ok::<usize, IoError>(TIMER_PENDING) {
                    let found = completions(ops, attempts);
                    let k = choose|k: int| 0 <= k < found.len() && found[k] == entry;
                    assert(all[output.len() + before.cancelled().len() + k] == entry);
                } else {
                    lemma_timer_is_set(ops, attempts, i);
                    let timer = (ops[i].0, crate::time::after(attempts[i].1, ops[i].1->0@));
                    assert(outcome is Wait ==> after.timers().contains(timer));
                }
            },
            None => {
                let kept = still_pending(ops, attempts);
                let k = choose|k: int| 0 <= k < kept.len() && kept[k] == ops[i];
                let views = op_views(after.pending());
                assert(views == op_views(before.pending()) + kept);
                let m = op_views(before.pending()).len() + k;
                assert(views[m] == ops[i]);
                assert(views.len() == after.pending().len());
                assert(after.pending()[m].user_data == queue[i].user_data);
            },
        }
    }
}

/// An event that completes an operation puts the entry of that operation among the others.
proof fn lemma_event_is_output(pending: Seq<usize>, events: Seq<Event>, operated: Seq<Operated>, i: int)
    requires
        operated.len() == events.len(),
        0 <= i < events.len(),
    ensures
        events[i].flags.error ==> ready_entries(pending, events, operated).contains(
            Entry { user_data: pending[events[i].udata as int], result: Err(IoError::Os(events[i].data as i32)) },
        ),
        !events[i].flags.error && operated[i] is Some ==> ready_entries(pending, events, operated).contains(
            Entry { user_data: pending[events[i].udata as int], result: operated[i]->0 },
        ),
    decreases events.len(),
{
    let (front, before) = (events.drop_last(), operated.drop_last());
    let all = ready_entries(pending, events, operated);
    let rest = ready_entries(pending, front, before);
    if i < events.len() - 1 {
        lemma_event_is_output(pending, front, before, i);
        assert(front[i] == events[i] && before[i] == operated[i]);
        assert forall|e: Entry| rest.contains(e) implies #[trigger] all.contains(e) by {
            let k = choose|k: int| 0 <= k < rest.len() && rest[k] == e;
            assert(all[k] == e);
        }
    } else if events[i].flags.error || operated[i] is Some {
        assert(all[all.len() - 1] == all.last());
    }
}

/// An operation that is reported ready is attempted, and what that comes to is output under its user data. Where the
/// kernel reports a failure instead, that is output, with its code.
pub proof fn law_ready_operation_is_attempted<'arena, O: OpCode>(
    before: Driver<'arena, O>,
    wait: Wait,
    events: Vec<Event>,
    output: Seq<Entry>,
    i: int,
)
    requires
        before.wf(),
        0 <= i < events@.len(),
        events@[i].udata < before.pending().len(),
    ensures
        forall|driver: &mut Driver<'arena, O>, entries: &mut Vec<Entry>, r: IoResult<()>|
            *driver == before && entries@ == output && #[trigger] call_ensures(
                Driver::<'arena, O>::complete_submit,
                (driver, wait, Ok(events), entries),
                r,
            ) ==> {
                let user_data = before.pending()[events@[i].udata as int].user_data;
                &&& r is Ok
                &&& events@[i].flags.error ==> final(entries)@.contains(
                    Entry { user_data, result: Err(IoError::Os(events@[i].data as i32)) },
                )
                &&& !events@[i].flags.error ==> exists|op: &mut O, operated: Operated|
                    {
                        &&& #[trigger] call_ensures(O::operate, (op,), operated)
                        &&& operated matches Some(result) ==> final(entries)@.contains(Entry { user_data, result })
                    }
            },
        forall|driver: &mut Driver<'arena, O>, entries: &mut Vec<Entry>|
            *driver == before && entries@ == output && #[trigger] call_ensures(
                Driver::<'arena, O>::operate_completed_and_requeue,
                (driver, &events, wait.scanned_till, entries),
                (),
            ) ==> {
                let user_data = before.pending()[events@[i].udata as int].user_data;
                &&& events@[i].flags.error ==> final(entries)@.contains(
                    Entry { user_data, result: Err(IoError::Os(events@[i].data as i32)) },
                )
                &&& !events@[i].flags.error ==> exists|op: &mut O, operated: Operated|
                    {
                        &&& #[trigger] call_ensures(O::operate, (op,), operated)
                        &&& operated matches Some(result) ==> final(entries)@.contains(Entry { user_data, result })
                    }
            },
{
    let pending = keys(op_views(before.pending()));
    let user_data = before.pending()[events@[i].udata as int].user_data;
    assert(pending[events@[i].udata as int] == user_data);
    let answer: IoResult<Vec<Event>> = Ok(events);
    assert forall|driver: &mut Driver<'arena, O>, entries: &mut Vec<Entry>, r: IoResult<()>|
        *driver == before && entries@ == output && #[trigger] call_ensures(
            Driver::<'arena, O>::complete_submit,
            (driver, wait, answer, entries),
            r,
        ) implies {
        &&& events@[i].flags.error ==> final(entries)@.contains(
            Entry { user_data, result: Err(IoError::Os(events@[i].data as i32)) },
        )
        &&& !events@[i].flags.error ==> exists|op: &mut O, operated: Operated|
            {
                &&& #[trigger] call_ensures(O::operate, (op,), operated)
                &&& operated matches Some(result) ==> final(entries)@.contains(Entry { user_data, result })
            }
    } by {
        let after = *final(driver);
        let all = final(entries)@;
        let till = wait.scanned_till as nat;
        let (now, due, operated, stages) = choose|
            now: nat,
            due: Seq<TimerView>,
            operated: Seq<Operated>,
            stages: Seq<Seq<O>>,
        |
            {
                &&& #[trigger] waited(before, after, output, all, till, answer, now, due, operated, stages)
                &&& forall|i: int| #[trigger]
                    place(i) && i < operated.len() && !answer->Ok_0@[i].flags.error ==> exists|op: &mut O|
                        {
                            &&& *op == stages[i][answer->Ok_0@[i].udata as int]
                            &&& *final(op) == stages[i + 1][answer->Ok_0@[i].udata as int]
                            &&& #[trigger] call_ensures(O::operate, (op,), operated[i])
                        }
            };
        assert(waited(before, after, output, all, till, answer, now, due, operated, stages));
        assert(place(i));
        lemma_event_is_output(pending, events@, operated, i);
        let found = ready_entries(pending, events@, operated);
        assert forall|e: Entry| found.contains(e) implies #[trigger] all.contains(e) by {
            let k = choose|k: int| 0 <= k < found.len() && found[k] == e;
            assert(all[output.len() + timer_entries(due).len() + k] == e);
        }
    }
    assert forall|driver: &mut Driver<'arena, O>, entries: &mut Vec<Entry>|
        *driver == before && entries@ == output && #[trigger] call_ensures(
            Driver::<'arena, O>::operate_completed_and_requeue,
            (driver, &events, wait.scanned_till, entries),
            (),
        ) implies {
        &&& events@[i].flags.error ==> final(entries)@.contains(
            Entry { user_data, result: Err(IoError::Os(events@[i].data as i32)) },
        )
        &&& !events@[i].flags.error ==> exists|op: &mut O, operated: Operated|
            {
                &&& #[trigger] call_ensures(O::operate, (op,), operated)
                &&& operated matches Some(result) ==> final(entries)@.contains(Entry { user_data, result })
            }
    } by {
        let after = *final(driver);
        let all = final(entries)@;
        let till = wait.scanned_till as nat;
        let (operated, stages) = choose|operated: Seq<Operated>, stages: Seq<Seq<O>>|
            {
                &&& #[trigger] ready_operated(before, after, output, all, events@, till, operated, stages)
                &&& forall|i: int| #[trigger]
                    place(i) && i < operated.len() && !events@[i].flags.error ==> exists|op: &mut O|
                        {
                            &&& *op == stages[i][events@[i].udata as int]
                            &&& *final(op) == stages[i + 1][events@[i].udata as int]
                            &&& #[trigger] call_ensures(O::operate, (op,), operated[i])
                        }
            };
        assert(ready_operated(before, after, output, all, events@, till, operated, stages));
        assert(place(i));
        lemma_event_is_output(pending, events@, operated, i);
        let found = ready_entries(pending, events@, operated);
        assert forall|e: Entry| found.contains(e) implies #[trigger] all.contains(e) by {
            let k = choose|k: int| 0 <= k < found.len() && found[k] == e;
            assert(all[output.len() + k] == e);
        }
    }
}

/// The kernel is asked, once, for what the pending operations wait for: each event is that of the operation at the
/// place that it carries, no event is asked for twice, there are no more of them than entries, and every operation
/// that was looked at waits for one of them. Only where there are as many as entries is an operation not looked at.
pub proof fn law_kernel_is_asked_for_what_is_waited_for<'arena, O: OpCode>(
    before: Driver<'arena, O>,
    timeout: Option<Duration>,
    k: int,
    l: int,
    i: int,
)
    requires
        before.wf(),
        before.pending().len() <= usize::MAX,
    ensures
        forall|driver: &mut Driver<'arena, O>, till: usize|
            *driver == before && #[trigger] call_ensures(Driver::<'arena, O>::gather_changes, (driver,), till)
                ==> asks_for_what_is_waited_for(before, final(driver).changes(), till as int, k, l, i) && final(
                driver).pending() == before.pending(),
        forall|driver: &mut Driver<'arena, O>, wait: Wait|
            *driver == before && #[trigger] call_ensures(
                Driver::<'arena, O>::check_readiness,
                (driver, timeout),
                wait,
            ) ==> asks_for_what_is_waited_for(before, final(driver).changes(), wait.scanned_till as int, k, l, i)
                && final(driver).pending() == before.pending(),
        forall|events: &Vec<Event>| #[trigger]
            call_ensures(Driver::<'arena, O>::events_to_change, (&before,), events) ==> events@ == before.changes(),
{
    lemma_asks_for_what_is_waited_for(before, k, l, i);
}

/// What a scan finds is what is to be asked for.
proof fn lemma_asks_for_what_is_waited_for<'arena, O: OpCode>(before: Driver<'arena, O>, k: int, l: int, i: int)
    requires
        before.pending().len() <= usize::MAX,
    ensures
        asks_for_what_is_waited_for(
            before,
            change_list(filters(before.pending()), before.limit()),
            scanned(filters(before.pending()), before.limit()) as int,
            k,
            l,
            i,
        ),
{
    let waits = filters(before.pending());
    let limit = before.limit();
    let till = scanned(waits, limit) as int;
    let events = change_list(waits, limit);
    law_change_list(waits, limit);
    lemma_found_at_most(waits, limit);
    if 0 <= k < events.len() {
        lemma_first_uses(waits.take(till));
        let place = first_uses(waits.take(till))[k];
        assert(0 <= place < till);
        assert(events[k] == watch_once(waits[place], place as usize));
        assert(waits[place] == before.pending()[place].code().filter()->0);
    }
    if 0 <= k < l < events.len() {
        assert(events[k].filter != events[l].filter);
    }
    if 0 <= i < till {
        assert(waits[i] == before.pending()[i].code().filter()->0);
        let m = choose|m: int| 0 <= m < events.len() && (#[trigger] events[m]).filter == waits[i];
        assert(events[m].filter == waits[i]);
    }
}

/// What the events to ask for have to do with the pending operations, for the events `k` and `l` and the operation `i`,
/// where the scan stopped at `till`.
pub open spec fn asks_for_what_is_waited_for<'arena, O: OpCode>(
    before: Driver<'arena, O>,
    changes: Seq<Event>,
    till: int,
    k: int,
    l: int,
    i: int,
) -> bool {
    &&& changes.len() <= before.limit()
    &&& 0 <= till <= before.pending().len()
    &&& till < before.pending().len() ==> changes.len() == before.limit()
    &&& 0 <= k < changes.len() ==> {
        &&& changes[k].udata < till
        &&& before.pending()[changes[k].udata as int].code().filter()->0 == changes[k].filter
        &&& changes[k].flags.add && changes[k].flags.enable && changes[k].flags.oneshot && !changes[k].flags.error
    }
    &&& 0 <= k < l < changes.len() ==> changes[k].filter != changes[l].filter
    &&& 0 <= i < till ==> exists|m: int|
        0 <= m < changes.len() && (#[trigger] changes[m]).filter == before.pending()[i].code().filter()->0
}

/// Operations are queued as they are, behind those that are queued, and those that do not fit stay outside as they are.
pub proof fn law_operations_are_queued_as_they_are<'arena, O: OpCode>(
    before: Driver<'arena, O>,
    op: Operation<'arena, O>,
    object: OpObject<'arena, O>,
    outside: Seq<OpObject<'arena, O>>,
)
    ensures
        forall|driver: &mut Driver<'arena, O>, r: Result<(), Operation<'arena, O>>|
            *driver == before && r is Ok && #[trigger] call_ensures(
                <Driver<'arena, O> as CompleteIo<'arena, O>>::try_push,
                (driver, op),
                r,
            ) ==> {
                let after = final(driver).squeue();
                &&& after.len() == before.squeue().len() + 1
                &&& after.drop_last() == before.squeue()
                &&& after.last().code() == op.code()
                &&& after.last().user_data == op.user_data
                &&& *final(after.last().op) == *final(op.op)
            },
        forall|driver: &mut Driver<'arena, O>, r: Result<(), OpObject<'arena, O>>|
            *driver == before && r is Ok && #[trigger] call_ensures(
                <Driver<'arena, O> as CompleteIo<'arena, O>>::try_push_dyn,
                (driver, object),
                r,
            ) ==> final(driver).squeue() == before.squeue().push(object),
        forall|driver: &mut Driver<'arena, O>, ops: &mut VecDeque<OpObject<'arena, O>>|
            *driver == before && ops@ == outside && #[trigger] call_ensures(
                <Driver<'arena, O> as CompleteIo<'arena, O>>::push_queue,
                (driver, ops),
                (),
            ) ==> final(driver).squeue() + final(ops)@ == before.squeue() + outside,
{
}

/// Of the operations that were looked at, those that have not completed are put behind the others, and those that have
/// are gone; the ones that were not looked at come first, in their order.
pub proof fn law_looked_at_operations_go_to_the_back<'arena, O: OpCode>(before: Driver<'arena, O>, till: usize, i: int)
    requires
        till <= before.pending().len() <= usize::MAX,
        0 <= i < till,
    ensures
        forall|driver: &mut Driver<'arena, O>|
            *driver == before && #[trigger] call_ensures(Driver::<'arena, O>::requeue_pending, (driver, till), ()) ==> {
                let after = final(driver).pending();
                let others = before.pending().len() - till;
                &&& others <= after.len() <= before.pending().len()
                &&& after.take(others) == before.pending().skip(till as int)
                &&& !before.completed().contains(i as usize) ==> after.skip(others).contains(before.pending()[i])
                &&& before.completed().contains(i as usize) ==> after.len() < before.pending().len()
                &&& final(driver).squeue() == before.squeue()
            },
{
    let all = before.pending();
    let done = before.completed();
    let others = all.len() - till;
    lemma_kept(all, till as nat, done);
    lemma_kept_is_shorter(all, till as nat, done, i);
    let after = requeued(all, till as nat, done);
    assert(after.take(others) =~= all.skip(till as int));
    assert(after.skip(others) =~= kept(all, till as nat, done));
}

/// What is kept of the first few items is no more than there are, and less if one of them is done.
proof fn lemma_kept_is_shorter<T>(items: Seq<T>, count: nat, done: Set<usize>, i: int)
    requires
        count <= items.len() <= usize::MAX,
        0 <= i,
    ensures
        kept(items, count, done).len() <= count,
        i < count && done.contains(i as usize) ==> kept(items, count, done).len() < count,
    decreases count,
{
    if count > 0 {
        lemma_kept_is_shorter(items, (count - 1) as nat, done, i);
    }
}

/// A descriptor is what it was made of, and stands for itself. What is invalid is no descriptor.
pub proof fn law_descriptors(raw_fd: RawFd, fd: Fd, raw: RawFd, target: Fd)
    requires
        call_ensures(Fd::from_raw, (raw_fd,), fd),
        call_ensures(Fd::as_raw_fd, (&fd,), raw),
        call_ensures(<Fd as IntoFdOrFixed>::into, (fd,), target),
    ensures
        raw == raw_fd,
        target == fd,
        INVALID_FD == -1i32,
{
}

/// The kernel's answer to a wait, whatever it is, has the timers that have fallen due output first; behind them comes
/// no more than one entry for each reported event, and none after a failure, which is reported.
pub proof fn law_due_timers_are_output<'arena, O: OpCode>(
    before: Driver<'arena, O>,
    wait: Wait,
    answer: IoResult<Vec<Event>>,
    output: Seq<Entry>,
)
    ensures
        forall|driver: &mut Driver<'arena, O>, entries: &mut Vec<Entry>, r: IoResult<()>|
            *driver == before && entries@ == output && #[trigger] call_ensures(
                Driver::<'arena, O>::complete_submit,
                (driver, wait, answer, entries),
                r,
            ) ==> {
                &&& r is Ok <==> answer is Ok
                &&& answer is Err ==> r->Err_0 == answer->Err_0
                &&& final(entries)@.take(output.len() as int) == output
                &&& exists|now: nat, due: Seq<TimerView>| #[trigger]
                    reports_what_is_due(
                        before.timers(),
                        final(driver).timers(),
                        now,
                        due,
                        final(entries)@.skip(output.len() as int).take(due.len() as int),
                    ) && before.shows(now) && output.len() + due.len() <= final(entries)@.len() <= output.len()
                        + due.len() + if answer is Ok {
                        answer->Ok_0@.len()
                    } else {
                        0
                    }
            },
{
    assert forall|driver: &mut Driver<'arena, O>, entries: &mut Vec<Entry>, r: IoResult<()>|
        *driver == before && entries@ == output && #[trigger] call_ensures(
            Driver::<'arena, O>::complete_submit,
            (driver, wait, answer, entries),
            r,
        ) implies {
        &&& final(entries)@.take(output.len() as int) == output
        &&& exists|now: nat, due: Seq<TimerView>| #[trigger]
            reports_what_is_due(
                before.timers(),
                final(driver).timers(),
                now,
                due,
                final(entries)@.skip(output.len() as int).take(due.len() as int),
            ) && before.shows(now) && output.len() + due.len() <= final(entries)@.len() <= output.len() + due.len()
                + if answer is Ok {
                answer->Ok_0@.len()
            } else {
                0
            }
    } by {
        let after = *final(driver);
        let all = final(entries)@;
        let till = wait.scanned_till as nat;
        let (now, due, operated, stages) = choose|
            now: nat,
            due: Seq<TimerView>,
            operated: Seq<Operated>,
            stages: Seq<Seq<O>>,
        | #[trigger]
            waited(before, after, output, all, till, answer, now, due, operated, stages);
        assert(waited(before, after, output, all, till, answer, now, due, operated, stages));
        law_what_expires_is_due(before.timers(), after.timers(), now, due);
        assert(all.skip(output.len() as int).take(due.len() as int) =~= timer_entries(due));
        assert(all.take(output.len() as int) =~= output);
        if answer is Ok {
            lemma_at_most_one_entry_each(keys(op_views(before.pending())), answer->Ok_0@, operated);
        }
    }
}

/// There is no more than one entry for each event.
proof fn lemma_at_most_one_entry_each(pending: Seq<usize>, events: Seq<Event>, operated: Seq<Operated>)
    ensures
        ready_entries(pending, events, operated).len() <= events.len(),
    decreases events.len(),
{
    if events.len() > 0 {
        lemma_at_most_one_entry_each(pending, events.drop_last(), operated.drop_last());
    }
}

/// A submission that does not wait, because there is nothing to wait for but something to output, leaves no timer that
/// has fallen due; one that waits does so as long as it can if nothing is output: until the timeout is over or the
/// first timer falls due.
pub proof fn law_timers_are_not_held_back<'arena, O: OpCode>(
    before: Driver<'arena, O>,
    timeout: Option<Duration>,
    output: Seq<Entry>,
)
    requires
        before.wf(),
    ensures
        forall|driver: &mut Driver<'arena, O>, entries: &mut Vec<Entry>, outcome: Submitted|
            *driver == before && entries@ == output && #[trigger] call_ensures(
                Driver::<'arena, O>::submit,
                (driver, timeout, entries),
                outcome,
            ) ==> exists|now: nat|
                {
                    &&& #[trigger] before.shows(now)
                    &&& outcome is Completed ==> forall|t: TimerView| #[trigger]
                        final(driver).timers().contains(t) ==> now < t.1
                    &&& outcome is Completed ==> forall|t: TimerView|
                        before.timers().contains(t) && t.1 <= now ==> final(entries)@.contains(
                            #[trigger] timer_entry(t),
                        )
                    &&& outcome is Wait ==> forall|t: TimerView| #[trigger]
                        before.timers().contains(t) ==> final(driver).timers().contains(t)
                    &&& outcome is Wait && final(entries)@ == output ==> waits_as_long_as_it_can(
                        final(driver).timers(),
                        now,
                        timeout,
                        outcome->Wait_0.timeout,
                    )
                },
        forall|driver: &mut Driver<'arena, O>, wait: Wait|
            *driver == before && #[trigger] call_ensures(
                Driver::<'arena, O>::check_readiness,
                (driver, timeout),
                wait,
            ) ==> exists|now: nat| #[trigger]
                before.shows(now) && waits_as_long_as_it_can(before.timers(), now, timeout, wait.timeout),
{
    assert forall|driver: &mut Driver<'arena, O>, entries: &mut Vec<Entry>, outcome: Submitted|
        *driver == before && entries@ == output && #[trigger] call_ensures(
            Driver::<'arena, O>::submit,
            (driver, timeout, entries),
            outcome,
        ) implies exists|now: nat|
        {
            &&& #[trigger] before.shows(now)
            &&& outcome is Completed ==> forall|t: TimerView| #[trigger]
                final(driver).timers().contains(t) ==> now < t.1
            &&& outcome is Completed ==> forall|t: TimerView|
                before.timers().contains(t) && t.1 <= now ==> final(entries)@.contains(#[trigger] timer_entry(t))
            &&& outcome is Wait ==> forall|t: TimerView| #[trigger]
                before.timers().contains(t) ==> final(driver).timers().contains(t)
            &&& outcome is Wait && final(entries)@ == output ==> waits_as_long_as_it_can(
                final(driver).timers(),
                now,
                timeout,
                outcome->Wait_0.timeout,
            )
        } by {
        broadcast use vstd::seq_lib::group_to_multiset_ensures;

        let after = *final(driver);
        let all = final(entries)@;
        let (attempts, left, now, due) = choose|attempts: Attempts, left: Seq<O>, now: nat,
            due: Seq<TimerView>| #[trigger]
            submitted(before, after, output, all, timeout, outcome, attempts, left, now, due);
        assert(submitted(before, after, output, all, timeout, outcome, attempts, left, now, due));
        let ops = op_views(before.squeue());
        let timers = before.timers().add(new_timers(ops, attempts));
        let found = submission_output(before, attempts);
        match outcome {
            Submitted::Completed => {
                law_what_expires_is_due(timers, after.timers(), now, due);
                assert forall|t: TimerView| #[trigger] after.timers().contains(t) implies now < t.1 by {
                    assert(after.timers().count(t) > 0);
                }
                assert forall|t: TimerView| before.timers().contains(t) && t.1 <= now implies all.contains(
                    #[trigger] timer_entry(t),
                ) by {
                    assert(timers.count(t) > 0);
                    assert(due.to_multiset().count(t) > 0);
                    assert(due.contains(t));
                    let k = choose|k: int| 0 <= k < due.len() && due[k] == t;
                    assert(all[output.len() + found.len() + k] == timer_entries(due)[k]);
                    assert(timer_entries(due)[k] == timer_entry(t));
                }
            },
            Submitted::Wait(wait) => {
                assert forall|t: TimerView| #[trigger] before.timers().contains(t) implies after.timers().contains(
                    t,
                ) by {
                    assert(before.timers().count(t) > 0);
                }
                if all == output {
                    assert((output + found).len() == output.len());
                    law_cut_short_as_little_as_possible(timers, now, timeout, wait.timeout);
                }
            },
        }
        assert(before.shows(now));
    }
    assert forall|driver: &mut Driver<'arena, O>, wait: Wait|
        *driver == before && #[trigger] call_ensures(
            Driver::<'arena, O>::check_readiness,
            (driver, timeout),
            wait,
        ) implies exists|now: nat| #[trigger]
        before.shows(now) && waits_as_long_as_it_can(before.timers(), now, timeout, wait.timeout) by {
        let now = choose|now: nat|
            before.shows(now) && #[trigger] cut_short(before.timers(), now, timeout, wait.timeout);
        assert(before.shows(now) && cut_short(before.timers(), now, timeout, wait.timeout));
        law_cut_short_as_little_as_possible(before.timers(), now, timeout, wait.timeout);
    }
}

/// The entry of a timer that has fallen due.
pub open spec fn timer_entry(timer: TimerView) -> Entry {
    Entry { user_data: timer.0, result: Ok(0) }
}

/// A driver takes operations exactly as long as fewer are queued than it was made for, and says how many more it takes.
/// Nothing of an external queue stays outside as long as there is room.
pub proof fn law_takes_as_many_as_it_was_made_for<'arena, O: OpCode>(
    before: Driver<'arena, O>,
    object: OpObject<'arena, O>,
    op: Operation<'arena, O>,
    outside: Seq<OpObject<'arena, O>>,
    left: usize,
)
    requires
        before.wf(),
        before.squeue().len() <= before.limit(),
        call_ensures(<Driver<'arena, O> as CompleteIo<'arena, O>>::capacity_left, (&before,), left),
    ensures
        left + before.squeue().len() == before.limit(),
        forall|driver: &mut Driver<'arena, O>, r: Result<(), Operation<'arena, O>>|
            *driver == before && #[trigger] call_ensures(
                <Driver<'arena, O> as CompleteIo<'arena, O>>::try_push,
                (driver, op),
                r,
            ) ==> (r is Ok <==> before.squeue().len() < before.limit()),
        forall|driver: &mut Driver<'arena, O>, r: Result<(), OpObject<'arena, O>>|
            *driver == before && #[trigger] call_ensures(
                <Driver<'arena, O> as CompleteIo<'arena, O>>::try_push_dyn,
                (driver, object),
                r,
            ) ==> (r is Ok <==> before.squeue().len() < before.limit()),
        forall|driver: &mut Driver<'arena, O>, ops: &mut VecDeque<OpObject<'arena, O>>|
            *driver == before && ops@ == outside && #[trigger] call_ensures(
                <Driver<'arena, O> as CompleteIo<'arena, O>>::push_queue,
                (driver, ops),
                (),
            ) ==> {
                &&& final(driver).squeue().len() <= before.limit()
                &&& final(ops)@.len() > 0 ==> final(driver).squeue().len() == before.limit()
                &&& final(driver).squeue().len() + final(ops)@.len() == before.squeue().len() + outside.len()
            },
{
    assert forall|driver: &mut Driver<'arena, O>, ops: &mut VecDeque<OpObject<'arena, O>>|
        *driver == before && ops@ == outside && #[trigger] call_ensures(
            <Driver<'arena, O> as CompleteIo<'arena, O>>::push_queue,
            (driver, ops),
            (),
        ) implies final(driver).squeue().len() + final(ops)@.len() == before.squeue().len() + outside.len() by {
        assert((final(driver).squeue() + final(ops)@).len() == (before.squeue() + outside).len());
    }
}

} // verus!
