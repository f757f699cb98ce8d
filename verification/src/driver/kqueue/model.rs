//! What submitting and waiting mean, in terms of the queues before and after.
use vstd::prelude::*;

use crate::driver::attempts::{OpView, Operated};
use crate::driver::kqueue::{watch_once, Event, EventFilter, OpCode};
use crate::driver::{Entry, OpObject};
use crate::error::IoError;

verus! {

/// The views of queued operations, the front of the queue first.
pub open spec fn op_views<'arena, O: OpCode>(ops: Seq<OpObject<'arena, O>>) -> Seq<OpView> {
    ops.map_values(|op: OpObject<'arena, O>| (op.user_data, op.code().delay()))
}

/// What the operations of a queue wait for.
pub open spec fn filters<'arena, O: OpCode>(ops: Seq<OpObject<'arena, O>>) -> Seq<EventFilter> {
    ops.map_values(|op: OpObject<'arena, O>| op.code().filter()->0)
}

/// The places of those that nobody in front of them waits for already.
pub open spec fn first_uses(waits: Seq<EventFilter>) -> Seq<int>
    decreases waits.len(),
{
    if waits.len() == 0 {
        Seq::empty()
    } else {
        let rest = first_uses(waits.drop_last());
        if waits.drop_last().contains(waits.last()) {
            rest
        } else {
            rest.push(waits.len() - 1)
        }
    }
}

/// How many places are looked at until `limit` events are found: the place that a scan stops at. A scan that gets
/// to the end stops behind the last place.
pub open spec fn scanned(waits: Seq<EventFilter>, limit: nat) -> nat
    decreases waits.len(),
{
    if waits.len() == 0 {
        0
    } else {
        let before = scanned(waits.drop_last(), limit);
        if before < waits.len() - 1 || first_uses(waits.drop_last()).len() >= limit {
            before
        } else {
            waits.len()
        }
    }
}

/// The events that a scan finds: one for each direction of each descriptor, as far as `limit` allows.
pub open spec fn change_list(waits: Seq<EventFilter>, limit: nat) -> Seq<Event> {
    first_uses(waits.take(scanned(waits, limit) as int)).map_values(
        |i: int| watch_once(waits[i], i as usize),
    )
}

/// The event reports a failure, with an error code that the system can have.
pub open spec fn reports_error_code(event: Event) -> bool {
    event.flags.error ==> i32::MIN <= event.data <= i32::MAX
}

/// What a reported event, and the attempt made on it, mean for the operation with the given user data.
pub open spec fn ready_entry(user_data: usize, event: Event, operated: Operated) -> Option<Entry> {
    if event.flags.error {
        Some(Entry { user_data, result: Err(IoError::Os(event.data as i32)) })
    } else {
        match operated {
            Some(result) => Some(Entry { user_data, result }),
            None => None,
        }
    }
}

/// The entries of the operations that the reported events complete, in the order of the events.
pub open spec fn ready_entries(
    pending: Seq<usize>,
    events: Seq<Event>,
    operated: Seq<Operated>,
) -> Seq<Entry>
    decreases events.len(),
{
    if events.len() == 0 {
        Seq::empty()
    } else {
        let rest = ready_entries(pending, events.drop_last(), operated.drop_last());
        match ready_entry(pending[events.last().udata as int], events.last(), operated.last()) {
            Some(entry) => rest.push(entry),
            None => rest,
        }
    }
}

/// How the pending operations stand as the reported events are dealt with, one after the other: an event
/// concerns the operation at its place and no other, and none if it reports a failure.
pub open spec fn ready_stages<O>(events: Seq<Event>, stages: Seq<Seq<O>>) -> bool {
    &&& stages.len() == events.len() + 1
    &&& forall|i: int|
        #![trigger events[i]]
        0 <= i < events.len() ==> stages[i + 1] == if events[i].flags.error {
            stages[i]
        } else {
            stages[i].update(events[i].udata as int, stages[i + 1][events[i].udata as int])
        }
}

/// The places of the operations that the reported events complete.
pub open spec fn completed_places(events: Seq<Event>, operated: Seq<Operated>) -> Set<usize>
    decreases events.len(),
{
    if events.len() == 0 {
        Set::empty()
    } else {
        let rest = completed_places(events.drop_last(), operated.drop_last());
        if events.last().flags.error || operated.last() is Some {
            rest.insert(events.last().udata)
        } else {
            rest
        }
    }
}

/// Those of the first `count` items that do not stand at a place in `done`.
pub open spec fn kept<T>(items: Seq<T>, count: nat, done: Set<usize>) -> Seq<T>
    decreases count,
{
    if count == 0 {
        Seq::empty()
    } else {
        let rest = kept(items, (count - 1) as nat, done);
        if done.contains((count - 1) as usize) {
            rest
        } else {
            rest.push(items[count - 1])
        }
    }
}

/// The first `count` items, without those at a place in `done`, put behind the others.
pub open spec fn requeued<T>(items: Seq<T>, count: nat, done: Set<usize>) -> Seq<T> {
    items.skip(count as int) + kept(items, count, done)
}

/// As long as the scan has not stopped, it has looked at everything.
pub proof fn lemma_scanned_step(waits: Seq<EventFilter>, limit: nat, i: int)
    requires
        0 <= i < waits.len(),
        scanned(waits.take(i), limit) == i,
    ensures
        first_uses(waits.take(i)).len() < limit ==> scanned(waits.take(i + 1), limit) == i + 1,
        first_uses(waits.take(i)).len() >= limit ==> scanned(waits, limit) == i,
{
    assert(waits.take(i + 1).drop_last() =~= waits.take(i));
    if first_uses(waits.take(i)).len() >= limit {
        lemma_scan_stays(waits, limit, i, waits.len() as int);
        assert(waits.take(waits.len() as int) =~= waits);
    }
}

/// A scan that has stopped stays where it is.
proof fn lemma_scan_stays(waits: Seq<EventFilter>, limit: nat, i: int, j: int)
    requires
        0 <= i < j <= waits.len(),
        scanned(waits.take(i), limit) == i,
        first_uses(waits.take(i)).len() >= limit,
    ensures
        scanned(waits.take(j), limit) == i,
    decreases j - i,
{
    assert(waits.take(j).drop_last() =~= waits.take(j - 1));
    if j - 1 > i {
        lemma_scan_stays(waits, limit, i, j - 1);
    }
}

/// The places found are places, each further back than the one before.
pub proof fn lemma_first_uses(waits: Seq<EventFilter>)
    ensures
        forall|k: int|
            0 <= k < first_uses(waits).len() ==> 0 <= #[trigger] first_uses(waits)[k] < waits.len(),
        forall|k: int, l: int|
            0 <= k < l < first_uses(waits).len() ==> #[trigger] first_uses(waits)[k]
                < #[trigger] first_uses(waits)[l],
    decreases waits.len(),
{
    let found = first_uses(waits);
    if waits.len() > 0 {
        let rest = first_uses(waits.drop_last());
        lemma_first_uses(waits.drop_last());
        assert forall|k: int| 0 <= k < found.len() implies 0 <= #[trigger] found[k] < waits.len() by {
            assert(k < rest.len() ==> found[k] == rest[k]);
        }
        assert forall|k: int, l: int| 0 <= k < l < found.len() implies #[trigger] found[k]
            < #[trigger] found[l] by {
            assert(found[k] == rest[k]);
            assert(l < rest.len() ==> found[l] == rest[l]);
        }
    }
}

/// Every event waited for is found, at the first of the places that wait for it.
pub proof fn lemma_first_uses_cover(waits: Seq<EventFilter>, i: int)
    requires
        0 <= i < waits.len(),
    ensures
        exists|k: int|
            0 <= k < first_uses(waits).len() && #[trigger] first_uses(waits)[k] <= i
                && waits[first_uses(waits)[k]] == waits[i],
    decreases waits.len(),
{
    let front = waits.drop_last();
    let rest = first_uses(front);
    let found = first_uses(waits);
    if i < front.len() || front.contains(waits[i]) {
        let j = if i < front.len() {
            i
        } else {
            choose|j: int| 0 <= j < front.len() && front[j] == waits[i]
        };
        lemma_first_uses_cover(front, j);
        let k = choose|k: int|
            0 <= k < rest.len() && #[trigger] rest[k] <= j && front[rest[k]] == front[j];
        lemma_first_uses(front);
        assert(found[k] == rest[k]);
    } else {
        assert(found[found.len() - 1] == i);
    }
}

/// No event is found twice.
pub proof fn lemma_first_uses_distinct(waits: Seq<EventFilter>, k: int, l: int)
    requires
        0 <= k < l < first_uses(waits).len(),
    ensures
        waits[first_uses(waits)[k]] != waits[first_uses(waits)[l]],
    decreases waits.len(),
{
    let front = waits.drop_last();
    let rest = first_uses(front);
    let found = first_uses(waits);
    lemma_first_uses(front);
    assert(found[k] == rest[k]);
    assert(front[rest[k]] == waits[found[k]]);
    if l < rest.len() {
        lemma_first_uses_distinct(front, k, l);
        assert(found[l] == rest[l]);
        assert(front[rest[l]] == waits[found[l]]);
    } else {
        assert(front.contains(front[rest[k]]));
    }
}

/// The descriptors that are waited for in one direction.
pub open spec fn descriptors(waits: Seq<EventFilter>, reads: bool) -> Set<usize> {
    Set::new(
        |fd: usize| fd <= i32::MAX && waits.contains(
            if reads {
                EventFilter::Read(fd as i32)
            } else {
                EventFilter::Write(fd as i32)
            },
        ),
    )
}

/// One more wait adds its descriptor to those of its direction.
pub proof fn lemma_descriptors_push(waits: Seq<EventFilter>, wait: EventFilter)
    requires
        wait.raw_fd() >= 0,
    ensures
        wait is Read ==> descriptors(waits.push(wait), true) =~= descriptors(waits, true).insert(
            wait.raw_fd() as usize,
        ) && descriptors(waits.push(wait), false) =~= descriptors(waits, false),
        wait is Write ==> descriptors(waits.push(wait), false) =~= descriptors(waits, false).insert(
            wait.raw_fd() as usize,
        ) && descriptors(waits.push(wait), true) =~= descriptors(waits, true),
        descriptors(waits, wait is Read).contains(wait.raw_fd() as usize) == waits.contains(wait),
{
    broadcast use vstd::seq_lib::group_seq_properties;

    assert(forall|f: EventFilter| #[trigger]
        waits.push(wait).contains(f) == (waits.contains(f) || f == wait)) by {
        assert forall|f: EventFilter| #[trigger]
            waits.push(wait).contains(f) == (waits.contains(f) || f == wait) by {
            if waits.contains(f) {
                let i = choose|i: int| 0 <= i < waits.len() && waits[i] == f;
                assert(waits.push(wait)[i] == f);
            }
            assert(waits.push(wait)[waits.len() as int] == wait);
        }
    }
}

/// One more event: its entry, if it completes an operation, comes last, and the place joins the others.
pub proof fn lemma_ready_push(
    pending: Seq<usize>,
    events: Seq<Event>,
    operated: Seq<Operated>,
    event: Event,
    attempt: Operated,
)
    ensures
        ready_entries(pending, events.push(event), operated.push(attempt)) == match ready_entry(
            pending[event.udata as int],
            event,
            attempt,
        ) {
            Some(entry) => ready_entries(pending, events, operated).push(entry),
            None => ready_entries(pending, events, operated),
        },
        completed_places(events.push(event), operated.push(attempt)) == if event.flags.error
            || attempt is Some {
            completed_places(events, operated).insert(event.udata)
        } else {
            completed_places(events, operated)
        },
{
    assert(events.push(event).drop_last() =~= events);
    assert(operated.push(attempt).drop_last() =~= operated);
}

/// Taking out and putting behind does not look at what the items are.
pub proof fn lemma_requeued_map<T, U>(items: Seq<T>, count: nat, done: Set<usize>, f: spec_fn(T) -> U)
    requires
        count <= items.len(),
    ensures
        requeued(items, count, done).map_values(f) == requeued(items.map_values(f), count, done),
{
    lemma_kept_map(items, count, done, f);
    assert(requeued(items, count, done).map_values(f) =~= requeued(items.map_values(f), count, done));
}

proof fn lemma_kept_map<T, U>(items: Seq<T>, count: nat, done: Set<usize>, f: spec_fn(T) -> U)
    requires
        count <= items.len(),
    ensures
        kept(items, count, done).map_values(f) == kept(items.map_values(f), count, done),
    decreases count,
{
    if count > 0 {
        lemma_kept_map(items, (count - 1) as nat, done, f);
    }
    assert(kept(items, count, done).map_values(f) =~= kept(items.map_values(f), count, done));
}

} // verus!
