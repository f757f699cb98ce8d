//! What holds of results and those who wait for them.
use vstd::prelude::*;

use std::collections::VecDeque;

use crate::driver::attempts::place;
use crate::driver::{CompleteIo, Entry, OpObject};
use crate::error::{CallError, IoError, IoResult};
use crate::key::Key;
use crate::poll::Poll;
use crate::task::block_on;
use crate::task::op::{all_delivered, delivered, delivery, polled, Delivered, OpFuture, OpRuntime};
use crate::task::runtime::{cancels_retried, operations_pushed, Polled, Runtime, Step};
use crate::task::slots::{fresh, OpToken, Ops, WakerToken};
use crate::time::Duration;

verus! {

/// A result that has arrived is handed out to the first who asks, and to nobody after that.
pub proof fn law_result_is_handed_out_once(
    ops: Ops,
    entry: Entry,
    taken: Ops,
    again: Ops,
    waker: WakerToken,
    ready: bool,
    ready_again: bool,
)
    requires
        ops.contains_key(entry.user_data),
        !ops[entry.user_data].cancelled,
        polled(delivered(ops, entry), taken, entry.user_data, waker, ready),
        polled(taken, again, entry.user_data, waker, ready_again),
    ensures
        ready,
        delivered(ops, entry)[entry.user_data].result == Some(entry.result),
        delivered(ops, entry)[entry.user_data].op == ops[entry.user_data].op,
        !taken.contains_key(entry.user_data),
        !ready_again,
{
}

/// A result that nobody waits for any more is dropped together with its operation.
pub proof fn law_cancelled_operation_is_dropped(ops: Ops, entry: Entry)
    requires
        ops.contains_key(entry.user_data),
        ops[entry.user_data].cancelled,
    ensures
        !delivered(ops, entry).contains_key(entry.user_data),
        delivery(ops, entry.user_data).dropped == ops[entry.user_data].op,
{
}

/// Who asks for a result before it is there is woken when it arrives.
pub proof fn law_who_waits_is_woken(before: Ops, after: Ops, user_data: usize, waker: WakerToken)
    requires
        before.contains_key(user_data),
        polled(before, after, user_data, waker, false),
    ensures
        delivery(after, user_data).woken == Some(waker),
{
}

/// Results concern only the operations that they are results of.
pub proof fn law_other_operations_stay(ops: Ops, entries: Seq<Entry>, user_data: usize)
    requires
        forall|i: int| 0 <= i < entries.len() ==> (#[trigger] entries[i]).user_data != user_data,
    ensures
        all_delivered(ops, entries).contains_key(user_data) == ops.contains_key(user_data),
        ops.contains_key(user_data) ==> all_delivered(ops, entries)[user_data] == ops[user_data],
    decreases entries.len(),
{
    if entries.len() > 0 {
        assert forall|i: int| 0 <= i < entries.drop_last().len() implies (
        #[trigger] entries.drop_last()[i]).user_data != user_data by {
            assert(entries[i].user_data != user_data);
        }
        law_other_operations_stay(ops, entries.drop_last(), user_data);
        assert(entries[entries.len() - 1].user_data != user_data);
    }
}

/// A registered operation has neither a result nor somebody to wake, and registering it changes no other.
pub proof fn law_registration_is_fresh(ops: Ops, key: usize, op: Option<OpToken>, other: usize)
    requires
        !ops.contains_key(key),
        ops.contains_key(other),
    ensures
        ops.insert(key, fresh(op))[other] == ops[other],
        ops.insert(key, fresh(op))[key].result is None,
        ops.insert(key, fresh(op))[key].waker is None,
        !ops.insert(key, fresh(op))[key].cancelled,
{
}

/// An operation is registered under a key that was not in use: nothing is known of it yet but the operation itself, or
/// that there is none behind a dummy. No other operation is touched.
pub proof fn law_registered_under_a_free_key<T>(before: OpRuntime, op: OpToken, other: usize)
    ensures
        forall|runtime: &mut OpRuntime, key: Key<T>|
            *runtime == before && #[trigger] call_ensures(OpRuntime::insert::<T>, (runtime, op), key) ==> {
                let after = final(runtime)@;
                let registered = after[key.data()];
                &&& !before@.contains_key(key.data())
                &&& after.contains_key(key.data())
                &&& registered.op == Some(op) && registered.waker is None && registered.result is None
                &&& !registered.cancelled
                &&& other != key.data() ==> after.contains_key(other) == before@.contains_key(other)
                &&& other != key.data() && before@.contains_key(other) ==> after[other] == before@[other]
            },
        forall|runtime: &mut OpRuntime, key: Key<()>|
            *runtime == before && #[trigger] call_ensures(OpRuntime::insert_dummy, (runtime,), key) ==> {
                let after = final(runtime)@;
                let registered = after[key.data()];
                &&& !before@.contains_key(key.data())
                &&& after.contains_key(key.data())
                &&& registered.op is None && registered.waker is None && registered.result is None
                &&& !registered.cancelled
                &&& other != key.data() ==> after.contains_key(other) == before@.contains_key(other)
                &&& other != key.data() && before@.contains_key(other) ==> after[other] == before@[other]
            },
        forall|made: OpRuntime, key: usize| #[trigger]
            call_ensures(OpRuntime::new, (), made) ==> !(#[trigger] made@.contains_key(key)),
{
}

/// A result is kept for whoever waits for it, and wakes them; if nobody waits any more the operation is handed over to
/// be dropped. A result of an unknown operation changes nothing, and no result touches another operation.
pub proof fn law_result_is_kept_or_dropped<T>(
    before: OpRuntime,
    key: Key<T>,
    result: IoResult<usize>,
    other: usize,
)
    ensures
        forall|runtime: &mut OpRuntime, to: Delivered|
            *runtime == before && #[trigger] call_ensures(
                OpRuntime::update_result::<T>,
                (runtime, &key, result),
                to,
            ) ==> {
                let after = final(runtime)@;
                let known = before@.contains_key(key.data());
                let op = before@[key.data()];
                &&& known ==> to.woken == op.waker
                &&& known && !op.cancelled ==> {
                    &&& after.contains_key(key.data())
                    &&& after[key.data()].result == Some(result)
                    &&& after[key.data()].op == op.op
                    &&& after[key.data()].waker is None
                    &&& !after[key.data()].cancelled
                    &&& to.dropped is None
                }
                &&& known && op.cancelled ==> !after.contains_key(key.data()) && to.dropped == op.op
                &&& !known ==> after == before@ && to.woken is None && to.dropped is None
                &&& other != key.data() ==> after.contains_key(other) == before@.contains_key(other)
                &&& other != key.data() && before@.contains_key(other) ==> after[other] == before@[other]
            },
{
}

/// Setting a waker, asking whether the result is there, and taking note that nobody waits any more concern one
/// operation, and that property of it alone. The waker that was set before is handed back, and so is one that cannot be
/// set.
pub proof fn law_notes_on_an_operation<T>(before: OpRuntime, key: Key<T>, waker: WakerToken, other: usize)
    ensures
        forall|runtime: &mut OpRuntime, replaced: Option<WakerToken>|
            *runtime == before && #[trigger] call_ensures(
                OpRuntime::update_waker::<T>,
                (runtime, &key, waker),
                replaced,
            ) ==> {
                let after = final(runtime)@;
                let known = before@.contains_key(key.data());
                &&& known ==> after.contains_key(key.data()) && after[key.data()].waker == Some(waker)
                    && after[key.data()].op == before@[key.data()].op && after[key.data()].result
                    == before@[key.data()].result && after[key.data()].cancelled == before@[key.data()].cancelled
                    && replaced == before@[key.data()].waker
                &&& !known ==> after == before@ && replaced == Some(waker)
                &&& other != key.data() ==> after.contains_key(other) == before@.contains_key(other)
                &&& other != key.data() && before@.contains_key(other) ==> after[other] == before@[other]
            },
        forall|runtime: &mut OpRuntime, there: bool|
            *runtime == before && #[trigger] call_ensures(OpRuntime::has_result::<T>, (runtime, &key), there) ==> {
                &&& there <==> before@.contains_key(key.data()) && before@[key.data()].result is Some
                &&& final(runtime)@ == before@
            },
        forall|runtime: &mut OpRuntime|
            *runtime == before && #[trigger] call_ensures(OpRuntime::cancel::<T>, (runtime, &key), ()) ==> {
                let after = final(runtime)@;
                let known = before@.contains_key(key.data());
                &&& known ==> after.contains_key(key.data()) && after[key.data()].cancelled
                    && after[key.data()].op == before@[key.data()].op && after[key.data()].result
                    == before@[key.data()].result && after[key.data()].waker == before@[key.data()].waker
                &&& !known ==> after == before@
                &&& other != key.data() ==> after.contains_key(other) == before@.contains_key(other)
                &&& other != key.data() && before@.contains_key(other) ==> after[other] == before@[other]
            },
        forall|runtime: &mut OpRuntime, taken: (Option<IoResult<usize>>, Option<OpToken>)|
            *runtime == before && before@.contains_key(key.data()) && #[trigger] call_ensures(
                OpRuntime::remove::<T>,
                (runtime, &key),
                taken,
            ) ==> {
                let after = final(runtime)@;
                &&& taken.0 == before@[key.data()].result
                &&& taken.1 == before@[key.data()].op
                &&& !after.contains_key(key.data())
                &&& other != key.data() ==> after.contains_key(other) == before@.contains_key(other)
                &&& other != key.data() && before@.contains_key(other) ==> after[other] == before@[other]
            },
{
}

/// Who asks for a result gets it exactly if it is there, with the operation, which is then gone. Otherwise they are
/// noted to be woken, and nothing else changes.
pub proof fn law_result_is_handed_out_when_there<T>(
    before: OpRuntime,
    key: Key<T>,
    dummy: Key<()>,
    waker: WakerToken,
)
    ensures
        forall|runtime: &mut OpRuntime, r: Poll<(IoResult<usize>, OpToken)>|
            *runtime == before && #[trigger] call_ensures(
                OpRuntime::poll_task::<T>,
                (runtime, &key, waker),
                r,
            ) ==> {
                let after = final(runtime)@;
                let known = before@.contains_key(key.data());
                &&& r is Ready <==> known && before@[key.data()].result is Some
                &&& r matches Poll::Ready(taken) ==> before@[key.data()].result == Some(taken.0)
                    && before@[key.data()].op == Some(taken.1) && !after.contains_key(key.data())
                &&& r is Pending && known ==> after.contains_key(key.data()) && after[key.data()].waker == Some(waker)
                    && after[key.data()].result is None && after[key.data()].op == before@[key.data()].op
                &&& !known ==> after == before@
            },
        forall|runtime: &mut OpRuntime, r: Poll<IoResult<usize>>|
            *runtime == before && #[trigger] call_ensures(
                OpRuntime::poll_dummy,
                (runtime, &dummy, waker),
                r,
            ) ==> {
                let after = final(runtime)@;
                let known = before@.contains_key(dummy.data());
                &&& r is Ready <==> known && before@[dummy.data()].result is Some
                &&& r matches Poll::Ready(taken) ==> before@[dummy.data()].result == Some(taken)
                    && !after.contains_key(dummy.data())
                &&& r is Pending && known ==> after.contains_key(dummy.data()) && after[dummy.data()].waker == Some(
                    waker,
                ) && after[dummy.data()].result is None
                &&& !known ==> after == before@
            },
{
}

/// A future asks for the result of the operation that it was made for, gets it exactly if it is there, and has the
/// operation cancelled when it is dropped exactly if it got none.
pub proof fn law_future_cancels_unless_it_got_its_result<T>(
    key: Key<T>,
    made: OpFuture<T>,
    before: OpRuntime,
    waker: WakerToken,
)
    requires
        call_ensures(OpFuture::<T>::new, (key,), made),
    ensures
        made.data() == key.data(),
        forall|cancels: bool| #[trigger]
            call_ensures(OpFuture::<T>::cancels_on_drop, (&made,), cancels) ==> cancels,
        forall|future: &mut OpFuture<T>, runtime: &mut OpRuntime, r: Poll<(IoResult<usize>, OpToken)>|
            *future == made && *runtime == before && #[trigger] call_ensures(
                OpFuture::<T>::poll,
                (future, runtime, waker),
                r,
            ) ==> {
                let known = before@.contains_key(key.data());
                &&& r is Ready <==> known && before@[key.data()].result is Some
                &&& r matches Poll::Ready(taken) ==> before@[key.data()].result == Some(taken.0)
                    && before@[key.data()].op == Some(taken.1) && !final(runtime)@.contains_key(key.data())
                &&& final(future).data() == key.data()
                &&& final(future).completed() <==> r is Ready
            },
        forall|future: OpFuture<T>, cancels: bool| #[trigger]
            call_ensures(OpFuture::<T>::cancels_on_drop, (&future,), cancels) ==> (cancels <==> !future.completed()),
        forall|future: OpFuture<T>, back: &Key<T>| #[trigger]
            call_ensures(OpFuture::<T>::key, (&future,), back) ==> back.data() == future.data(),
{
}

/// An operation that somebody waits for stays so while results arrive.
proof fn lemma_still_waited_for(ops: Ops, entries: Seq<Entry>, user_data: usize)
    requires
        ops.contains_key(user_data),
        !ops[user_data].cancelled,
    ensures
        all_delivered(ops, entries).contains_key(user_data),
        !all_delivered(ops, entries)[user_data].cancelled,
        all_delivered(ops, entries)[user_data].op == ops[user_data].op,
    decreases entries.len(),
{
    if entries.len() > 0 {
        lemma_still_waited_for(ops, entries.drop_last(), user_data);
    }
}

/// Where results arrive one after the other, the last one of an operation is kept, and whoever waits is woken by the
/// first one.
pub proof fn law_results_arrive_in_their_order(
    before: OpRuntime,
    entries: Vec<Entry>,
    user_data: usize,
    first: int,
    last: int,
)
    requires
        before@.contains_key(user_data),
        !before@[user_data].cancelled,
        0 <= first <= last < entries@.len(),
        entries@[first].user_data == user_data,
        entries@[last].user_data == user_data,
        forall|i: int| 0 <= i < first ==> (#[trigger] entries@[i]).user_data != user_data,
        forall|i: int| last < i < entries@.len() ==> (#[trigger] entries@[i]).user_data != user_data,
    ensures
        forall|runtime: &mut OpRuntime, all: Vec<Delivered>|
            *runtime == before && #[trigger] call_ensures(OpRuntime::extend, (runtime, &entries), all) ==> {
                let after = final(runtime)@;
                &&& all@.len() == entries@.len()
                &&& all@[first].woken == before@[user_data].waker
                &&& after.contains_key(user_data)
                &&& after[user_data].result == Some(entries@[last].result)
                &&& after[user_data].op == before@[user_data].op
            },
{
    let ops = before@;
    let early = entries@.take(first);
    assert forall|i: int| 0 <= i < early.len() implies (#[trigger] early[i]).user_data != user_data by {
        assert(entries@[i].user_data != user_data);
    }
    law_other_operations_stay(ops, early, user_data);
    lemma_last_result_is_kept(ops, entries@, user_data, last);
}

/// The last result of an operation is the one that is kept.
proof fn lemma_last_result_is_kept(ops: Ops, entries: Seq<Entry>, user_data: usize, last: int)
    requires
        ops.contains_key(user_data),
        !ops[user_data].cancelled,
        0 <= last < entries.len(),
        entries[last].user_data == user_data,
        forall|i: int| last < i < entries.len() ==> (#[trigger] entries[i]).user_data != user_data,
    ensures
        all_delivered(ops, entries).contains_key(user_data),
        all_delivered(ops, entries)[user_data].result == Some(entries[last].result),
        all_delivered(ops, entries)[user_data].op == ops[user_data].op,
    decreases entries.len(),
{
    let rest = entries.drop_last();
    if last == entries.len() - 1 {
        lemma_still_waited_for(ops, rest, user_data);
    } else {
        assert forall|i: int| last < i < rest.len() implies (#[trigger] rest[i]).user_data != user_data by {
            assert(entries[i].user_data != user_data);
        }
        assert(rest[last] == entries[last]);
        lemma_last_result_is_kept(ops, rest, user_data, last);
        assert(entries[entries.len() - 1].user_data != user_data);
    }
}

/// What was scheduled runs in the order in which it was scheduled. The task is over, and the driver is polled, only
/// when nothing is left to run: the first if its result is there, the second if it is not.
pub proof fn law_runs_in_the_order_of_scheduling<'arena, O, D: CompleteIo<'arena, O>, R>(
    before: Runtime<'arena, O, D, R>,
    runnable: R,
    has_result: bool,
)
    ensures
        forall|runtime: &mut Runtime<'arena, O, D, R>|
            *runtime == before && #[trigger] call_ensures(
                Runtime::<'arena, O, D, R>::schedule,
                (runtime, runnable),
                (),
            ) ==> {
                let after = final(runtime).runnables();
                &&& after.len() == before.runnables().len() + 1
                &&& after.last() == runnable
                &&& forall|i: int|
                    0 <= i < before.runnables().len() ==> #[trigger] after[i] == before.runnables()[i]
            },
        forall|runtime: &mut Runtime<'arena, O, D, R>, step: Step<R>|
            *runtime == before && #[trigger] call_ensures(
                Runtime::<'arena, O, D, R>::block_on,
                (runtime, has_result),
                step,
            ) ==> {
                let after = final(runtime).runnables();
                &&& step is Run <==> before.runnables().len() > 0
                &&& step matches Step::Run(next) ==> next == before.runnables()[0] && after.len()
                    == before.runnables().len() - 1 && forall|i: int|
                    0 <= i < after.len() ==> #[trigger] after[i] == before.runnables()[i + 1]
                &&& step is Return <==> before.runnables().len() == 0 && has_result
                &&& step is Poll <==> before.runnables().len() == 0 && !has_result
                &&& final(runtime).ops() == before.ops()
            },
        forall|runtime: &mut Runtime<'arena, O, D, R>, step: Step<R>|
            *runtime == before && #[trigger] call_ensures(
                block_on::<O, D, R>,
                (runtime, has_result),
                step,
            ) ==> {
                let after = final(runtime).runnables();
                &&& step is Run <==> before.runnables().len() > 0
                &&& step matches Step::Run(next) ==> next == before.runnables()[0] && after.len()
                    == before.runnables().len() - 1 && forall|i: int|
                    0 <= i < after.len() ==> #[trigger] after[i] == before.runnables()[i + 1]
                &&& step is Return <==> before.runnables().len() == 0 && has_result
                &&& step is Poll <==> before.runnables().len() == 0 && !has_result
            },
{
}

/// A submitted operation is registered under a free key, and goes to the back of the driver's queue under that key, or,
/// if that is full, to the back of those that wait for their turn.
pub proof fn law_submitted_operation_takes_its_turn<'arena, O, D: CompleteIo<'arena, O>, R>(
    before: Runtime<'arena, O, D, R>,
    token: OpToken,
)
    ensures
        forall|runtime: &mut Runtime<'arena, O, D, R>, op: &'arena mut O, future: OpFuture<O>|
            *runtime == before && #[trigger] call_ensures(
                Runtime::<'arena, O, D, R>::submit,
                (runtime, op, token),
                future,
            ) ==> {
                let after = *final(runtime);
                let room = before.driver().queued().len() < before.driver().capacity();
                &&& !before.ops().contains_key(future.data())
                &&& after.ops().contains_key(future.data())
                &&& after.ops()[future.data()].op == Some(token)
                &&& after.ops()[future.data()].result is None
                &&& !after.ops()[future.data()].cancelled
                &&& !future.completed()
                &&& room ==> after.driver().queued().len() == before.driver().queued().len() + 1
                    && after.driver().queued().last() == future.data() && after.unqueued() == before.unqueued()
                &&& !room ==> after.driver() == before.driver() && after.unqueued().len()
                    == before.unqueued().len() + 1 && after.unqueued().last().user_data == future.data()
                    && after.unqueued().drop_last() == before.unqueued()
                &&& after.runnables() == before.runnables()
                &&& after.cancels() == before.cancels()
            },
        forall|runtime: &mut Runtime<'arena, O, D, R>, key: Key<()>|
            *runtime == before && #[trigger] call_ensures(
                Runtime::<'arena, O, D, R>::submit_dummy,
                (runtime,),
                key,
            ) ==> {
                let after = *final(runtime);
                &&& !before.ops().contains_key(key.data())
                &&& after.ops().contains_key(key.data())
                &&& after.ops()[key.data()].op is None
                &&& after.ops()[key.data()].result is None
                &&& after.driver() == before.driver()
                &&& after.unqueued() == before.unqueued()
            },
{
}

/// A cancellation that the driver takes marks the operation: nobody waits for its result any more. One that the driver
/// cannot take yet is kept behind those kept before, and the operation is still waited for.
pub proof fn law_cancellation_is_taken_or_kept<'arena, O, D: CompleteIo<'arena, O>, R, T>(
    before: Runtime<'arena, O, D, R>,
    key: Key<T>,
)
    ensures
        forall|runtime: &mut Runtime<'arena, O, D, R>|
            *runtime == before && #[trigger] call_ensures(
                Runtime::<'arena, O, D, R>::cancel_op::<T>,
                (runtime, &key),
                (),
            ) ==> {
                let after = *final(runtime);
                let room = before.driver().queued().len() < before.driver().capacity();
                let known = before.ops().contains_key(key.data());
                &&& room ==> after.cancels() == before.cancels()
                &&& room && known ==> after.ops().contains_key(key.data()) && after.ops()[key.data()].cancelled
                    && after.ops()[key.data()].op == before.ops()[key.data()].op && after.ops()[key.data()].result
                    == before.ops()[key.data()].result && after.ops()[key.data()].waker
                    == before.ops()[key.data()].waker
                &&& !room ==> after.driver() == before.driver() && after.ops() == before.ops()
                    && after.cancels().len() == before.cancels().len() + 1 && after.cancels().last() == key.data()
                    && after.cancels().drop_last() == before.cancels()
                &&& after.unqueued() == before.unqueued()
                &&& after.runnables() == before.runnables()
            },
{
}

/// Before the driver is polled, it is handed what was kept: cancellations and operations, each in their order, from the
/// front. If operations are left there is no waiting; otherwise the wait is as long as it was asked for.
pub proof fn law_poll_hands_on_what_was_kept<'arena, O, D: CompleteIo<'arena, O>, R>(
    before: Runtime<'arena, O, D, R>,
    idle: Option<Duration>,
)
    requires
        before.driver().queued().len() <= before.driver().capacity(),
    ensures
        forall|runtime: &mut Runtime<'arena, O, D, R>, timeout: Option<Duration>|
            *runtime == before && #[trigger] call_ensures(
                Runtime::<'arena, O, D, R>::poll,
                (runtime, idle),
                timeout,
            ) ==> {
                let after = *final(runtime);
                let taken = before.unqueued().len() - after.unqueued().len();
                let queued = before.driver().queued();
                &&& after.cancels().is_suffix_of(before.cancels())
                &&& after.unqueued().is_suffix_of(before.unqueued())
                &&& after.unqueued().len() > 0 ==> timeout is Some && timeout->0@ == 0
                &&& after.unqueued().len() == 0 ==> timeout == idle
                &&& after.ops() == before.ops()
                &&& after.runnables() == before.runnables()
                &&& before.cancels().len() == 0 ==> {
                    &&& after.driver().queued().len() == queued.len() + taken
                    &&& after.unqueued().len() > 0 ==> after.driver().queued().len() == before.driver().capacity()
                    &&& forall|i: int|
                        0 <= i < queued.len() ==> #[trigger] after.driver().queued()[i] == queued[i]
                    &&& forall|i: int|
                        0 <= i < taken ==> after.driver().queued()[queued.len() + i] == (
                        #[trigger] before.unqueued()[i]).user_data
                }
            },
{
    assert forall|runtime: &mut Runtime<'arena, O, D, R>, timeout: Option<Duration>|
        *runtime == before && #[trigger] call_ensures(
            Runtime::<'arena, O, D, R>::poll,
            (runtime, idle),
            timeout,
        ) implies {
        let after = *final(runtime);
        let taken = before.unqueued().len() - after.unqueued().len();
        let queued = before.driver().queued();
        &&& after.cancels().is_suffix_of(before.cancels())
        &&& after.unqueued().is_suffix_of(before.unqueued())
        &&& before.cancels().len() == 0 ==> {
            &&& after.driver().queued().len() == queued.len() + taken
            &&& after.unqueued().len() > 0 ==> after.driver().queued().len() == before.driver().capacity()
            &&& forall|i: int| 0 <= i < queued.len() ==> #[trigger] after.driver().queued()[i] == queued[i]
            &&& forall|i: int|
                0 <= i < taken ==> after.driver().queued()[queued.len() + i] == (
                #[trigger] before.unqueued()[i]).user_data
        }
    } by {
        let after = *final(runtime);
        let (mid, drivers) = choose|mid: D, drivers: Seq<D>|
            {
                &&& #[trigger] cancels_retried(
                    before.driver(),
                    mid,
                    before.cancels(),
                    after.cancels(),
                    drivers,
                )
                &&& operations_pushed(mid, after.driver(), before.unqueued(), after.unqueued())
            };
        assert(cancels_retried(before.driver(), mid, before.cancels(), after.cancels(), drivers));
        assert(operations_pushed(mid, after.driver(), before.unqueued(), after.unqueued()));
    }
}

/// A poll of the driver that took too long is no failure of the runtime; any other error is, with its code.
pub proof fn law_poll_failures<'arena, O, D: CompleteIo<'arena, O>, R>(
    outcome: Result<(), CallError>,
    polled: Polled,
)
    requires
        call_ensures(Runtime::<'arena, O, D, R>::poll_result, (outcome,), polled),
    ensures
        polled is Done <==> outcome is Ok,
        outcome matches Err(error) ==> {
            &&& polled is TimedOut <==> error.kind is TimedOut
            &&& polled matches Polled::Fatal(fatal) ==> fatal == IoError::Os(error.code)
        },
{
}

/// A runtime hands out results, and takes them, as the operations that it keeps do.
pub proof fn law_runtime_hands_out_results<'arena, O, D: CompleteIo<'arena, O>, R, T>(
    before: Runtime<'arena, O, D, R>,
    key: Key<T>,
    dummy: Key<()>,
    waker: WakerToken,
)
    ensures
        forall|runtime: &mut Runtime<'arena, O, D, R>, r: Poll<(IoResult<usize>, OpToken)>|
            *runtime == before && #[trigger] call_ensures(
                Runtime::<'arena, O, D, R>::poll_task::<T>,
                (runtime, &key, waker),
                r,
            ) ==> {
                let after = final(runtime).ops();
                let known = before.ops().contains_key(key.data());
                &&& r is Ready <==> known && before.ops()[key.data()].result is Some
                &&& r matches Poll::Ready(taken) ==> before.ops()[key.data()].result == Some(taken.0)
                    && before.ops()[key.data()].op == Some(taken.1) && !after.contains_key(key.data())
                &&& r is Pending && known ==> after.contains_key(key.data()) && after[key.data()].waker == Some(waker)
                &&& final(runtime).driver() == before.driver()
            },
        forall|runtime: &mut Runtime<'arena, O, D, R>, r: Poll<IoResult<usize>>|
            *runtime == before && #[trigger] call_ensures(
                Runtime::<'arena, O, D, R>::poll_dummy,
                (runtime, &dummy, waker),
                r,
            ) ==> {
                let after = final(runtime).ops();
                let known = before.ops().contains_key(dummy.data());
                &&& r is Ready <==> known && before.ops()[dummy.data()].result is Some
                &&& r matches Poll::Ready(taken) ==> before.ops()[dummy.data()].result == Some(taken)
                    && !after.contains_key(dummy.data())
                &&& r is Pending && known ==> after.contains_key(dummy.data()) && after[dummy.data()].waker == Some(
                    waker,
                )
            },
        forall|
            runtime: &mut Runtime<'arena, O, D, R>,
            future: &mut OpFuture<T>,
            r: Poll<(IoResult<usize>, OpToken)>,
        |
            *runtime == before && #[trigger] call_ensures(
                Runtime::<'arena, O, D, R>::poll_future::<T>,
                (runtime, future, waker),
                r,
            ) ==> {
                let data = future.data();
                let after = final(runtime).ops();
                let known = before.ops().contains_key(data);
                &&& r is Ready <==> known && before.ops()[data].result is Some
                &&& r matches Poll::Ready(taken) ==> before.ops()[data].result == Some(taken.0)
                    && before.ops()[data].op == Some(taken.1) && !after.contains_key(data)
                &&& r is Ready ==> final(future).completed()
                &&& r is Pending ==> final(future).completed() == future.completed()
                &&& final(future).data() == data
            },
{
}

/// The results of a poll are taken one after the other: the last one of an operation is kept, and whoever waits is
/// woken by the first one.
pub proof fn law_runtime_takes_results<'arena, O, D: CompleteIo<'arena, O>, R>(
    before: Runtime<'arena, O, D, R>,
    entries: Vec<Entry>,
    user_data: usize,
    first: int,
    last: int,
)
    requires
        before.ops().contains_key(user_data),
        !before.ops()[user_data].cancelled,
        0 <= first <= last < entries@.len(),
        entries@[first].user_data == user_data,
        entries@[last].user_data == user_data,
        forall|i: int| 0 <= i < first ==> (#[trigger] entries@[i]).user_data != user_data,
        forall|i: int| last < i < entries@.len() ==> (#[trigger] entries@[i]).user_data != user_data,
    ensures
        forall|runtime: &mut Runtime<'arena, O, D, R>, all: Vec<Delivered>|
            *runtime == before && #[trigger] call_ensures(
                Runtime::<'arena, O, D, R>::complete,
                (runtime, &entries),
                all,
            ) ==> {
                let after = final(runtime).ops();
                &&& all@.len() == entries@.len()
                &&& all@[first].woken == before.ops()[user_data].waker
                &&& after.contains_key(user_data)
                &&& after[user_data].result == Some(entries@[last].result)
                &&& after[user_data].op == before.ops()[user_data].op
                &&& final(runtime).driver() == before.driver()
                &&& final(runtime).runnables() == before.runnables()
            },
{
    let ops = before.ops();
    let early = entries@.take(first);
    assert forall|i: int| 0 <= i < early.len() implies (#[trigger] early[i]).user_data != user_data by {
        assert(entries@[i].user_data != user_data);
    }
    law_other_operations_stay(ops, early, user_data);
    lemma_last_result_is_kept(ops, entries@, user_data, last);
}

/// A new runtime has nothing to run, nothing kept and nothing under way, on the driver that it was given.
pub proof fn law_new_runtime<'arena, O, D: CompleteIo<'arena, O>, R>(driver: D, made: Runtime<'arena, O, D, R>)
    requires
        call_ensures(Runtime::<'arena, O, D, R>::new, (driver,), made),
    ensures
        made.driver() == driver,
        made.runnables().len() == 0,
        made.unqueued().len() == 0,
        made.cancels().len() == 0,
        forall|key: usize| !(#[trigger] made.ops().contains_key(key)),
{
}

/// A future without an operation gets the result that it waits for exactly if it is there.
pub proof fn law_dummy_future(made: OpFuture<()>, before: OpRuntime, waker: WakerToken)
    ensures
        forall|future: &mut OpFuture<()>, runtime: &mut OpRuntime, r: Poll<IoResult<usize>>|
            *future == made && *runtime == before && #[trigger] call_ensures(
                OpFuture::<()>::poll_dummy,
                (future, runtime, waker),
                r,
            ) ==> {
                let known = before@.contains_key(made.data());
                &&& r is Ready <==> known && before@[made.data()].result is Some
                &&& r matches Poll::Ready(result) ==> before@[made.data()].result == Some(result)
                    && !final(runtime)@.contains_key(made.data())
                &&& r is Pending && known ==> final(runtime)@[made.data()].waker == Some(waker)
                &&& final(future).data() == made.data()
                &&& r is Ready ==> final(future).completed()
                &&& r is Pending ==> final(future).completed() == made.completed()
            },
{
}

/// Who changes the driver of a runtime changes nothing else in it.
pub proof fn law_driver_to_be_changed<'arena, O, D: CompleteIo<'arena, O>, R>(before: Runtime<'arena, O, D, R>)
    ensures
        forall|runtime: &mut Runtime<'arena, O, D, R>, driver: &mut D|
            *runtime == before && #[trigger] call_ensures(
                Runtime::<'arena, O, D, R>::driver_mut,
                (runtime,),
                driver,
            ) ==> {
                &&& *driver == before.driver()
                &&& final(runtime).driver() == *final(driver)
                &&& final(runtime).ops() == before.ops()
                &&& final(runtime).runnables() == before.runnables()
                &&& final(runtime).unqueued() == before.unqueued()
                &&& final(runtime).cancels() == before.cancels()
            },
{
}

/// The result of an operation that nobody waits for any more ends it: the operation is handed over to be dropped by the
/// first result, and is gone.
pub proof fn law_result_of_a_cancelled_operation(before: OpRuntime, entries: Vec<Entry>, user_data: usize, first: int)
    requires
        before@.contains_key(user_data),
        before@[user_data].cancelled,
        0 <= first < entries@.len(),
        entries@[first].user_data == user_data,
        forall|i: int| 0 <= i < first ==> (#[trigger] entries@[i]).user_data != user_data,
    ensures
        forall|runtime: &mut OpRuntime, all: Vec<Delivered>|
            *runtime == before && #[trigger] call_ensures(OpRuntime::extend, (runtime, &entries), all) ==> {
                &&& all@.len() == entries@.len()
                &&& all@[first].dropped == before@[user_data].op
                &&& all@[first].woken == before@[user_data].waker
                &&& !final(runtime)@.contains_key(user_data)
            },
{
    let ops = before@;
    let early = entries@.take(first);
    assert forall|i: int| 0 <= i < early.len() implies (#[trigger] early[i]).user_data != user_data by {
        assert(entries@[i].user_data != user_data);
    }
    law_other_operations_stay(ops, early, user_data);
    lemma_cancelled_is_gone(ops, entries@, user_data, first);
}

/// A cancelled operation is gone as soon as a result of it has arrived, and stays so.
proof fn lemma_cancelled_is_gone(ops: Ops, entries: Seq<Entry>, user_data: usize, first: int)
    requires
        ops.contains_key(user_data),
        ops[user_data].cancelled,
        0 <= first < entries.len(),
        entries[first].user_data == user_data,
        forall|i: int| 0 <= i < first ==> (#[trigger] entries[i]).user_data != user_data,
    ensures
        !all_delivered(ops, entries).contains_key(user_data),
    decreases entries.len(),
{
    let rest = entries.drop_last();
    assert forall|i: int| 0 <= i < first && i < rest.len() implies (#[trigger] rest[i]).user_data != user_data by {
        assert(entries[i].user_data != user_data);
    }
    if first < rest.len() {
        assert(rest[first] == entries[first]);
        lemma_cancelled_is_gone(ops, rest, user_data, first);
    } else {
        law_other_operations_stay(ops, rest, user_data);
    }
}

/// The driver is asked to cancel the very operation that is to be cancelled, at once if it has room.
pub proof fn law_driver_is_asked_to_cancel<'arena, O, D: CompleteIo<'arena, O>, R, T>(
    before: Runtime<'arena, O, D, R>,
    key: Key<T>,
)
    requires
        before.driver().queued().len() < before.driver().capacity(),
    ensures
        forall|runtime: &mut Runtime<'arena, O, D, R>|
            *runtime == before && #[trigger] call_ensures(
                Runtime::<'arena, O, D, R>::cancel_op::<T>,
                (runtime, &key),
                (),
            ) ==> exists|driver: &mut D, outcome: Result<(), ()>|
                {
                    &&& *driver == before.driver()
                    &&& *final(driver) == final(runtime).driver()
                    &&& outcome is Ok
                    &&& #[trigger] call_ensures(D::try_cancel, (driver, key.data()), outcome)
                },
{
}

/// A submitted operation that fits is handed to the driver as it is, under its key.
pub proof fn law_driver_gets_the_operation<'arena, O, D: CompleteIo<'arena, O>, R>(
    before: Runtime<'arena, O, D, R>,
    token: OpToken,
)
    requires
        before.driver().queued().len() < before.driver().capacity(),
    ensures
        forall|runtime: &mut Runtime<'arena, O, D, R>, op: &'arena mut O, future: OpFuture<O>|
            *runtime == before && #[trigger] call_ensures(
                Runtime::<'arena, O, D, R>::submit,
                (runtime, op, token),
                future,
            ) ==> exists|driver: &mut D, object: OpObject<'arena, O>, pushed: Result<(), OpObject<'arena, O>>|
                {
                    &&& *driver == before.driver()
                    &&& *final(driver) == final(runtime).driver()
                    &&& object.code() == *op
                    &&& object.user_data == future.data()
                    &&& *final(object.op) == *final(op)
                    &&& pushed is Ok
                    &&& #[trigger] call_ensures(D::try_push_dyn, (driver, object), pushed)
                },
{
}

/// A cancellation that was kept, and that the driver takes when it is polled, is that of the operation that was to be
/// cancelled. The operations that were kept are handed over after the cancellations.
pub proof fn law_kept_cancellations_are_handed_over<'arena, O, D: CompleteIo<'arena, O>, R>(
    before: Runtime<'arena, O, D, R>,
    idle: Option<Duration>,
    i: int,
)
    requires
        0 <= i < before.cancels().len(),
    ensures
        forall|runtime: &mut Runtime<'arena, O, D, R>, timeout: Option<Duration>|
            *runtime == before && #[trigger] call_ensures(
                Runtime::<'arena, O, D, R>::poll,
                (runtime, idle),
                timeout,
            ) ==> {
                &&& i < before.cancels().len() - final(runtime).cancels().len() ==> exists|
                    driver: &mut D,
                    outcome: Result<(), ()>,
                |
                    outcome is Ok && #[trigger] call_ensures(D::try_cancel, (driver, before.cancels()[i]), outcome)
                &&& exists|driver: &mut D, ops: &mut VecDeque<OpObject<'arena, O>>|
                    {
                        &&& *final(driver) == final(runtime).driver()
                        &&& ops@ == before.unqueued()
                        &&& final(ops)@ == final(runtime).unqueued()
                        &&& #[trigger] call_ensures(D::push_queue, (driver, ops), ())
                    }
            },
{
    assert forall|runtime: &mut Runtime<'arena, O, D, R>, timeout: Option<Duration>|
        *runtime == before && #[trigger] call_ensures(
            Runtime::<'arena, O, D, R>::poll,
            (runtime, idle),
            timeout,
        ) implies i < before.cancels().len() - final(runtime).cancels().len() ==> exists|
        driver: &mut D,
        outcome: Result<(), ()>,
    |
        outcome is Ok && #[trigger] call_ensures(D::try_cancel, (driver, before.cancels()[i]), outcome) by {
        let after = *final(runtime);
        let (mid, drivers) = choose|mid: D, drivers: Seq<D>|
            {
                &&& #[trigger] cancels_retried(before.driver(), mid, before.cancels(), after.cancels(), drivers)
                &&& forall|i: int| #[trigger]
                    place(i) && i < drivers.len() - 1 ==> exists|driver: &mut D, outcome: Result<(), ()>|
                        {
                            &&& *driver == drivers[i]
                            &&& *final(driver) == drivers[i + 1]
                            &&& outcome is Ok
                            &&& #[trigger] call_ensures(D::try_cancel, (driver, before.cancels()[i]), outcome)
                        }
            };
        assert(cancels_retried(before.driver(), mid, before.cancels(), after.cancels(), drivers));
        assert(place(i));
    }
}

} // verus!
