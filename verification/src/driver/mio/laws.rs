//! What holds of submissions as a whole.
use vstd::multiset::Multiset;
use vstd::prelude::*;

use std::collections::VecDeque;
use std::ops::ControlFlow;

use crate::driver::attempts::{cancelled_entries, entry_keys, keys, place, timer_keys, OpView, TIMER_PENDING};
use crate::driver::mio::model::{advance, advance_all, op_views, registers, Decisions, Progress};
use crate::driver::mio::{
    dealt_with, step_start, stepped, wants_timer, Decision, Driver, Event, Interest, OpCode, PollStep, SubmitStep,
    WaitArg, INVALID_FD,
};
use crate::driver::tally::{
    lemma_cancelled_tally, lemma_expiry_tally, lemma_has_key, lemma_output_add, lemma_timers_insert,
    lemma_timers_some, lemma_times_add, lemma_times_push, lemma_times_some, op_keys, timers_under, times,
    times_output,
};
use crate::driver::time::{
    cut_short, expires, law_cut_short_as_little_as_possible, law_what_expires_is_due, reports_what_is_due,
    timer_entries, timer_runs, waits_as_long_as_it_can, Timeout, TimerView,
};
use crate::driver::unix::RawFd;
use crate::driver::{has_key, CompleteIo, Entry, OpObject, Operation};
use crate::error::{CallError, IoError, IoResult};
use crate::time::{after, Duration, Moment};

verus! {

/// The entries of the operations that have completed or failed or were cancelled, in their order.
pub open spec fn reported(start: Progress, ops: Seq<OpView>, decisions: Decisions) -> Seq<Entry>
    decreases ops.len(),
{
    if ops.len() == 0 {
        Seq::empty()
    } else {
        let rest = reported(start, ops.drop_last(), decisions.drop_last());
        let reached = advance_all(start, ops.drop_last(), decisions.drop_last());
        match decisions.last().0 {
            Ok(Decision::Wait(_)) => if registers(reached, ops.last(), decisions.last().0) {
                rest
            } else {
                rest.push(Entry { user_data: ops.last().0, result: Err(IoError::Cancelled) })
            },
            Ok(Decision::Completed(transferred)) => if wants_timer(decisions.last().0) {
                rest
            } else {
                rest.push(Entry { user_data: ops.last().0, result: Ok(transferred) })
            },
            Err(error) => rest.push(Entry { user_data: ops.last().0, result: Err(error) }),
        }
    }
}

/// The timers that are set, in the order of the operations that ask for them.
pub open spec fn timers_set(ops: Seq<OpView>, decisions: Decisions) -> Seq<TimerView>
    decreases ops.len(),
{
    if ops.len() == 0 {
        Seq::empty()
    } else {
        let rest = timers_set(ops.drop_last(), decisions.drop_last());
        if wants_timer(decisions.last().0) {
            rest.push((ops.last().0, after(decisions.last().1, ops.last().1->0@)))
        } else {
            rest
        }
    }
}

/// The operations that have to wait, in their order.
pub open spec fn waiting(start: Progress, ops: Seq<OpView>, decisions: Decisions) -> Seq<usize>
    decreases ops.len(),
{
    if ops.len() == 0 {
        Seq::empty()
    } else {
        let rest = waiting(start, ops.drop_last(), decisions.drop_last());
        let reached = advance_all(start, ops.drop_last(), decisions.drop_last());
        if registers(reached, ops.last(), decisions.last().0) {
            rest.push(ops.last().0)
        } else {
            rest
        }
    }
}

/// A submission loses no operation and reports none twice: each operation taken from the queue is either
/// reported, be it as cancelled, or its timer is set, or it has to wait. Only what is reported counts as
/// completed.
pub proof fn law_submission_conserves_operations(start: Progress, ops: Seq<OpView>, decisions: Decisions)
    requires
        decisions.len() == ops.len(),
    ensures
        advance_all(start, ops, decisions).entries == start.entries + reported(start, ops, decisions),
        advance_all(start, ops, decisions).timers == start.timers.add(
            timers_set(ops, decisions).to_multiset(),
        ),
        advance_all(start, ops, decisions).completed == (start.completed || reported(
            start,
            ops,
            decisions,
        ).len() > 0),
        keys(ops).to_multiset() == entry_keys(reported(start, ops, decisions)).to_multiset().add(
            timer_keys(timers_set(ops, decisions)).to_multiset(),
        ).add(waiting(start, ops, decisions).to_multiset()),
    decreases ops.len(),
{
    broadcast use vstd::seq_lib::group_to_multiset_ensures;

    if ops.len() == 0 {
        assert(keys(ops) =~= Seq::empty());
        assert(entry_keys(reported(start, ops, decisions)) =~= Seq::empty());
        assert(timer_keys(timers_set(ops, decisions)) =~= Seq::empty());
        assert(start.entries + reported(start, ops, decisions) =~= start.entries);
        assert(start.timers.add(timers_set(ops, decisions).to_multiset()) =~= start.timers);
    } else {
        let (front, before) = (ops.drop_last(), decisions.drop_last());
        law_submission_conserves_operations(start, front, before);
        let key = ops.last().0;
        assert(keys(ops) =~= keys(front).push(key));
        if registers(advance_all(start, front, before), ops.last(), decisions.last().0) {
        } else if wants_timer(decisions.last().0) {
            assert(timer_keys(timers_set(ops, decisions)) =~= timer_keys(
                timers_set(front, before),
            ).push(key));
        } else {
            assert(entry_keys(reported(start, ops, decisions)) =~= entry_keys(reported(start, front, before)).push(
                key,
            ));
        }
        assert(advance_all(start, ops, decisions).entries =~= start.entries + reported(
            start,
            ops,
            decisions,
        ));
        assert(advance_all(start, ops, decisions).timers =~= start.timers.add(
            timers_set(ops, decisions).to_multiset(),
        ));
    }
    assert(keys(ops).to_multiset() =~= entry_keys(reported(start, ops, decisions)).to_multiset().add(
        timer_keys(timers_set(ops, decisions)).to_multiset(),
    ).add(waiting(start, ops, decisions).to_multiset()));
}

/// A cancellation keeps an operation from being registered, once, and the operation is reported as cancelled.
pub proof fn law_cancellation_is_used_up(start: Progress, op: OpView, decision: IoResult<Decision>, now: nat)
    requires
        start.cancelled.contains(op.0),
        decision matches Ok(Decision::Wait(_)),
    ensures
        !registers(start, op, decision),
        registers(advance(start, op, decision, now), op, decision),
        advance(start, op, decision, now).entries == start.entries.push(
            Entry { user_data: op.0, result: Err(IoError::Cancelled) },
        ),
{
}

/// An operation that was cancelled while it waited is output by the next submission, as cancelled, and the
/// submission does not poll.
pub proof fn law_cancelled_operation_is_output<'arena, O: OpCode>(
    before: Driver<'arena, O>,
    after: Driver<'arena, O>,
    entries_before: Seq<Entry>,
    entries_after: Seq<Entry>,
    step: SubmitStep,
    decisions: Decisions,
    left: Seq<O>,
    user_data: usize,
)
    requires
        before.to_report().contains(user_data),
        stepped(before, after, entries_before, entries_after, step, decisions, left),
    ensures
        entries_after.contains(Entry { user_data, result: Err(IoError::Cancelled) }),
        !(step is Poll),
        step is Register ==> after.has_completion(),
{
    let start = step_start(before, entries_before);
    let ops = op_views(before.squeue()).take(decisions.len() as int);
    law_submission_conserves_operations(start, ops, decisions);
    let at = choose|i: int| 0 <= i < before.to_report().len() && before.to_report()[i] == user_data;
    let entry = Entry { user_data, result: Err(IoError::Cancelled) };
    assert(cancelled_entries(before.to_report())[at] == entry);
    assert(start.entries[entries_before.len() + at] == entry);
    let reached = advance_all(start, ops, decisions);
    assert(reached.entries[entries_before.len() + at] == entry);
    assert(after.progress(entries_after).entries == entries_after);
    assert(after.progress(entries_after).completed == after.has_completion());
}

/// One, if it holds.
pub open spec fn once(holds: bool) -> nat {
    if holds {
        1
    } else {
        0
    }
}

/// How often a driver still has to output something under a key, and has output it.
pub open spec fn account<'arena, O: OpCode>(
    driver: Driver<'arena, O>,
    entries: Seq<Entry>,
    key: usize,
) -> nat {
    times(keys(op_views(driver.squeue())), key) + once(driver.waits().contains_key(key)) + once(
        driver.registration() is Some && driver.registration()->0.token == key,
    ) + timers_under(driver.timers(), key) + times(driver.to_report(), key) + times_output(entries, key)
}

/// One operation is reported, or its timer is set, or it is put up for registration.
proof fn lemma_advance_tally(
    progress: Progress,
    op: OpView,
    decision: IoResult<Decision>,
    now: nat,
    key: usize,
)
    ensures
        ({
            let reached = advance(progress, op, decision, now);
            timers_under(reached.timers, key) + times_output(reached.entries, key) + once(
                registers(progress, op, decision) && op.0 == key,
            ) == timers_under(progress.timers, key) + times_output(progress.entries, key) + once(
                op.0 == key,
            )
        }),
{
    let reached = advance(progress, op, decision, now);
    if wants_timer(decision) {
        lemma_timers_insert(progress.timers, (op.0, after(now, op.1->0@)), key);
    } else if !registers(progress, op, decision) {
        assert(entry_keys(reached.entries) =~= entry_keys(progress.entries).push(op.0));
        lemma_times_push(entry_keys(progress.entries), op.0, key);
    }
}

/// Operations that are dealt with are reported, or their timers are set.
proof fn lemma_dealt_with_tally(
    start: Progress,
    ops: Seq<OpView>,
    decisions: Decisions,
    count: int,
    key: usize,
)
    requires
        0 <= count <= decisions.len() <= ops.len(),
        dealt_with(start, ops, decisions, count),
    ensures
        ({
            let reached = advance_all(start, ops.take(count), decisions.take(count));
            timers_under(reached.timers, key) + times_output(reached.entries, key) == timers_under(
                start.timers,
                key,
            ) + times_output(start.entries, key) + times(keys(ops.take(count)), key)
        }),
    decreases count,
{
    if count == 0 {
        assert(keys(ops.take(0)) =~= Seq::empty());
    } else {
        let last = count - 1;
        lemma_dealt_with_tally(start, ops, decisions, last, key);
        assert(ops.take(count).drop_last() =~= ops.take(last));
        assert(decisions.take(count).drop_last() =~= decisions.take(last));
        assert(keys(ops.take(count)) =~= keys(ops.take(last)).push(ops[last].0));
        lemma_times_push(keys(ops.take(last)), ops[last].0, key);
        assert(!registers(
            advance_all(start, ops.take(last), decisions.take(last)),
            ops[last],
            decisions[last].0,
        ));
        lemma_advance_tally(
            advance_all(start, ops.take(last), decisions.take(last)),
            ops[last],
            decisions[last].0,
            decisions[last].1,
            key,
        );
    }
}

/// A step of a submission leaves the account as it is: whatever it takes out of the queue it outputs, once, or its
/// timer is set, or it is put up for registration.
pub proof fn law_step_keeps_the_account<'arena, O: OpCode>(
    before: Driver<'arena, O>,
    after: Driver<'arena, O>,
    entries_before: Seq<Entry>,
    entries_after: Seq<Entry>,
    step: SubmitStep,
    decisions: Decisions,
    left: Seq<O>,
    key: usize,
)
    requires
        before.registration() is None,
        stepped(before, after, entries_before, entries_after, step, decisions, left),
    ensures
        account(after, entries_after, key) == account(before, entries_before, key),
{
    let start = step_start(before, entries_before);
    let ops = op_views(before.squeue());
    let taken = decisions.len() as int;
    let reached = advance_all(start, ops.take(taken), decisions);
    lemma_cancelled_tally(before.to_report(), key);
    lemma_output_add(entries_before, cancelled_entries(before.to_report()), key);
    assert(after.to_report() =~= Seq::empty());
    assert(keys(ops) =~= keys(ops.take(taken)) + keys(op_views(after.squeue())));
    lemma_times_add(keys(ops.take(taken)), keys(op_views(after.squeue())), key);
    assert(after.progress(entries_after).entries == entries_after);
    assert(after.progress(entries_after).timers == after.timers());
    if step is Register {
        let last = taken - 1;
        lemma_dealt_with_tally(start, ops, decisions, last, key);
        assert(ops.take(taken).drop_last() =~= ops.take(last));
        assert(decisions.drop_last() =~= decisions.take(last));
        assert(keys(ops.take(taken)) =~= keys(ops.take(last)).push(ops[last].0));
        lemma_times_push(keys(ops.take(last)), ops[last].0, key);
        lemma_advance_tally(
            advance_all(start, ops.take(last), decisions.take(last)),
            ops[last],
            decisions[last].0,
            decisions[last].1,
            key,
        );
    } else {
        lemma_dealt_with_tally(start, ops, decisions, taken, key);
        assert(decisions.take(taken) =~= decisions);
    }
}

/// What a call other than a step of a submission can do with the operations of a driver.
pub enum Move {
    /// The operation that was put up for registration waits.
    Registers,
    /// It is output, because its descriptor could not be registered.
    RegistrationFails(IoError),
    /// Timers have fallen due at the given time, and are output.
    Expires(nat, Seq<TimerView>),
    /// The operation that waits under the token has come to a result and is output.
    Finishes(usize, IoResult<usize>),
    /// The operation that waits under the token is cancelled.
    Cancels(usize),
    /// Everything stays where it is.
    Stays,
}

/// A driver makes a move.
pub open spec fn moves<'arena, O: OpCode>(
    before: Driver<'arena, O>,
    after: Driver<'arena, O>,
    entries_before: Seq<Entry>,
    entries_after: Seq<Entry>,
    how: Move,
) -> bool {
    &&& after.squeue() == before.squeue()
    &&& how is Registers || how is RegistrationFails ==> {
        &&& before.registration() is Some
        &&& after.registration() is None
    }
    &&& !(how is Registers || how is RegistrationFails) ==> after.registration() == before.registration()
    &&& how matches Move::Expires(now, due) ==> expires(before.timers(), now, due, after.timers())
    &&& !(how is Expires) ==> after.timers() == before.timers()
    &&& after.waits() == match how {
        Move::Registers => before.waits().insert(
            before.registration()->0.token,
            before.registration()->0.arg,
        ),
        Move::Finishes(token, _) => before.waits().remove(token),
        Move::Cancels(token) => before.waits().remove(token),
        _ => before.waits(),
    }
    &&& how matches Move::Finishes(token, _) ==> before.waits().contains_key(token)
    &&& how matches Move::Cancels(token) ==> before.waits().contains_key(token)
    &&& after.to_report() == match how {
        Move::Cancels(token) => before.to_report().push(token),
        _ => before.to_report(),
    }
    &&& entries_after == match how {
        Move::RegistrationFails(error) => entries_before.push(
            Entry { user_data: before.registration()->0.token, result: Err(error) },
        ),
        Move::Expires(_, due) => entries_before + timer_entries(due),
        Move::Finishes(token, result) => entries_before.push(Entry { user_data: token, result }),
        _ => entries_before,
    }
}

/// A move leaves the account as it is, where user data stands for one operation.
pub proof fn law_move_keeps_the_account<'arena, O: OpCode>(
    before: Driver<'arena, O>,
    after: Driver<'arena, O>,
    entries_before: Seq<Entry>,
    entries_after: Seq<Entry>,
    how: Move,
    key: usize,
)
    requires
        account(before, entries_before, key) <= 1,
        moves(before, after, entries_before, entries_after, how),
    ensures
        account(after, entries_after, key) == account(before, entries_before, key),
{
    match how {
        Move::RegistrationFails(_) => {
            let token = before.registration()->0.token;
            assert(entry_keys(entries_after) =~= entry_keys(entries_before).push(token));
            lemma_times_push(entry_keys(entries_before), token, key);
        },
        Move::Expires(now, due) => {
            lemma_expiry_tally(before.timers(), now, due, after.timers(), key);
            lemma_output_add(entries_before, timer_entries(due), key);
        },
        Move::Finishes(token, _) => {
            assert(entry_keys(entries_after) =~= entry_keys(entries_before).push(token));
            lemma_times_push(entry_keys(entries_before), token, key);
        },
        Move::Cancels(token) => {
            lemma_times_push(before.to_report(), token, key);
        },
        _ => {},
    }
}

/// A driver with what it has output so far.
pub struct State<'arena, O: OpCode> {
    /// The driver.
    pub driver: Driver<'arena, O>,
    /// The entries that were output, in their order.
    pub entries: Seq<Entry>,
}

/// One state leads to the next by a step of a submission or by a move that is no cancellation.
pub open spec fn goes_on<'arena, O: OpCode>(a: State<'arena, O>, b: State<'arena, O>) -> bool {
    ||| exists|step: SubmitStep, decisions: Decisions, left: Seq<O>|
        a.driver.registration() is None && #[trigger] stepped(
            a.driver,
            b.driver,
            a.entries,
            b.entries,
            step,
            decisions,
            left,
        )
    ||| exists|how: Move|
        !(how is Cancels) && #[trigger] moves(a.driver, b.driver, a.entries, b.entries, how)
}

/// One state leads to the next by a step of a submission or by a move.
pub open spec fn leads_to<'arena, O: OpCode>(a: State<'arena, O>, b: State<'arena, O>) -> bool {
    ||| goes_on(a, b)
    ||| exists|token: usize| #[trigger]
        moves(a.driver, b.driver, a.entries, b.entries, Move::Cancels(token))
}

/// Over any number of submissions, events and cancellations, user data that stands for one operation is output at
/// most once, and as long as it is not output, the driver has it.
pub proof fn law_output_at_most_once<'arena, O: OpCode>(run: Seq<State<'arena, O>>, key: usize)
    requires
        run.len() > 0,
        forall|i: int| 0 <= i < run.len() - 1 ==> leads_to(#[trigger] run[i], run[i + 1]),
        account(run[0].driver, run[0].entries, key) <= 1,
    ensures
        account(run.last().driver, run.last().entries, key) == account(
            run[0].driver,
            run[0].entries,
            key,
        ),
        times_output(run.last().entries, key) <= 1,
    decreases run.len(),
{
    if run.len() > 1 {
        let front = run.drop_last();
        assert forall|i: int| 0 <= i < front.len() - 1 implies leads_to(#[trigger] front[i], front[i + 1]) by {
            assert(leads_to(run[i], run[i + 1]));
        }
        law_output_at_most_once(front, key);
        let a = run[run.len() - 2];
        let b = run.last();
        assert(leads_to(a, b));
        if exists|how: Move| #[trigger] moves(a.driver, b.driver, a.entries, b.entries, how) {
            let how = choose|how: Move| #[trigger] moves(a.driver, b.driver, a.entries, b.entries, how);
            law_move_keeps_the_account(a.driver, b.driver, a.entries, b.entries, how, key);
        } else {
            let (step, decisions, left) = choose|step: SubmitStep, decisions: Decisions, left: Seq<O>|
                a.driver.registration() is None && #[trigger] stepped(
                    a.driver,
                    b.driver,
                    a.entries,
                    b.entries,
                    step,
                    decisions,
                    left,
                );
            law_step_keeps_the_account(
                a.driver,
                b.driver,
                a.entries,
                b.entries,
                step,
                decisions,
                left,
                key,
            );
        }
    }
}

/// Without a cancellation, no cancelled operation is to be output.
proof fn lemma_none_to_report<'arena, O: OpCode>(run: Seq<State<'arena, O>>)
    requires
        run.len() > 0,
        forall|i: int| 0 <= i < run.len() - 1 ==> goes_on(#[trigger] run[i], run[i + 1]),
        run[0].driver.to_report().len() == 0,
    ensures
        run.last().driver.to_report().len() == 0,
    decreases run.len(),
{
    if run.len() > 1 {
        let front = run.drop_last();
        assert forall|i: int| 0 <= i < front.len() - 1 implies goes_on(#[trigger] front[i], front[i + 1]) by {
            assert(goes_on(run[i], run[i + 1]));
        }
        lemma_none_to_report(front);
        assert(goes_on(run[run.len() - 2], run[run.len() - 2 + 1]));
    }
}

/// Operations with different user data that were pushed, and of which none is cancelled, are output at most once each
/// over any number of submissions, and nothing else is output. An operation that was output is neither queued nor
/// waiting, nor does its timer run, so that it is not operated again; one that was not output is still there.
pub proof fn law_each_operation_is_output_once<'arena, O: OpCode>(run: Seq<State<'arena, O>>, key: usize)
    requires
        run.len() > 0,
        forall|i: int| 0 <= i < run.len() - 1 ==> goes_on(#[trigger] run[i], run[i + 1]),
        keys(op_views(run[0].driver.squeue())).no_duplicates(),
        run[0].driver.waits() == Map::<usize, WaitArg>::empty(),
        run[0].driver.registration() is None,
        run[0].driver.timers() == Multiset::<TimerView>::empty(),
        run[0].driver.to_report().len() == 0,
        run[0].entries.len() == 0,
    ensures
        times_output(run.last().entries, key) <= 1,
        ({
            let driver = run.last().driver;
            let is_output = entry_keys(run.last().entries).contains(key);
            let is_there = has_key(driver.squeue(), key) || driver.waits().contains_key(key) || (
            driver.registration() is Some && driver.registration()->0.token == key) || timer_runs(
                driver.timers(),
                key,
            );
            &&& is_output ==> has_key(run[0].driver.squeue(), key) && !is_there
            &&& has_key(run[0].driver.squeue(), key) && !is_output ==> is_there
        }),
{
    let first = run[0].driver;
    let last = run.last().driver;
    lemma_times_some(keys(op_views(first.squeue())), key);
    lemma_timers_some(first.timers(), key);
    assert(first.to_report() =~= Seq::empty());
    assert(entry_keys(run[0].entries) =~= Seq::empty());
    assert forall|i: int| 0 <= i < run.len() - 1 implies leads_to(#[trigger] run[i], run[i + 1]) by {
        assert(goes_on(run[i], run[i + 1]));
    }
    law_output_at_most_once(run, key);
    lemma_none_to_report(run);
    assert(last.to_report() =~= Seq::empty());
    lemma_timers_some(last.timers(), key);
    lemma_times_some(entry_keys(run.last().entries), key);
    lemma_has_key(first.squeue(), key);
    lemma_has_key(last.squeue(), key);
    assert(keys(op_views(first.squeue())) =~= op_keys(first.squeue()));
    assert(keys(op_views(last.squeue())) =~= op_keys(last.squeue()));
}

/// A decision to wait is about the given descriptor, in the direction that was asked for.
pub proof fn law_decisions_to_wait(fd: RawFd, readable: Decision, writable: Decision)
    requires
        call_ensures(Decision::wait_readable, (fd,), readable),
        call_ensures(Decision::wait_writable, (fd,), writable),
    ensures
        readable matches Decision::Wait(arg) && arg.fd == fd && arg.interest is Readable,
        writable matches Decision::Wait(arg) && arg.fd == fd && arg.interest is Writable,
        forall|interest: Interest, decision: Decision| #[trigger]
            call_ensures(Decision::wait_for, (fd, interest), decision) ==> (decision matches Decision::Wait(arg)
                && arg.fd == fd && arg.interest == interest),
{
}

/// What an operation decides says where it goes: its timer is set for when its delay has passed, its entry says what it
/// came to, or its descriptor is put up for registration under its user data, unless it was cancelled: then its entry
/// says so.
pub proof fn law_decision_decides<'arena, O: OpCode>(
    before: Driver<'arena, O>,
    op: OpObject<'arena, O>,
    decision: IoResult<Decision>,
    now: Moment,
)
    requires
        before.registration() is None,
    ensures
        forall|driver: &mut Driver<'arena, O>, entry: Option<Entry>|
            *driver == before && #[trigger] call_ensures(
                Driver::<'arena, O>::settle,
                (driver, op, decision, now),
                entry,
            ) ==> {
                let after = *final(driver);
                let cancelled = before.cancelled().contains(op.user_data);
                &&& decision matches Err(error) ==> entry == Some(
                    Entry { user_data: op.user_data, result: Err(error) },
                )
                &&& decision matches Ok(Decision::Completed(n)) ==> n != TIMER_PENDING ==> entry == Some(
                    Entry { user_data: op.user_data, result: Ok(n) },
                )
                &&& decision == Ok::<Decision, IoError>(Decision::Completed(TIMER_PENDING)) ==> {
                    &&& entry is None
                    &&& now@ + op.code().delay()->0@ <= u64::MAX * 1_000_000_000 + 999_999_999 ==> after.timers()
                        == before.timers().insert((op.user_data, now@ + op.code().delay()->0@))
                }
                &&& decision matches Ok(Decision::Wait(arg)) ==> {
                    &&& cancelled ==> entry == Some(
                        Entry { user_data: op.user_data, result: Err(IoError::Cancelled) },
                    ) && after.registration() is None && !after.cancelled().contains(op.user_data)
                    &&& !cancelled ==> entry is None && after.registration() is Some
                        && after.registration()->0.token == op.user_data && after.registration()->0.arg == arg
                }
                &&& !(decision matches Ok(Decision::Wait(_))) ==> after.registration() is None
                    && after.cancelled() == before.cancelled()
                &&& decision != Ok::<Decision, IoError>(Decision::Completed(TIMER_PENDING)) ==> after.timers()
                    == before.timers()
                &&& entry is Some ==> after.has_completion()
                &&& entry is None ==> after.has_completion() == before.has_completion()
                &&& after.squeue() == before.squeue()
                &&& after.waits() == before.waits()
            },
{
    assert forall|driver: &mut Driver<'arena, O>, entry: Option<Entry>|
        *driver == before && #[trigger] call_ensures(
            Driver::<'arena, O>::settle,
            (driver, op, decision, now),
            entry,
        ) implies {
        let after = *final(driver);
        let expected = advance(
            before.progress(Seq::empty()),
            (op.user_data, op.code().delay()),
            decision,
            now@,
        );
        &&& after.timers() == expected.timers
        &&& after.cancelled() == expected.cancelled
        &&& after.has_completion() == expected.completed
        &&& entry is Some <==> expected.entries.len() > 0
        &&& entry is Some ==> entry->0 == expected.entries[0]
    } by {
        let none = Seq::<Entry>::empty();
        let shown = match entry {
            Some(entry) => none.push(entry),
            None => none,
        };
        let after = final(driver).progress(shown);
        assert(before.progress(none).entries == none);
        assert(after == advance(before.progress(none), (op.user_data, op.code().delay()), decision, now@));
        assert(after.entries == shown);
        assert(entry is Some ==> shown[0] == entry->0);
    }
}

/// An operation waits exactly if its descriptor was registered, for what it was registered for. Otherwise the error is
/// output under its user data.
pub proof fn law_registration_decides<'arena, O: OpCode>(
    before: Driver<'arena, O>,
    outcome: IoResult<()>,
    output: Seq<Entry>,
)
    requires
        before.registration() is Some,
    ensures
        forall|driver: &mut Driver<'arena, O>, entries: &mut Vec<Entry>|
            *driver == before && entries@ == output && #[trigger] call_ensures(
                Driver::<'arena, O>::registered,
                (driver, outcome, entries),
                (),
            ) ==> {
                let token = before.registration()->0.token;
                &&& outcome is Ok ==> final(driver).waits().contains_key(token) && final(driver).waits()[token]
                    == before.registration()->0.arg && final(entries)@ == output
                &&& outcome matches Err(error) ==> final(driver).waits() == before.waits() && final(entries)@
                    == output.push(Entry { user_data: token, result: Err(error) }) && final(
                    driver).has_completion()
                &&& forall|other: usize|
                    other != token ==> #[trigger] final(driver).waits().contains_key(other)
                        == before.waits().contains_key(other)
                &&& final(driver).registration() is None
            },
{
}

/// A poll that was interrupted is made again and changes nothing, one that failed is reported with its error, and after
/// any other the events are processed.
pub proof fn law_poll_outcomes<'arena, O: OpCode>(
    before: Driver<'arena, O>,
    outcome: Result<(), CallError>,
    output: Seq<Entry>,
)
    ensures
        forall|driver: &mut Driver<'arena, O>, entries: &mut Vec<Entry>, step: PollStep|
            *driver == before && entries@ == output && #[trigger] call_ensures(
                Driver::<'arena, O>::polled,
                (driver, outcome, entries),
                step,
            ) ==> {
                &&& step is Process <==> outcome is Ok
                &&& outcome matches Err(error) ==> {
                    &&& step is Retry <==> error.kind is Interrupted
                    &&& !(error.kind is Interrupted) ==> step == PollStep::Fail(IoError::Os(error.code))
                    &&& *final(driver) == before
                    &&& final(entries)@ == output
                }
                &&& outcome is Ok ==> final(entries)@.len() >= output.len() && final(entries)@.take(
                    output.len() as int,
                ) == output && forall|i: int|
                    output.len() <= i < final(entries)@.len() ==> (#[trigger] final(entries)@[i]).result == Ok::<
                        usize,
                        IoError,
                    >(0)
                &&& final(driver).waits() == before.waits()
                &&& final(driver).squeue() == before.squeue()
            },
{
    assert forall|driver: &mut Driver<'arena, O>, entries: &mut Vec<Entry>, step: PollStep|
        *driver == before && entries@ == output && outcome is Ok && #[trigger] call_ensures(
            Driver::<'arena, O>::polled,
            (driver, outcome, entries),
            step,
        ) implies final(entries)@.len() >= output.len() && final(entries)@.take(output.len() as int) == output
        && forall|i: int|
        output.len() <= i < final(entries)@.len() ==> (#[trigger] final(entries)@[i]).result == Ok::<usize, IoError>(
            0,
        ) by {
        let (now, due) = choose|now: nat, due: Seq<TimerView>| #[trigger]
            expires(before.timers(), now, due, final(driver).timers()) && final(entries)@ == output
                + timer_entries(due);
        assert(final(entries)@.take(output.len() as int) =~= output);
    }
}

/// What a waiting operation makes of an event decides whether it goes on waiting: it does if it says so, and otherwise
/// its descriptor is to be deregistered, and its result is what it came to.
pub proof fn law_event_decides<'arena, O: OpCode>(
    before: Driver<'arena, O>,
    token: usize,
    flow: IoResult<ControlFlow<usize>>,
)
    requires
        before.waits().contains_key(token),
    ensures
        forall|driver: &mut Driver<'arena, O>, fd: Option<RawFd>|
            *driver == before && #[trigger] call_ensures(
                Driver::<'arena, O>::settle_event,
                (driver, token, flow),
                fd,
            ) ==> {
                let after = *final(driver);
                &&& flow matches Ok(ControlFlow::Continue(_)) ==> fd is None && after.finishing() is None
                &&& flow matches Ok(ControlFlow::Break(n)) ==> fd == Some(before.waits()[token].fd)
                    && after.finishing() is Some && after.finishing()->0.token == token && after.finishing()->0.result
                    == Ok::<usize, IoError>(n)
                &&& flow matches Err(error) ==> fd == Some(before.waits()[token].fd) && after.finishing() is Some
                    && after.finishing()->0.token == token && after.finishing()->0.result == Err::<usize, IoError>(
                    error,
                )
                &&& after.waits() == before.waits()
            },
{
}

/// An operation whose descriptor was deregistered waits no more and is output with its result, or with the error if
/// deregistering it failed. No other operation is touched.
pub proof fn law_deregistration_outputs<'arena, O: OpCode>(
    before: Driver<'arena, O>,
    outcome: IoResult<()>,
    output: Seq<Entry>,
)
    requires
        before.finishing() is Some,
    ensures
        forall|driver: &mut Driver<'arena, O>, entries: &mut Vec<Entry>|
            *driver == before && entries@ == output && #[trigger] call_ensures(
                Driver::<'arena, O>::deregistered,
                (driver, outcome, entries),
                (),
            ) ==> {
                let token = before.finishing()->0.token;
                &&& final(entries)@.len() == output.len() + 1
                &&& final(entries)@.drop_last() == output
                &&& final(entries)@.last().user_data == token
                &&& outcome is Ok ==> final(entries)@.last().result == before.finishing()->0.result
                &&& outcome matches Err(error) ==> final(entries)@.last().result == Err::<usize, IoError>(error)
                &&& !final(driver).waits().contains_key(token)
                &&& forall|other: usize|
                    other != token ==> #[trigger] final(driver).waits().contains_key(other)
                        == before.waits().contains_key(other)
            },
{
    assert forall|driver: &mut Driver<'arena, O>, entries: &mut Vec<Entry>|
        *driver == before && entries@ == output && #[trigger] call_ensures(
            Driver::<'arena, O>::deregistered,
            (driver, outcome, entries),
            (),
        ) implies final(entries)@.drop_last() == output by {
        assert(final(entries)@.drop_last() =~= output);
    }
}

/// Cancelling an operation that waits ends its wait: its descriptor is to be deregistered, and it is output by the next
/// submission. Cancelling one that does not wait yet is remembered under its user data.
pub proof fn law_cancellation_ends_the_wait<'arena, O: OpCode>(before: Driver<'arena, O>, user_data: usize)
    requires
        before.wf(),
        before.idle(),
        before.squeue().len() < before.limit(),
    ensures
        forall|driver: &mut Driver<'arena, O>, r: Result<(), ()>|
            *driver == before && #[trigger] call_ensures(
                <Driver<'arena, O> as CompleteIo<'arena, O>>::try_cancel,
                (driver, user_data),
                r,
            ) ==> {
                let after = *final(driver);
                &&& r is Ok
                &&& before.waits().contains_key(user_data) ==> {
                    &&& !after.waits().contains_key(user_data)
                    &&& after.deregistrations().last() == before.waits()[user_data].fd
                    &&& after.deregistrations().drop_last() == before.deregistrations()
                    &&& after.to_report().last() == user_data
                    &&& after.to_report().drop_last() == before.to_report()
                    &&& after.cancelled() == before.cancelled()
                }
                &&& !before.waits().contains_key(user_data) ==> {
                    &&& after.waits() == before.waits()
                    &&& after.to_report() == before.to_report()
                    &&& after.deregistrations() == before.deregistrations()
                    &&& after.cancelled() == before.cancelled().insert(user_data)
                }
                &&& forall|other: usize|
                    other != user_data ==> #[trigger] after.waits().contains_key(other)
                        == before.waits().contains_key(other)
                &&& after.squeue() == before.squeue()
                &&& after.timers() == before.timers()
            },
{
    assert forall|driver: &mut Driver<'arena, O>, r: Result<(), ()>|
        *driver == before && before.waits().contains_key(user_data) && #[trigger] call_ensures(
            <Driver<'arena, O> as CompleteIo<'arena, O>>::try_cancel,
            (driver, user_data),
            r,
        ) implies final(driver).deregistrations().drop_last() == before.deregistrations() && final(
        driver).to_report().drop_last() == before.to_report() by {
        assert(final(driver).deregistrations().drop_last() =~= before.deregistrations());
        assert(final(driver).to_report().drop_last() =~= before.to_report());
    }
}

/// The descriptors of cancelled operations are handed out to be deregistered, all of them and once.
pub proof fn law_cancelled_descriptors_are_handed_out<'arena, O: OpCode>(before: Driver<'arena, O>)
    ensures
        forall|driver: &mut Driver<'arena, O>, fds: Vec<RawFd>|
            *driver == before && #[trigger] call_ensures(
                Driver::<'arena, O>::take_deregistrations,
                (driver,),
                fds,
            ) ==> fds@ == before.deregistrations() && final(driver).deregistrations().len() == 0
                && final(driver).waits() == before.waits() && final(driver).to_report() == before.to_report(),
{
}

/// A driver takes as many operations as it was made for, and nothing waits or runs yet.
pub proof fn law_new_driver<'arena, O: OpCode>(entries: u32, made: Driver<'arena, O>)
    requires
        call_ensures(Driver::<'arena, O>::with_entries, (entries,), made),
    ensures
        made.limit() == entries,
        made.squeue().len() == 0,
        made.timers().len() == 0,
        made.to_report().len() == 0,
        made.deregistrations().len() == 0,
        forall|token: usize| !(#[trigger] made.waits().contains_key(token)) && !made.cancelled().contains(token),
        forall|plain: Driver<'arena, O>| #[trigger]
            call_ensures(Driver::<'arena, O>::new, (), plain) ==> plain.limit() == 1024 && plain.squeue().len()
                == 0,
        forall|token: usize, waiting: bool| #[trigger]
            call_ensures(Driver::<'arena, O>::is_waiting, (&made, token), waiting) ==> !waiting,
{
}

/// A step of a submission takes operations from the front of the queue and leaves the rest in its order. What it
/// outputs is not held back: it goes on to poll exactly if everything is submitted and nothing was output since the
/// submission began.
pub proof fn law_output_is_not_held_back<'arena, O: OpCode>(before: Driver<'arena, O>, output: Seq<Entry>)
    requires
        before.wf(),
        before.registration() is None,
    ensures
        forall|driver: &mut Driver<'arena, O>, entries: &mut Vec<Entry>, step: SubmitStep|
            *driver == before && entries@ == output && #[trigger] call_ensures(
                Driver::<'arena, O>::submit_next,
                (driver, entries),
                step,
            ) ==> {
                let after = *final(driver);
                let more = final(entries)@.skip(output.len() as int);
                &&& final(entries)@.len() >= output.len() + before.to_report().len()
                &&& final(entries)@.take(output.len() as int) == output
                &&& forall|i: int|
                    0 <= i < before.to_report().len() ==> (#[trigger] more[i]) == (Entry {
                        user_data: before.to_report()[i],
                        result: Err(IoError::Cancelled),
                    })
                &&& after.squeue().len() <= before.squeue().len()
                &&& after.squeue() == before.squeue().skip(before.squeue().len() - after.squeue().len())
                &&& after.to_report().len() == 0
                &&& step is Poll ==> after.squeue().len() == 0 && more.len() == 0 && !before.has_completion()
                &&& step is Return ==> after.squeue().len() == 0 && (more.len() > 0 || before.has_completion())
                &&& step is Return || step is Poll ==> after.registration() is None && !after.has_completion()
                &&& step matches SubmitStep::Register(registration) ==> after.registration() == Some(registration)
                    && registration.token == before.squeue()[before.squeue().len() - after.squeue().len()
                    - 1].user_data && after.has_completion() == (before.has_completion() || more.len() > 0)
            },
{
    assert forall|driver: &mut Driver<'arena, O>, entries: &mut Vec<Entry>, step: SubmitStep|
        *driver == before && entries@ == output && #[trigger] call_ensures(
            Driver::<'arena, O>::submit_next,
            (driver, entries),
            step,
        ) implies {
        let after = *final(driver);
        let more = final(entries)@.skip(output.len() as int);
        &&& final(entries)@.len() >= output.len() + before.to_report().len()
        &&& final(entries)@.take(output.len() as int) == output
        &&& forall|i: int|
            0 <= i < before.to_report().len() ==> (#[trigger] more[i]) == (Entry {
                user_data: before.to_report()[i],
                result: Err(IoError::Cancelled),
            })
        &&& after.squeue().len() <= before.squeue().len()
        &&& after.squeue() == before.squeue().skip(before.squeue().len() - after.squeue().len())
        &&& after.to_report().len() == 0
        &&& step is Poll ==> after.squeue().len() == 0 && more.len() == 0 && !before.has_completion()
        &&& step is Return ==> after.squeue().len() == 0 && (more.len() > 0 || before.has_completion())
        &&& step is Return || step is Poll ==> after.registration() is None && !after.has_completion()
        &&& step matches SubmitStep::Register(registration) ==> after.registration() == Some(registration)
            && registration.token == before.squeue()[before.squeue().len() - after.squeue().len() - 1].user_data
            && after.has_completion() == (before.has_completion() || more.len() > 0)
    } by {
        let after = *final(driver);
        let (decisions, left) = choose|decisions: Decisions, left: Seq<O>| #[trigger]
            stepped(before, after, output, final(entries)@, step, decisions, left);
        assert(stepped(before, after, output, final(entries)@, step, decisions, left));
        let start = step_start(before, output);
        let ops = op_views(before.squeue()).take(decisions.len() as int);
        law_submission_conserves_operations(start, ops, decisions);
        let first = cancelled_entries(before.to_report());
        let rest = reported(start, ops, decisions);
        assert(after.progress(final(entries)@).entries == final(entries)@);
        assert(after.progress(final(entries)@).completed == after.has_completion());
        assert(final(entries)@ == output + first + rest);
        assert(final(entries)@.take(output.len() as int) =~= output);
        assert(final(entries)@.skip(output.len() as int) =~= first + rest);
        assert(op_views(before.squeue()).len() == before.squeue().len());
    }
}

/// A timeout makes no call and waits for no event: it asks for a timer as long as its delay, and stays as it is.
pub proof fn law_timeout(delay: Duration, made: Timeout, event: Event)
    requires
        call_ensures(Timeout::new, (delay,), made),
    ensures
        forall|op: &mut Timeout, decision: IoResult<Decision>|
            *op == made && #[trigger] call_ensures(<Timeout as OpCode>::pre_submit, (op,), decision) ==> decision
                == Ok::<Decision, IoError>(Decision::Completed(TIMER_PENDING)) && *final(op) == made,
        forall|op: &mut Timeout, flow: IoResult<ControlFlow<usize>>|
            *op == made && #[trigger] call_ensures(<Timeout as OpCode>::on_event, (op, &event), flow) ==> flow
                == Ok::<ControlFlow<usize>, IoError>(ControlFlow::Continue(())) && *final(op) == made,
        forall|asked: Duration| #[trigger]
            call_ensures(<Timeout as OpCode>::timer_delay, (&made,), asked) ==> asked == delay,
        <Timeout as OpCode>::delay(&made) == Some(delay),
{
}

/// A decision that an operation has completed or failed puts its entry among the others, and nothing takes it out.
proof fn lemma_decision_is_output(start: Progress, ops: Seq<OpView>, decisions: Decisions, i: int)
    requires
        decisions.len() == ops.len(),
        0 <= i < ops.len(),
    ensures
        decisions[i].0 matches Ok(Decision::Completed(n)) ==> n != TIMER_PENDING ==> advance_all(
            start,
            ops,
            decisions,
        ).entries.contains(Entry { user_data: ops[i].0, result: Ok(n) }),
        decisions[i].0 matches Err(error) ==> advance_all(start, ops, decisions).entries.contains(
            Entry { user_data: ops[i].0, result: Err(error) },
        ),
    decreases ops.len(),
{
    let (front, before) = (ops.drop_last(), decisions.drop_last());
    let all = advance_all(start, ops, decisions).entries;
    let rest = advance_all(start, front, before).entries;
    if i < ops.len() - 1 {
        lemma_decision_is_output(start, front, before, i);
        assert(front[i] == ops[i] && before[i] == decisions[i]);
        assert forall|e: Entry| rest.contains(e) implies #[trigger] all.contains(e) by {
            let k = choose|k: int| 0 <= k < rest.len() && rest[k] == e;
            assert(all[k] == e);
        }
    } else {
        assert(all.len() > rest.len() ==> all[all.len() - 1] == all.last());
    }
}

/// Each operation that a step takes from the queue is asked what it decides. Where it has completed or failed, that is
/// output under its user data.
pub proof fn law_each_operation_is_asked<'arena, O: OpCode>(before: Driver<'arena, O>, output: Seq<Entry>, i: int)
    requires
        before.wf(),
        before.registration() is None,
        0 <= i < before.squeue().len(),
    ensures
        forall|driver: &mut Driver<'arena, O>, entries: &mut Vec<Entry>, step: SubmitStep|
            *driver == before && entries@ == output && i < before.squeue().len() - final(driver).squeue().len()
                && #[trigger] call_ensures(Driver::<'arena, O>::submit_next, (driver, entries), step) ==> exists|
                op: &mut O,
                decision: IoResult<Decision>,
            |
                {
                    let queued = before.squeue()[i];
                    &&& *op == queued.code()
                    &&& #[trigger] call_ensures(O::pre_submit, (op,), decision)
                    &&& decision matches Ok(Decision::Completed(n)) ==> n != TIMER_PENDING ==> final(
                        entries)@.contains(Entry { user_data: queued.user_data, result: Ok(n) })
                    &&& decision matches Err(error) ==> final(entries)@.contains(
                        Entry { user_data: queued.user_data, result: Err(error) },
                    )
                },
{
    assert forall|driver: &mut Driver<'arena, O>, entries: &mut Vec<Entry>, step: SubmitStep|
        *driver == before && entries@ == output && i < before.squeue().len() - final(driver).squeue().len()
            && #[trigger] call_ensures(Driver::<'arena, O>::submit_next, (driver, entries), step) implies exists|
        op: &mut O,
        decision: IoResult<Decision>,
    |
        {
            let queued = before.squeue()[i];
            &&& *op == queued.code()
            &&& #[trigger] call_ensures(O::pre_submit, (op,), decision)
            &&& decision matches Ok(Decision::Completed(n)) ==> n != TIMER_PENDING ==> final(entries)@.contains(
                Entry { user_data: queued.user_data, result: Ok(n) },
            )
            &&& decision matches Err(error) ==> final(entries)@.contains(
                Entry { user_data: queued.user_data, result: Err(error) },
            )
        } by {
        let after = *final(driver);
        let all = final(entries)@;
        let queue = before.squeue();
        let (decisions, left) = choose|decisions: Decisions, left: Seq<O>|
            {
                &&& #[trigger] stepped(before, after, output, all, step, decisions, left)
                &&& forall|i: int| #[trigger]
                    place(i) && i < decisions.len() ==> exists|op: &mut O|
                        {
                            &&& *op == queue[i].code()
                            &&& *final(op) == left[i]
                            &&& i < decisions.len() - 1 || !(step is Register) ==> *final(queue[i].op) == left[i]
                            &&& #[trigger] call_ensures(O::pre_submit, (op,), decisions[i].0)
                        }
            };
        assert(stepped(before, after, output, all, step, decisions, left));
        assert(place(i));
        let op = choose|op: &mut O|
            {
                &&& *op == queue[i].code()
                &&& *final(op) == left[i]
                &&& i < decisions.len() - 1 || !(step is Register) ==> *final(queue[i].op) == left[i]
                &&& #[trigger] call_ensures(O::pre_submit, (op,), decisions[i].0)
            };
        assert(call_ensures(O::pre_submit, (op,), decisions[i].0));
        let ops = op_views(queue).take(decisions.len() as int);
        lemma_decision_is_output(step_start(before, output), ops, decisions, i);
        assert(ops[i].0 == queue[i].user_data);
        assert(after.progress(all).entries == all);
    }
}

/// An event is handed to the operation that waits under its token, and what that makes of it decides: it goes on
/// waiting if it says so, and otherwise its descriptor is handed out to be deregistered, and its result is what it
/// came to.
pub proof fn law_event_goes_to_its_operation<'arena, O: OpCode>(before: Driver<'arena, O>, event: Event)
    requires
        before.wf(),
        before.waits().contains_key(event.token),
    ensures
        forall|driver: &mut Driver<'arena, O>, fd: Option<RawFd>|
            *driver == before && #[trigger] call_ensures(
                Driver::<'arena, O>::on_event,
                (driver, &event),
                fd,
            ) ==> exists|op: &mut O, flow: IoResult<ControlFlow<usize>>|
                {
                    let after = *final(driver);
                    &&& *op == before.waiting_ops()[event.token]
                    &&& #[trigger] call_ensures(O::on_event, (op, &event), flow)
                    &&& flow matches Ok(ControlFlow::Continue(_)) ==> fd is None && after.finishing() is None
                    &&& flow matches Ok(ControlFlow::Break(n)) ==> fd == Some(before.waits()[event.token].fd)
                        && after.finishing() is Some && after.finishing()->0.token == event.token
                        && after.finishing()->0.result == Ok::<usize, IoError>(n)
                    &&& flow matches Err(error) ==> fd == Some(before.waits()[event.token].fd)
                        && after.finishing() is Some && after.finishing()->0.token == event.token
                        && after.finishing()->0.result == Err::<usize, IoError>(error)
                    &&& after.waits() == before.waits()
                },
{
}

/// Operations are queued as they are, behind those that are queued, and those that do not fit stay outside as they are.
pub proof fn law_operations_are_queued_as_they_are<'arena, O: OpCode>(
    before: Driver<'arena, O>,
    op: Operation<'arena, O>,
    object: OpObject<'arena, O>,
    outside: Seq<OpObject<'arena, O>>,
)
    ensures
        forall|driver: &mut Driver<'arena, O>, r: Result<(), Operation<'arena, O>>|
            *driver == before && r is Ok && #[trigger] call_ensures(
                <Driver<'arena, O> as CompleteIo<'arena, O>>::try_push,
                (driver, op),
                r,
            ) ==> {
                let after = final(driver).squeue();
                &&& after.len() == before.squeue().len() + 1
                &&& after.drop_last() == before.squeue()
                &&& after.last().code() == op.code()
                &&& after.last().user_data == op.user_data
                &&& *final(after.last().op) == *final(op.op)
            },
        forall|driver: &mut Driver<'arena, O>, r: Result<(), OpObject<'arena, O>>|
            *driver == before && r is Ok && #[trigger] call_ensures(
                <Driver<'arena, O> as CompleteIo<'arena, O>>::try_push_dyn,
                (driver, object),
                r,
            ) ==> final(driver).squeue() == before.squeue().push(object),
        forall|driver: &mut Driver<'arena, O>, ops: &mut VecDeque<OpObject<'arena, O>>|
            *driver == before && ops@ == outside && #[trigger] call_ensures(
                <Driver<'arena, O> as CompleteIo<'arena, O>>::push_queue,
                (driver, ops),
                (),
            ) ==> final(driver).squeue() + final(ops)@ == before.squeue() + outside,
{
}

/// Attaching a descriptor succeeds and changes nothing: there is nothing to be done for it. What is invalid is no
/// descriptor.
pub proof fn law_attaching_changes_nothing<'arena, O: OpCode>(before: Driver<'arena, O>, fd: RawFd)
    ensures
        forall|driver: &mut Driver<'arena, O>, r: IoResult<()>|
            *driver == before && #[trigger] call_ensures(Driver::<'arena, O>::attach, (driver, fd), r) ==> r is Ok
                && *final(driver) == before,
        INVALID_FD == -1i32,
{
}

/// After a poll, unless it failed, the timers that have fallen due are output, and nothing else.
pub proof fn law_due_timers_are_output<'arena, O: OpCode>(before: Driver<'arena, O>, output: Seq<Entry>)
    ensures
        forall|driver: &mut Driver<'arena, O>, entries: &mut Vec<Entry>, step: PollStep|
            *driver == before && entries@ == output && #[trigger] call_ensures(
                Driver::<'arena, O>::polled,
                (driver, Ok(()), entries),
                step,
            ) ==> exists|now: nat, due: Seq<TimerView>| #[trigger]
                reports_what_is_due(
                    before.timers(),
                    final(driver).timers(),
                    now,
                    due,
                    final(entries)@.skip(output.len() as int),
                ) && before.shows(now) && final(entries)@.take(output.len() as int) == output,
{
    let outcome: Result<(), CallError> = Ok(());
    assert forall|driver: &mut Driver<'arena, O>, entries: &mut Vec<Entry>, step: PollStep|
        *driver == before && entries@ == output && #[trigger] call_ensures(
            Driver::<'arena, O>::polled,
            (driver, outcome, entries),
            step,
        ) implies exists|now: nat, due: Seq<TimerView>| #[trigger]
        reports_what_is_due(
            before.timers(),
            final(driver).timers(),
            now,
            due,
            final(entries)@.skip(output.len() as int),
        ) && before.shows(now) && final(entries)@.take(output.len() as int) == output by {
        let all = final(entries)@;
        let (now, due) = choose|now: nat, due: Seq<TimerView>| #[trigger]
            expires(before.timers(), now, due, final(driver).timers()) && before.shows(now) && all == output
                + timer_entries(due);
        law_what_expires_is_due(before.timers(), final(driver).timers(), now, due);
        assert(all.skip(output.len() as int) =~= timer_entries(due));
        assert(all.take(output.len() as int) =~= output);
    }
}

/// A poll waits as long as it can: until the timeout is over or the first timer falls due.
pub proof fn law_poll_waits_as_long_as_it_can<'arena, O: OpCode>(
    driver: Driver<'arena, O>,
    timeout: Option<Duration>,
    wait: Option<Duration>,
)
    requires
        call_ensures(Driver::<'arena, O>::poll_timeout, (&driver, timeout), wait),
    ensures
        exists|now: nat| #[trigger]
            driver.shows(now) && waits_as_long_as_it_can(driver.timers(), now, timeout, wait),
{
    let now = choose|now: nat| driver.shows(now) && #[trigger] cut_short(driver.timers(), now, timeout, wait);
    assert(driver.shows(now) && cut_short(driver.timers(), now, timeout, wait));
    law_cut_short_as_little_as_possible(driver.timers(), now, timeout, wait);
}

/// A driver tells exactly of the operations that wait that they do.
pub proof fn law_tells_who_waits<'arena, O: OpCode>(driver: Driver<'arena, O>, token: usize, waiting: bool)
    requires
        call_ensures(Driver::<'arena, O>::is_waiting, (&driver, token), waiting),
    ensures
        waiting <==> driver.waits().contains_key(token),
{
}

/// A driver takes operations exactly as long as fewer are queued than it was made for, and says how many more it takes.
/// Nothing of an external queue stays outside as long as there is room.
pub proof fn law_takes_as_many_as_it_was_made_for<'arena, O: OpCode>(
    before: Driver<'arena, O>,
    object: OpObject<'arena, O>,
    op: Operation<'arena, O>,
    outside: Seq<OpObject<'arena, O>>,
    left: usize,
)
    requires
        before.wf(),
        before.squeue().len() <= before.limit(),
        call_ensures(<Driver<'arena, O> as CompleteIo<'arena, O>>::capacity_left, (&before,), left),
    ensures
        left + before.squeue().len() == before.limit(),
        forall|driver: &mut Driver<'arena, O>, r: Result<(), Operation<'arena, O>>|
            *driver == before && #[trigger] call_ensures(
                <Driver<'arena, O> as CompleteIo<'arena, O>>::try_push,
                (driver, op),
                r,
            ) ==> (r is Ok <==> before.squeue().len() < before.limit()),
        forall|driver: &mut Driver<'arena, O>, r: Result<(), OpObject<'arena, O>>|
            *driver == before && #[trigger] call_ensures(
                <Driver<'arena, O> as CompleteIo<'arena, O>>::try_push_dyn,
                (driver, object),
                r,
            ) ==> (r is Ok <==> before.squeue().len() < before.limit()),
        forall|driver: &mut Driver<'arena, O>, ops: &mut VecDeque<OpObject<'arena, O>>|
            *driver == before && ops@ == outside && #[trigger] call_ensures(
                <Driver<'arena, O> as CompleteIo<'arena, O>>::push_queue,
                (driver, ops),
                (),
            ) ==> {
                &&& final(driver).squeue().len() <= before.limit()
                &&& final(ops)@.len() > 0 ==> final(driver).squeue().len() == before.limit()
                &&& final(driver).squeue().len() + final(ops)@.len() == before.squeue().len() + outside.len()
            },
{
    assert forall|driver: &mut Driver<'arena, O>, ops: &mut VecDeque<OpObject<'arena, O>>|
        *driver == before && ops@ == outside && #[trigger] call_ensures(
            <Driver<'arena, O> as CompleteIo<'arena, O>>::push_queue,
            (driver, ops),
            (),
        ) implies final(driver).squeue().len() + final(ops)@.len() == before.squeue().len() + outside.len() by {
        assert((final(driver).squeue() + final(ops)@).len() == (before.squeue() + outside).len());
    }
}

} // verus!
