//! What holds of completions as a whole.
use vstd::prelude::*;

use std::collections::VecDeque;

use crate::driver::attempts::{
    cancelled_entries, completions, entry_keys, keys, law_each_attempt_counts, lemma_timer_is_set, new_timers, place,
    still_pending, Attempts, TIMER_PENDING,
};
use crate::driver::iocp::op::{assigned, unassigned, INVALID_SOCKET};
use crate::driver::iocp::status::{
    ntstatus_from_win32, post_driver_raw, prepared, status_of, win32_pending_result, win32_result, winapi_result,
    winsock_result, ERROR_HANDLE_EOF, ERROR_IO_INCOMPLETE, ERROR_IO_PENDING, ERROR_NO_DATA, ERROR_PIPE_CONNECTED,
    STATUS_PENDING, STATUS_SUCCESS, WSAENOTSOCK,
};
use crate::driver::iocp::{
    completion_entries, completion_entry, op_views, operated, submission_output, submitted, wait_millis, Completion,
    Driver, Fd, OpCode, Overlapped, PollRequest, RawFd, INFINITE, INVALID_FD, INVALID_FIXED_FD, NOTIFICATION_MODES,
};
use crate::driver::queue::{is_first, without};
use crate::driver::tally::{
    lemma_cancelled_tally, lemma_expiry_tally, lemma_output_add, lemma_submission_tally, lemma_timers_add,
    lemma_times_add, lemma_times_push, lemma_without_tally, op_keys, timers_under, times, times_output,
};
use crate::driver::time::{
    cut_short, expires, law_cut_short_as_little_as_possible, law_what_expires_is_due, reports_what_is_due,
    timer_entries, timer_runs, waits_as_long_as_it_can, TimerView,
};
use crate::driver::{has_key, CompleteIo, Entry, OpObject, Operation};
use crate::error::{CallError, IoError, IoResult};
use crate::poll::Poll;
use crate::time::{Duration, Moment};

verus! {

/// The status that stands for an error code is never taken for a success, and the low half of the code can be
/// read off it.
pub proof fn law_posted_error_is_no_success(error: i32)
    requires
        error > 0,
    ensures
        i32::MIN <= status_of(error) < 0,
        status_of(error) != STATUS_SUCCESS,
        status_of(error) != STATUS_PENDING,
        status_of(error) % 0x1_0000 == error % 0x1_0000,
{
}

/// What the completion port reports of a completion that was posted with an overlapped structure, where the system
/// takes the status in it for `dos_error`.
pub open spec fn reported(overlapped: Overlapped, transferred: u32, dos_error: u32) -> Completion {
    Completion { status: overlapped.internal, dos_error, transferred, user_data: overlapped.user_data }
}

/// A result that is posted comes out of the completion port as that result, under the user data of its overlapped
/// structure. An error does so where the system reads its code off the low half of the status, as it does for statuses
/// of this facility. Numbers of bytes that cannot be reported, error codes that do not fit into the low half, and
/// codes that only say that there is nothing more, are left out.
pub proof fn law_posted_result_is_reported(
    user_data: usize,
    overlapped: Overlapped,
    result: IoResult<usize>,
    transferred: u32,
    dos_error: u32,
)
    requires
        prepared(result, assigned(unassigned(), user_data), overlapped, transferred),
        match result {
            Ok(n) => n <= u32::MAX,
            Err(IoError::Os(error)) => {
                &&& 0 < error < 0x1_0000
                &&& error != ERROR_IO_INCOMPLETE
                &&& error != ERROR_HANDLE_EOF
                &&& error != ERROR_NO_DATA
                &&& dos_error == overlapped.internal % 0x1_0000
            },
            Err(_) => false,
        },
    ensures
        completion_entry(reported(overlapped, transferred, dos_error)) == (Entry { user_data, result }),
{
    if let Err(IoError::Os(error)) = result {
        law_posted_error_is_no_success(error);
    }
}

/// An operation that was cancelled before it was submitted is output by the next submission, as cancelled.
pub proof fn law_cancelled_operation_is_output<'arena, O: OpCode>(
    before: Driver<'arena, O>,
    after: Driver<'arena, O>,
    entries_before: Seq<Entry>,
    entries_after: Seq<Entry>,
    timeout: Option<Duration>,
    request: PollRequest,
    attempts: Attempts,
    now: nat,
    user_data: usize,
)
    requires
        before.cancelled().contains(user_data),
        submitted(
            before,
            after,
            entries_before,
            entries_after,
            timeout,
            request,
            attempts,
            now,
        ),
    ensures
        entries_after.contains(Entry { user_data, result: Err(IoError::Cancelled) }),
{
    let at = choose|i: int| 0 <= i < before.cancelled().len() && before.cancelled()[i] == user_data;
    let entry = Entry { user_data, result: Err(IoError::Cancelled) };
    assert(cancelled_entries(before.cancelled())[at] == entry);
    assert(submission_output(before, attempts)[at] == entry);
    assert(entries_after[entries_before.len() + at] == entry);
}

/// How often a driver still has to output something under a key by itself, and has output it.
pub open spec fn account<'arena, O: OpCode>(
    driver: Driver<'arena, O>,
    entries: Seq<Entry>,
    key: usize,
) -> nat {
    times(keys(op_views(driver.squeue())), key) + timers_under(driver.timers(), key) + times(
        driver.cancelled(),
        key,
    ) + times_output(entries, key)
}

/// A submission loses no operation and outputs none twice: what it takes out of the queue it outputs, or its timer
/// is set, or the completion port will report it.
pub proof fn law_submission_keeps_the_account<'arena, O: OpCode>(
    before: Driver<'arena, O>,
    after: Driver<'arena, O>,
    entries_before: Seq<Entry>,
    entries_after: Seq<Entry>,
    timeout: Option<Duration>,
    request: PollRequest,
    attempts: Attempts,
    now: nat,
    key: usize,
)
    requires
        submitted(
            before,
            after,
            entries_before,
            entries_after,
            timeout,
            request,
            attempts,
            now,
        ),
    ensures
        account(before, entries_before, key) == account(after, entries_after, key) + times(
            keys(still_pending(op_views(before.squeue()), attempts)),
            key,
        ),
{
    let ops = op_views(before.squeue());
    lemma_submission_tally(ops, attempts, key);
    lemma_cancelled_tally(before.cancelled(), key);
    lemma_output_add(cancelled_entries(before.cancelled()), completions(ops, attempts), key);
    lemma_output_add(entries_before, submission_output(before, attempts), key);
    lemma_timers_add(before.timers(), new_timers(ops, attempts), key);
    assert(keys(op_views(after.squeue())) =~= Seq::empty());
    assert(after.cancelled() =~= Seq::empty());
}

/// Each completion of the port is output once, under its user data.
pub proof fn law_completions_are_output_once(completions: Seq<Completion>, key: usize)
    ensures
        times_output(completion_entries(completions), key) == times(completion_keys(completions), key),
{
    assert(entry_keys(completion_entries(completions)) =~= completion_keys(completions));
}

/// What the answer of the completion port makes of a driver and of the entries: the timers that have fallen due are
/// output, and then the completions.
pub open spec fn answered<'arena, O: OpCode>(
    before: Driver<'arena, O>,
    after: Driver<'arena, O>,
    entries_before: Seq<Entry>,
    entries_after: Seq<Entry>,
    completions: Seq<Completion>,
    now: nat,
    due: Seq<TimerView>,
) -> bool {
    &&& after.squeue() == before.squeue()
    &&& after.cancelled() == before.cancelled()
    &&& expires(before.timers(), now, due, after.timers())
    &&& entries_after == entries_before + timer_entries(due) + completion_entries(completions)
}

/// What a cancellation that was taken makes of a driver.
pub open spec fn cancellation_taken<'arena, O: OpCode>(
    before: Driver<'arena, O>,
    after: Driver<'arena, O>,
    user_data: usize,
) -> bool {
    &&& after.timers() == before.timers()
    &&& after.squeue() == without(before.squeue(), user_data)
    &&& after.cancelled() == if has_key(before.squeue(), user_data) {
        before.cancelled().push(user_data)
    } else {
        before.cancelled()
    }
}

/// A driver with what it has output so far, and the user data of what the system is still to report.
pub struct State<'arena, O: OpCode> {
    /// The driver.
    pub driver: Driver<'arena, O>,
    /// The entries that were output, in their order.
    pub entries: Seq<Entry>,
    /// What was handed over to the system and is not reported yet.
    pub handed_over: Seq<usize>,
}

/// The user data of completions.
pub open spec fn completion_keys(completions: Seq<Completion>) -> Seq<usize> {
    completions.map_values(|completion: Completion| completion.user_data)
}

/// One state leads to the next by a submission, which hands over what would block, by an answer of the completion
/// port, which reports only what was handed over, or by a cancellation.
pub open spec fn leads_to<'arena, O: OpCode>(a: State<'arena, O>, b: State<'arena, O>) -> bool {
    ||| exists|timeout: Option<Duration>, request: PollRequest, attempts: Attempts, now: nat|
        {
            &&& #[trigger] submitted(
                a.driver,
                b.driver,
                a.entries,
                b.entries,
                timeout,
                request,
                attempts,
                now,
            )
            &&& b.handed_over == a.handed_over + keys(still_pending(op_views(a.driver.squeue()), attempts))
        }
    ||| exists|completions: Seq<Completion>, now: nat, due: Seq<TimerView>|
        {
            &&& #[trigger] answered(a.driver, b.driver, a.entries, b.entries, completions, now, due)
            &&& forall|key: usize| #[trigger]
                times(a.handed_over, key) == times(b.handed_over, key) + times(completion_keys(completions), key)
        }
    ||| exists|user_data: usize|
        {
            &&& #[trigger] cancellation_taken(a.driver, b.driver, user_data)
            &&& b.entries == a.entries
            &&& b.handed_over == a.handed_over
        }
}

/// How often something under a key was output or is still to be output, by the driver or by the system.
pub open spec fn whole_account<'arena, O: OpCode>(state: State<'arena, O>, key: usize) -> nat {
    account(state.driver, state.entries, key) + times(state.handed_over, key)
}

/// An answer of the completion port leaves the account as it is, but for what the system has reported.
proof fn lemma_answer_tally<'arena, O: OpCode>(
    before: Driver<'arena, O>,
    after: Driver<'arena, O>,
    entries_before: Seq<Entry>,
    entries_after: Seq<Entry>,
    completions: Seq<Completion>,
    now: nat,
    due: Seq<TimerView>,
    key: usize,
)
    requires
        answered(before, after, entries_before, entries_after, completions, now, due),
    ensures
        account(after, entries_after, key) == account(before, entries_before, key) + times(
            completion_keys(completions),
            key,
        ),
{
    lemma_expiry_tally(before.timers(), now, due, after.timers(), key);
    lemma_output_add(entries_before, timer_entries(due), key);
    lemma_output_add(entries_before + timer_entries(due), completion_entries(completions), key);
    law_completions_are_output_once(completions, key);
}

/// A cancellation leaves the account as it is: the operation is still to be output.
pub proof fn law_cancellation_keeps_the_account<'arena, O: OpCode>(
    before: Driver<'arena, O>,
    after: Driver<'arena, O>,
    entries: Seq<Entry>,
    user_data: usize,
    key: usize,
)
    requires
        cancellation_taken(before, after, user_data),
    ensures
        account(after, entries, key) == account(before, entries, key),
{
    lemma_without_tally(before.squeue(), user_data, key);
    lemma_times_push(before.cancelled(), user_data, key);
    assert(keys(op_views(before.squeue())) =~= op_keys(before.squeue()));
    assert(keys(op_views(after.squeue())) =~= op_keys(after.squeue()));
}

/// Over any number of submissions and cancellations, user data that stands for one operation is output at most once,
/// where the system reports only what was handed over to it; as long as it is not output, the driver or the system
/// has it.
pub proof fn law_output_at_most_once<'arena, O: OpCode>(run: Seq<State<'arena, O>>, key: usize)
    requires
        run.len() > 0,
        forall|i: int| 0 <= i < run.len() - 1 ==> leads_to(#[trigger] run[i], run[i + 1]),
        whole_account(run[0], key) <= 1,
    ensures
        whole_account(run.last(), key) == whole_account(run[0], key),
        times_output(run.last().entries, key) <= 1,
    decreases run.len(),
{
    if run.len() > 1 {
        let front = run.drop_last();
        assert forall|i: int| 0 <= i < front.len() - 1 implies leads_to(#[trigger] front[i], front[i + 1]) by {
            assert(leads_to(run[i], run[i + 1]));
        }
        law_output_at_most_once(front, key);
        let a = run[run.len() - 2];
        let b = run.last();
        assert(leads_to(a, b));
        lemma_step_keeps_the_account(a, b, key);
    }
}

/// A step leaves the whole account as it is.
proof fn lemma_step_keeps_the_account<'arena, O: OpCode>(a: State<'arena, O>, b: State<'arena, O>, key: usize)
    requires
        leads_to(a, b),
    ensures
        whole_account(b, key) == whole_account(a, key),
{
    if exists|user_data: usize|
        {
            &&& #[trigger] cancellation_taken(a.driver, b.driver, user_data)
            &&& b.entries == a.entries
            &&& b.handed_over == a.handed_over
        } {
        let user_data = choose|user_data: usize|
            {
                &&& #[trigger] cancellation_taken(a.driver, b.driver, user_data)
                &&& b.entries == a.entries
                &&& b.handed_over == a.handed_over
            };
        law_cancellation_keeps_the_account(a.driver, b.driver, a.entries, user_data, key);
    } else if exists|completions: Seq<Completion>, now: nat, due: Seq<TimerView>|
        {
            &&& #[trigger] answered(a.driver, b.driver, a.entries, b.entries, completions, now, due)
            &&& forall|key: usize| #[trigger]
                times(a.handed_over, key) == times(b.handed_over, key) + times(completion_keys(completions), key)
        } {
        let (completions, now, due) = choose|completions: Seq<Completion>, now: nat, due: Seq<TimerView>|
            {
                &&& #[trigger] answered(a.driver, b.driver, a.entries, b.entries, completions, now, due)
                &&& forall|key: usize| #[trigger]
                    times(a.handed_over, key) == times(b.handed_over, key) + times(
                        completion_keys(completions),
                        key,
                    )
            };
        lemma_answer_tally(a.driver, b.driver, a.entries, b.entries, completions, now, due, key);
        assert(times(a.handed_over, key) == times(b.handed_over, key) + times(
            completion_keys(completions),
            key,
        ));
    } else {
        let (timeout, request, attempts, now) = choose|
            timeout: Option<Duration>,
            request: PollRequest,
            attempts: Attempts,
            now: nat,
        |
            {
                &&& #[trigger] submitted(
                    a.driver,
                    b.driver,
                    a.entries,
                    b.entries,
                    timeout,
                    request,
                    attempts,
                    now,
                )
                &&& b.handed_over == a.handed_over + keys(
                    still_pending(op_views(a.driver.squeue()), attempts),
                )
            };
        law_submission_keeps_the_account(
            a.driver,
            b.driver,
            a.entries,
            b.entries,
            timeout,
            request,
            attempts,
            now,
            key,
        );
        lemma_times_add(
            a.handed_over,
            keys(still_pending(op_views(a.driver.squeue()), attempts)),
            key,
        );
    }
}

/// A handle is attached as it was given, if the port took it and its modes could be set; otherwise the first error is
/// handed on. Registering it is the same, under any id, and changes nothing in the driver.
pub proof fn law_attached_as_given<'arena, O: OpCode>(
    before: Driver<'arena, O>,
    fd: RawFd,
    id: u32,
    port: IoResult<()>,
    modes: IoResult<()>,
)
    ensures
        forall|driver: &mut Driver<'arena, O>, r: IoResult<Fd>|
            *driver == before && #[trigger] call_ensures(
                Driver::<'arena, O>::attach,
                (driver, fd, port, modes),
                r,
            ) ==> {
                &&& r is Ok <==> port is Ok && modes is Ok
                &&& r matches Ok(attached) ==> attached.raw_fd == fd
                &&& port matches Err(error) ==> r == Err::<Fd, IoError>(error)
                &&& port is Ok && modes is Err ==> r == Err::<Fd, IoError>(modes->Err_0)
                &&& *final(driver) == before
            },
        forall|driver: &mut Driver<'arena, O>, r: IoResult<Fd>|
            *driver == before && #[trigger] call_ensures(
                Driver::<'arena, O>::register_fd,
                (driver, fd, id, port, modes),
                r,
            ) ==> {
                &&& r is Ok <==> port is Ok && modes is Ok
                &&& r matches Ok(attached) ==> attached.raw_fd == fd
                &&& port matches Err(error) ==> r == Err::<Fd, IoError>(error)
                &&& port is Ok && modes is Err ==> r == Err::<Fd, IoError>(modes->Err_0)
                &&& *final(driver) == before
            },
        forall|driver: &mut Driver<'arena, O>, fixed: Fd, r: IoResult<()>|
            *driver == before && #[trigger] call_ensures(
                Driver::<'arena, O>::unregister_fd,
                (driver, fixed),
                r,
            ) ==> r is Ok && *final(driver) == before,
        forall|made: Fd, raw: RawFd| #[trigger]
            call_ensures(Fd::from_raw, (fd,), made) && #[trigger] call_ensures(Fd::as_raw_fd, (&made,), raw) ==> raw
                == fd,
{
}

/// The port is asked for as many completions as the driver has entries. Without a timeout it waits without a limit.
/// Otherwise it waits for the whole milliseconds of the timeout, or the longest that can be counted in them, which is
/// never taken for a wait without a limit.
pub proof fn law_waits_as_long_as_asked<'arena, O: OpCode>(
    driver: Driver<'arena, O>,
    timeout: Option<Duration>,
    request: PollRequest,
)
    requires
        driver.limit() <= usize::MAX,
        call_ensures(Driver::<'arena, O>::poll_request, (&driver, timeout), request),
    ensures
        request.max_entries == driver.limit(),
        request.timeout_ms == 0xFFFF_FFFF <==> timeout is None,
        timeout is Some ==> request.timeout_ms * 1_000_000 <= timeout->0@,
        timeout is Some && timeout->0@ < 0xFFFF_FFFF * 1_000_000 ==> timeout->0@ < (request.timeout_ms + 1)
            * 1_000_000,
        timeout is Some && timeout->0@ >= 0xFFFF_FFFF * 1_000_000 ==> request.timeout_ms == 0xFFFF_FFFE,
{
}

/// A completion is output under its user data: with the bytes that the port reports if it succeeded, with none at the
/// end of a file or of the data, and otherwise with the error code.
pub proof fn law_completion_is_output_as_reported<'arena, O: OpCode>(completion: Completion, entry: Entry)
    requires
        call_ensures(Driver::<'arena, O>::create_entry, (completion,), entry),
    ensures
        entry.user_data == completion.user_data,
        completion.status == 0 || completion.status == 259 ==> entry.result == Ok::<usize, IoError>(
            completion.transferred as usize,
        ),
        completion.status != 0 && completion.status != 259 ==> {
            &&& entry.result is Ok <==> completion.dos_error == 996 || completion.dos_error == 38
                || completion.dos_error == 232
            &&& entry.result is Ok ==> entry.result->Ok_0 == 0
            &&& entry.result is Err ==> entry.result->Err_0 == IoError::Os(completion.dos_error as i32)
        },
{
}

/// An attempt that is complete is output with what it came to, under the operation's user data; one that asks for a
/// timer sets it for when the delay has passed; one that is pending is left to the port.
pub proof fn law_attempt_decides<'arena, O: OpCode>(
    before: Driver<'arena, O>,
    op: OpObject<'arena, O>,
    attempt: Poll<IoResult<usize>>,
    now: Moment,
)
    ensures
        forall|driver: &mut Driver<'arena, O>, entry: Option<Entry>|
            *driver == before && #[trigger] call_ensures(
                Driver::<'arena, O>::settle,
                (driver, &op, attempt, now),
                entry,
            ) ==> {
                let after = *final(driver);
                let timer = attempt == Poll::<IoResult<usize>>::Ready(Ok(TIMER_PENDING));
                &&& entry is Some <==> attempt is Ready && !timer
                &&& attempt is Ready && !timer ==> entry->0.user_data == op.user_data && attempt
                    == Poll::<IoResult<usize>>::Ready(entry->0.result)
                &&& !timer ==> after.timers() == before.timers()
                &&& timer && now@ + op.code().delay()->0@ <= u64::MAX * 1_000_000_000 + 999_999_999 ==> after.timers()
                    == before.timers().insert((op.user_data, now@ + op.code().delay()->0@))
                &&& after.squeue() == before.squeue()
                &&& after.cancelled() == before.cancelled()
            },
{
}

/// A submission attempts everything that is queued, and outputs the cancelled operations first. What it outputs is not
/// held back: the port is not to wait then. Otherwise it waits no longer than the timeout, without a limit only if
/// there is neither a timeout nor a timer.
pub proof fn law_output_is_not_held_back<'arena, O: OpCode>(
    before: Driver<'arena, O>,
    timeout: Option<Duration>,
    output: Seq<Entry>,
)
    requires
        before.wf(),
    ensures
        forall|driver: &mut Driver<'arena, O>, entries: &mut Vec<Entry>, request: PollRequest|
            *driver == before && entries@ == output && #[trigger] call_ensures(
                Driver::<'arena, O>::submit,
                (driver, timeout, entries),
                request,
            ) ==> {
                let after = *final(driver);
                let more = final(entries)@.skip(output.len() as int);
                &&& final(entries)@.len() >= output.len() + before.cancelled().len()
                &&& final(entries)@.take(output.len() as int) == output
                &&& forall|i: int|
                    0 <= i < before.cancelled().len() ==> (#[trigger] more[i]) == (Entry {
                        user_data: before.cancelled()[i],
                        result: Err(IoError::Cancelled),
                    })
                &&& after.squeue().len() == 0
                &&& after.cancelled().len() == 0
                &&& request.max_entries == before.limit()
                &&& more.len() > 0 ==> request.timeout_ms == 0
                &&& more.len() == 0 ==> {
                    &&& request.timeout_ms == 0xFFFF_FFFF <==> timeout is None && after.timers().len() == 0
                    &&& timeout is Some ==> request.timeout_ms * 1_000_000 <= timeout->0@
                    &&& timeout is Some && after.timers().len() == 0 && timeout->0@ < 0xFFFF_FFFF * 1_000_000
                        ==> timeout->0@ < (request.timeout_ms + 1) * 1_000_000
                }
            },
{
    assert forall|driver: &mut Driver<'arena, O>, entries: &mut Vec<Entry>, request: PollRequest|
        *driver == before && entries@ == output && #[trigger] call_ensures(
            Driver::<'arena, O>::submit,
            (driver, timeout, entries),
            request,
        ) implies {
        let after = *final(driver);
        let more = final(entries)@.skip(output.len() as int);
        &&& final(entries)@.len() >= output.len() + before.cancelled().len()
        &&& final(entries)@.take(output.len() as int) == output
        &&& forall|i: int|
            0 <= i < before.cancelled().len() ==> (#[trigger] more[i]) == (Entry {
                user_data: before.cancelled()[i],
                result: Err(IoError::Cancelled),
            })
        &&& after.squeue().len() == 0
        &&& after.cancelled().len() == 0
        &&& request.max_entries == before.limit()
        &&& more.len() > 0 ==> request.timeout_ms == 0
        &&& more.len() == 0 ==> {
            &&& request.timeout_ms == 0xFFFF_FFFF <==> timeout is None && after.timers().len() == 0
            &&& timeout is Some ==> request.timeout_ms * 1_000_000 <= timeout->0@
            &&& timeout is Some && after.timers().len() == 0 && timeout->0@ < 0xFFFF_FFFF * 1_000_000 ==> timeout->0@
                < (request.timeout_ms + 1) * 1_000_000
        }
    } by {
        let (attempts, now) = choose|attempts: Attempts, now: nat| #[trigger]
            submitted(before, *final(driver), output, final(entries)@, timeout, request, attempts, now);
        assert(submitted(before, *final(driver), output, final(entries)@, timeout, request, attempts, now));
        let shown = submission_output(before, attempts);
        assert(final(entries)@.take(output.len() as int) =~= output);
        assert(final(entries)@.skip(output.len() as int) =~= shown);
    }
}

/// The answer of the port is output behind what was there: the timers that have fallen due, each with nothing
/// transferred, and then one entry for each completion, in its order. A timeout is no failure; any other error is
/// reported, and the completions are then none.
pub proof fn law_answer_is_output<'arena, O: OpCode>(
    before: Driver<'arena, O>,
    answer: Result<Vec<Completion>, CallError>,
    output: Seq<Entry>,
)
    ensures
        forall|driver: &mut Driver<'arena, O>, entries: &mut Vec<Entry>, r: IoResult<()>|
            *driver == before && entries@ == output && #[trigger] call_ensures(
                Driver::<'arena, O>::complete_submit,
                (driver, answer, entries),
                r,
            ) ==> {
                let count = if answer is Ok {
                    answer->Ok_0@.len()
                } else {
                    0
                };
                let all = final(entries)@;
                &&& r is Ok <==> answer is Ok || answer->Err_0.kind is TimedOut
                &&& r is Err ==> r->Err_0 == IoError::Os(answer->Err_0.code)
                &&& all.len() >= output.len() + count
                &&& all.take(output.len() as int) == output
                &&& forall|i: int|
                    output.len() <= i < all.len() - count ==> (#[trigger] all[i]).result == Ok::<usize, IoError>(0)
                &&& forall|i: int|
                    0 <= i < count ==> all[all.len() - count + i].user_data == (
                    #[trigger] answer->Ok_0@[i]).user_data
                &&& forall|i: int|
                    0 <= i < count && ((#[trigger] answer->Ok_0@[i]).status == 0 || answer->Ok_0@[i].status == 259)
                        ==> all[all.len() - count + i].result == Ok::<usize, IoError>(
                        answer->Ok_0@[i].transferred as usize,
                    )
                &&& final(driver).squeue() == before.squeue()
                &&& final(driver).cancelled() == before.cancelled()
            },
{
    assert forall|driver: &mut Driver<'arena, O>, entries: &mut Vec<Entry>, r: IoResult<()>|
        *driver == before && entries@ == output && #[trigger] call_ensures(
            Driver::<'arena, O>::complete_submit,
            (driver, answer, entries),
            r,
        ) implies {
        let count = if answer is Ok {
            answer->Ok_0@.len()
        } else {
            0
        };
        let all = final(entries)@;
        &&& all.len() >= output.len() + count
        &&& all.take(output.len() as int) == output
        &&& forall|i: int|
            output.len() <= i < all.len() - count ==> (#[trigger] all[i]).result == Ok::<usize, IoError>(0)
        &&& forall|i: int|
            0 <= i < count ==> all[all.len() - count + i].user_data == (#[trigger] answer->Ok_0@[i]).user_data
        &&& forall|i: int|
            0 <= i < count && ((#[trigger] answer->Ok_0@[i]).status == 0 || answer->Ok_0@[i].status == 259)
                ==> all[all.len() - count + i].result == Ok::<usize, IoError>(
                answer->Ok_0@[i].transferred as usize,
            )
    } by {
        let more = match answer {
            Ok(completions) => completion_entries(completions@),
            Err(_) => Seq::<Entry>::empty(),
        };
        let (now, due) = choose|now: nat, due: Seq<TimerView>| #[trigger]
            expires(before.timers(), now, due, final(driver).timers()) && final(entries)@ == output
                + timer_entries(due) + more;
        assert(final(entries)@ == output + timer_entries(due) + more);
        assert(final(entries)@.take(output.len() as int) =~= output);
    }
}

/// A cancelled operation leaves the queue, the others keep their order, and it is output by the next submission behind
/// those cancelled before.
pub proof fn law_cancellation_takes_its_operation<'arena, O: OpCode>(
    before: Driver<'arena, O>,
    user_data: usize,
    first: int,
)
    requires
        before.wf(),
        before.squeue().len() < before.limit(),
        0 <= first < before.squeue().len(),
        before.squeue()[first].user_data == user_data,
        forall|i: int| 0 <= i < first ==> (#[trigger] before.squeue()[i]).user_data != user_data,
    ensures
        forall|driver: &mut Driver<'arena, O>, r: Result<(), ()>|
            *driver == before && #[trigger] call_ensures(
                <Driver<'arena, O> as CompleteIo<'arena, O>>::try_cancel,
                (driver, user_data),
                r,
            ) ==> {
                &&& r is Ok
                &&& final(driver).squeue() == before.squeue().remove(first)
                &&& final(driver).cancelled() == before.cancelled().push(user_data)
                &&& final(driver).timers() == before.timers()
            },
{
    let ops = before.squeue();
    assert(is_first(ops, user_data, first));
    assert(without(ops, user_data) == ops.remove(first)) by {
        let other = choose|i: int| is_first(ops, user_data, i);
        assert(is_first(ops, user_data, other));
        assert(other == first) by {
            if other < first {
                assert(ops[other].user_data != user_data);
            }
        }
    }
    assert(has_key(ops, user_data));
}

/// A driver takes as many operations as it was made for, and nothing runs yet.
pub proof fn law_new_driver<'arena, O: OpCode>(entries: u32, files: u32, made: Driver<'arena, O>)
    requires
        call_ensures(Driver::<'arena, O>::with, (entries, files), made),
    ensures
        made.limit() == entries,
        made.squeue().len() == 0,
        made.timers().len() == 0,
        made.cancelled().len() == 0,
        forall|plain: Driver<'arena, O>| #[trigger]
            call_ensures(Driver::<'arena, O>::new, (), plain) ==> plain.limit() == 1024 && plain.squeue().len()
                == 0,
{
}

/// A posted success reports its bytes and leaves the structure as it is; a posted error sets a status that is no
/// success, from which the low half of its code can be read. The user data stays.
pub proof fn law_posted_completion(before: Overlapped, result: IoResult<usize>)
    ensures
        forall|overlapped: &mut Overlapped, transferred: u32|
            *overlapped == before && #[trigger] call_ensures(
                post_driver_raw,
                (result, overlapped),
                transferred,
            ) ==> {
                &&& result matches Ok(n) ==> *final(overlapped) == before && (n <= 0xFFFF_FFFF ==> transferred == n)
                &&& result is Err ==> transferred == 0
                &&& result matches Err(IoError::Os(code)) ==> code > 0 ==> final(overlapped).internal < 0
                    && final(overlapped).internal + 0x3FF9_0000 == code % 0x1_0000
                &&& result matches Err(IoError::Os(code)) ==> code <= 0 ==> final(overlapped).internal == code
                &&& final(overlapped).user_data == before.user_data
                &&& final(overlapped).offset == before.offset
                &&& final(overlapped).offset_high == before.offset_high
            },
        forall|user_data: usize, made: Overlapped| #[trigger]
            call_ensures(Overlapped::new, (user_data,), made) ==> made.user_data == user_data && made.internal == 0
                && made.offset == 0 && made.offset_high == 0,
        forall|code: i32, status: i32| #[trigger]
            call_ensures(ntstatus_from_win32, (code,), status) ==> if code <= 0 {
                status == code
            } else {
                status < 0 && status + 0x3FF9_0000 == code % 0x1_0000
            },
{
}

/// What a call returned decides as the system documents it: of those that return 0 on failure, success has the bytes
/// or, where the result is queried later, is pending; of the socket calls, which return 0 on success, success is
/// pending. A failure that says the operation is under way is pending, one that says there is nothing more has the
/// bytes, and any other is the error.
pub proof fn law_call_results(
    res: i32,
    error: u32,
    transferred: u32,
    call: Poll<IoResult<usize>>,
    queried: Poll<IoResult<usize>>,
    socket: Poll<IoResult<usize>>,
    failed: Poll<IoResult<usize>>,
)
    requires
        error != 0,
        call_ensures(win32_result, (res, error, transferred), call),
        call_ensures(win32_pending_result, (res, error), queried),
        call_ensures(winsock_result, (res, error, transferred), socket),
        call_ensures(winapi_result, (error, transferred), failed),
    ensures
        res != 0 ==> call == Poll::<IoResult<usize>>::Ready(Ok(transferred as usize)) && queried is Pending && socket
            == failed,
        res == 0 ==> call == failed && socket is Pending && (queried is Pending <==> failed is Pending),
        res == 0 && transferred == 0 ==> queried == failed,
        failed is Pending <==> error == 997,
        error == 996 || error == 38 || error == 535 || error == 232 ==> failed == Poll::<IoResult<usize>>::Ready(
            Ok(transferred as usize),
        ),
        error != 997 && error != 996 && error != 38 && error != 535 && error != 232 ==> failed == Poll::<
            IoResult<usize>,
        >::Ready(Err(IoError::Os(error as i32))),
{
}

/// Each queued operation is attempted, with its user data. Where the attempt comes to a result, that is output under
/// the user data, and where it asks for a timer, one runs.
pub proof fn law_each_operation_is_attempted<'arena, O: OpCode>(
    before: Driver<'arena, O>,
    timeout: Option<Duration>,
    output: Seq<Entry>,
    i: int,
)
    requires
        before.wf(),
        0 <= i < before.squeue().len(),
    ensures
        forall|driver: &mut Driver<'arena, O>, entries: &mut Vec<Entry>, request: PollRequest|
            *driver == before && entries@ == output && #[trigger] call_ensures(
                Driver::<'arena, O>::submit,
                (driver, timeout, entries),
                request,
            ) ==> exists|op: &mut O, attempt: Poll<IoResult<usize>>|
                {
                    &&& *op == before.squeue()[i].code()
                    &&& #[trigger] call_ensures(O::operate, (op, before.squeue()[i].user_data), attempt)
                    &&& attempt matches Poll::Ready(result) ==> result != Ok::<usize, IoError>(TIMER_PENDING)
                        ==> final(entries)@.contains(Entry { user_data: before.squeue()[i].user_data, result })
                    &&& attempt == Poll::<IoResult<usize>>::Ready(Ok(TIMER_PENDING)) ==> timer_runs(
                        final(driver).timers(),
                        before.squeue()[i].user_data,
                    )
                },
{
    assert forall|driver: &mut Driver<'arena, O>, entries: &mut Vec<Entry>, request: PollRequest|
        *driver == before && entries@ == output && #[trigger] call_ensures(
            Driver::<'arena, O>::submit,
            (driver, timeout, entries),
            request,
        ) implies exists|op: &mut O, attempt: Poll<IoResult<usize>>|
        {
            &&& *op == before.squeue()[i].code()
            &&& #[trigger] call_ensures(O::operate, (op, before.squeue()[i].user_data), attempt)
            &&& attempt matches Poll::Ready(result) ==> result != Ok::<usize, IoError>(TIMER_PENDING) ==> final(
                entries)@.contains(Entry { user_data: before.squeue()[i].user_data, result })
            &&& attempt == Poll::<IoResult<usize>>::Ready(Ok(TIMER_PENDING)) ==> timer_runs(
                final(driver).timers(),
                before.squeue()[i].user_data,
            )
        } by {
        let after = *final(driver);
        let all = final(entries)@;
        let queue = before.squeue();
        let (attempts, now) = choose|attempts: Attempts, now: nat|
            {
                &&& #[trigger] submitted(before, after, output, all, timeout, request, attempts, now)
                &&& forall|i: int| #[trigger]
                    place(i) && i < attempts.len() ==> exists|op: &mut O, attempt: Poll<IoResult<usize>>|
                        {
                            &&& *op == queue[i].code()
                            &&& *final(op) == *final(queue[i].op)
                            &&& operated(attempt) == attempts[i].0
                            &&& #[trigger] call_ensures(O::operate, (op, queue[i].user_data), attempt)
                        }
            };
        assert(submitted(before, after, output, all, timeout, request, attempts, now));
        assert(place(i));
        let (op, attempt) = choose|op: &mut O, attempt: Poll<IoResult<usize>>|
            {
                &&& *op == queue[i].code()
                &&& *final(op) == *final(queue[i].op)
                &&& operated(attempt) == attempts[i].0
                &&& #[trigger] call_ensures(O::operate, (op, queue[i].user_data), attempt)
            };
        assert(call_ensures(O::operate, (op, queue[i].user_data), attempt));
        let ops = op_views(queue);
        law_each_attempt_counts(ops, attempts, i);
        assert(ops[i].0 == queue[i].user_data);
        let found = completions(ops, attempts);
        if let Poll::Ready(result) = attempt {
            let entry = Entry { user_data: queue[i].user_data, result };
            if result != Ok::<usize, IoError>(TIMER_PENDING) {
                let k = choose|k: int| 0 <= k < found.len() && found[k] == entry;
                assert(all[output.len() + before.cancelled().len() + k] == entry);
            } else {
                lemma_timer_is_set(ops, attempts, i);
                let timer = (ops[i].0, crate::time::after(attempts[i].1, ops[i].1->0@));
                assert(after.timers().contains(timer));
            }
        }
    }
}

/// Operations are queued as they are, behind those that are queued, and those that do not fit stay outside as they are.
pub proof fn law_operations_are_queued_as_they_are<'arena, O: OpCode>(
    before: Driver<'arena, O>,
    op: Operation<'arena, O>,
    object: OpObject<'arena, O>,
    outside: Seq<OpObject<'arena, O>>,
)
    ensures
        forall|driver: &mut Driver<'arena, O>, r: Result<(), Operation<'arena, O>>|
            *driver == before && r is Ok && #[trigger] call_ensures(
                <Driver<'arena, O> as CompleteIo<'arena, O>>::try_push,
                (driver, op),
                r,
            ) ==> {
                let after = final(driver).squeue();
                &&& after.len() == before.squeue().len() + 1
                &&& after.drop_last() == before.squeue()
                &&& after.last().code() == op.code()
                &&& after.last().user_data == op.user_data
                &&& *final(after.last().op) == *final(op.op)
            },
        forall|driver: &mut Driver<'arena, O>, r: Result<(), OpObject<'arena, O>>|
            *driver == before && r is Ok && #[trigger] call_ensures(
                <Driver<'arena, O> as CompleteIo<'arena, O>>::try_push_dyn,
                (driver, object),
                r,
            ) ==> final(driver).squeue() == before.squeue().push(object),
        forall|driver: &mut Driver<'arena, O>, ops: &mut VecDeque<OpObject<'arena, O>>|
            *driver == before && ops@ == outside && #[trigger] call_ensures(
                <Driver<'arena, O> as CompleteIo<'arena, O>>::push_queue,
                (driver, ops),
                (),
            ) ==> final(driver).squeue() + final(ops)@ == before.squeue() + outside,
{
}

/// The answer of the port, whatever it is, has the timers that have fallen due output first.
pub proof fn law_due_timers_are_output<'arena, O: OpCode>(
    before: Driver<'arena, O>,
    answer: Result<Vec<Completion>, CallError>,
    output: Seq<Entry>,
)
    ensures
        forall|driver: &mut Driver<'arena, O>, entries: &mut Vec<Entry>, r: IoResult<()>|
            *driver == before && entries@ == output && #[trigger] call_ensures(
                Driver::<'arena, O>::complete_submit,
                (driver, answer, entries),
                r,
            ) ==> exists|now: nat, due: Seq<TimerView>| #[trigger]
                reports_what_is_due(
                    before.timers(),
                    final(driver).timers(),
                    now,
                    due,
                    final(entries)@.skip(output.len() as int).take(due.len() as int),
                ) && before.shows(now) && final(entries)@.len() == output.len() + due.len() + if answer is Ok {
                    answer->Ok_0@.len()
                } else {
                    0
                },
{
    assert forall|driver: &mut Driver<'arena, O>, entries: &mut Vec<Entry>, r: IoResult<()>|
        *driver == before && entries@ == output && #[trigger] call_ensures(
            Driver::<'arena, O>::complete_submit,
            (driver, answer, entries),
            r,
        ) implies exists|now: nat, due: Seq<TimerView>| #[trigger]
        reports_what_is_due(
            before.timers(),
            final(driver).timers(),
            now,
            due,
            final(entries)@.skip(output.len() as int).take(due.len() as int),
        ) && before.shows(now) && final(entries)@.len() == output.len() + due.len() + if answer is Ok {
            answer->Ok_0@.len()
        } else {
            0
        } by {
        let more = match answer {
            Ok(completions) => completion_entries(completions@),
            Err(_) => Seq::<Entry>::empty(),
        };
        let all = final(entries)@;
        let (now, due) = choose|now: nat, due: Seq<TimerView>| #[trigger]
            expires(before.timers(), now, due, final(driver).timers()) && before.shows(now) && all == output
                + timer_entries(due) + more;
        law_what_expires_is_due(before.timers(), final(driver).timers(), now, due);
        assert(all.skip(output.len() as int).take(due.len() as int) =~= timer_entries(due));
    }
}

/// Where nothing is output, the port waits as long as it can: until the timeout is over or the first timer falls due,
/// in whole milliseconds.
pub proof fn law_port_waits_as_long_as_it_can<'arena, O: OpCode>(
    before: Driver<'arena, O>,
    timeout: Option<Duration>,
    output: Seq<Entry>,
)
    requires
        before.wf(),
    ensures
        forall|driver: &mut Driver<'arena, O>, entries: &mut Vec<Entry>, request: PollRequest|
            *driver == before && entries@ == output && final(entries)@ == output && #[trigger] call_ensures(
                Driver::<'arena, O>::submit,
                (driver, timeout, entries),
                request,
            ) ==> exists|now: nat, wait: Option<Duration>|
                {
                    &&& #[trigger] waits_as_long_as_it_can(final(driver).timers(), now, timeout, wait)
                    &&& before.shows(now)
                    &&& wait is None <==> request.timeout_ms == 0xFFFF_FFFF
                    &&& wait is Some ==> request.timeout_ms * 1_000_000 <= wait->0@ && (wait->0@ < 0xFFFF_FFFF
                        * 1_000_000 ==> wait->0@ < (request.timeout_ms + 1) * 1_000_000)
                },
{
    assert forall|driver: &mut Driver<'arena, O>, entries: &mut Vec<Entry>, request: PollRequest|
        *driver == before && entries@ == output && final(entries)@ == output && #[trigger] call_ensures(
            Driver::<'arena, O>::submit,
            (driver, timeout, entries),
            request,
        ) implies exists|now: nat, wait: Option<Duration>|
        {
            &&& #[trigger] waits_as_long_as_it_can(final(driver).timers(), now, timeout, wait)
            &&& before.shows(now)
            &&& wait is None <==> request.timeout_ms == 0xFFFF_FFFF
            &&& wait is Some ==> request.timeout_ms * 1_000_000 <= wait->0@ && (wait->0@ < 0xFFFF_FFFF * 1_000_000
                ==> wait->0@ < (request.timeout_ms + 1) * 1_000_000)
        } by {
        let timers = final(driver).timers();
        let (attempts, now) = choose|attempts: Attempts, now: nat| #[trigger]
            submitted(before, *final(driver), output, final(entries)@, timeout, request, attempts, now);
        assert(submitted(before, *final(driver), output, final(entries)@, timeout, request, attempts, now));
        assert(output + submission_output(before, attempts) == output);
        assert((output + submission_output(before, attempts)).len() == output.len());
        let wait = choose|wait: Option<Duration>| #[trigger]
            cut_short(timers, now, timeout, wait) && request.timeout_ms == wait_millis(wait);
        law_cut_short_as_little_as_possible(timers, now, timeout, wait);
    }
}

/// The codes, statuses and modes are those of the system, and what is invalid is no handle or socket.
pub proof fn law_numbers_of_the_system()
    ensures
        ERROR_HANDLE_EOF == 38,
        ERROR_NO_DATA == 232,
        ERROR_PIPE_CONNECTED == 535,
        ERROR_IO_INCOMPLETE == 996,
        ERROR_IO_PENDING == 997,
        WSAENOTSOCK == 10038,
        STATUS_SUCCESS == 0,
        STATUS_PENDING == 259,
        NOTIFICATION_MODES == 3,
        INFINITE == 0xFFFF_FFFF,
        INVALID_FD == -1isize,
        INVALID_FIXED_FD == -1isize,
        INVALID_SOCKET == -1isize,
{
}

/// The cancellation of what is not queued changes nothing: the port reports it, or it is over.
pub proof fn law_cancellation_of_what_is_not_queued<'arena, O: OpCode>(before: Driver<'arena, O>, user_data: usize)
    requires
        before.wf(),
        forall|i: int| 0 <= i < before.squeue().len() ==> (#[trigger] before.squeue()[i]).user_data != user_data,
    ensures
        forall|driver: &mut Driver<'arena, O>, r: Result<(), ()>|
            *driver == before && #[trigger] call_ensures(
                <Driver<'arena, O> as CompleteIo<'arena, O>>::try_cancel,
                (driver, user_data),
                r,
            ) ==> final(driver).squeue() == before.squeue() && final(driver).cancelled() == before.cancelled()
                && final(driver).timers() == before.timers(),
{
    let ops = before.squeue();
    assert(!has_key(ops, user_data));
    assert forall|i: int| !is_first(ops, user_data, i) by {
        if is_first(ops, user_data, i) {
            assert(ops[i].user_data != user_data);
        }
    }
}

/// A driver takes operations exactly as long as fewer are queued than it was made for, and says how many more it takes.
/// Nothing of an external queue stays outside as long as there is room.
pub proof fn law_takes_as_many_as_it_was_made_for<'arena, O: OpCode>(
    before: Driver<'arena, O>,
    object: OpObject<'arena, O>,
    op: Operation<'arena, O>,
    outside: Seq<OpObject<'arena, O>>,
    left: usize,
)
    requires
        before.wf(),
        before.squeue().len() <= before.limit(),
        call_ensures(<Driver<'arena, O> as CompleteIo<'arena, O>>::capacity_left, (&before,), left),
    ensures
        left + before.squeue().len() == before.limit(),
        forall|driver: &mut Driver<'arena, O>, r: Result<(), Operation<'arena, O>>|
            *driver == before && #[trigger] call_ensures(
                <Driver<'arena, O> as CompleteIo<'arena, O>>::try_push,
                (driver, op),
                r,
            ) ==> (r is Ok <==> before.squeue().len() < before.limit()),
        forall|driver: &mut Driver<'arena, O>, r: Result<(), OpObject<'arena, O>>|
            *driver == before && #[trigger] call_ensures(
                <Driver<'arena, O> as CompleteIo<'arena, O>>::try_push_dyn,
                (driver, object),
                r,
            ) ==> (r is Ok <==> before.squeue().len() < before.limit()),
        forall|driver: &mut Driver<'arena, O>, ops: &mut VecDeque<OpObject<'arena, O>>|
            *driver == before && ops@ == outside && #[trigger] call_ensures(
                <Driver<'arena, O> as CompleteIo<'arena, O>>::push_queue,
                (driver, ops),
                (),
            ) ==> {
                &&& final(driver).squeue().len() <= before.limit()
                &&& final(ops)@.len() > 0 ==> final(driver).squeue().len() == before.limit()
                &&& final(driver).squeue().len() + final(ops)@.len() == before.squeue().len() + outside.len()
            },
{
    assert forall|driver: &mut Driver<'arena, O>, ops: &mut VecDeque<OpObject<'arena, O>>|
        *driver == before && ops@ == outside && #[trigger] call_ensures(
            <Driver<'arena, O> as CompleteIo<'arena, O>>::push_queue,
            (driver, ops),
            (),
        ) implies final(driver).squeue().len() + final(ops)@.len() == before.squeue().len() + outside.len() by {
        assert((final(driver).squeue() + final(ops)@).len() == (before.squeue() + outside).len());
    }
}

} // verus!
