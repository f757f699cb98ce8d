//! What holds of the registered files and of completions as a whole.
use vstd::prelude::*;

use std::collections::VecDeque;

use crate::driver::attempts::{entry_keys, place};
use crate::driver::iour::{
    all_skipped, completes_update, completion_entries, completion_entry, file_update_finished, file_update_started,
    files_setup, requests_of, Cqe, Driver, ErrorCodes, Fd, FileUpdate, FilesSetup, FilesUpdateState, FixedFd, OpCode,
    SqEntry, SqOp, SubmitMode, FILES_UPDATE_KEY, INVALID_FD, SKIP_FILE,
};
use crate::driver::tally::{lemma_output_add, lemma_times_push, times_output};
use crate::driver::unix::RawFd;
use crate::driver::{CompleteIo, Entry, OpObject, Operation};
use crate::error::{IoError, IoResult};
use crate::time::Duration;

verus! {

/// The registered files after a request that updates the first `len` of them: the skipped ones and those behind stay as
/// they are.
pub open spec fn updated(table: Seq<RawFd>, update: Seq<RawFd>, len: nat) -> Seq<RawFd> {
    Seq::new(
        table.len(),
        |i: int|
            if i < len && i < update.len() && update[i] != SKIP_FILE {
                update[i]
            } else {
                table[i]
            },
    )
}

/// The registered files after an update of all of them: the skipped ones stay as they are.
pub open spec fn overlaid(table: Seq<RawFd>, update: Seq<RawFd>) -> Seq<RawFd> {
    Seq::new(
        table.len(),
        |i: int|
            if i < update.len() && update[i] != SKIP_FILE {
                update[i]
            } else {
                table[i]
            },
    )
}

/// How many registered files a request updates.
pub open spec fn update_len(request: SqEntry) -> nat {
    match request.op {
        SqOp::FilesUpdate { len } => len as nat,
        _ => 0,
    }
}

/// The registered files as soon as the request that is in the queue for them is submitted, where the kernel has
/// `table`: they are changed as far as that request goes.
pub open spec fn files_in_effect<'arena, O: OpCode>(driver: Driver<'arena, O>, table: Seq<RawFd>) -> Seq<RawFd> {
    if driver.update_state() == FilesUpdateState::Pushed {
        updated(table, driver.files(), update_len(driver.update_entry()))
    } else {
        table
    }
}

/// The registered files of the kernel after it was told of a change at once, if it was.
pub open spec fn told(table: Seq<RawFd>, update: FileUpdate) -> Seq<RawFd> {
    match update {
        FileUpdate::Queued => table,
        FileUpdate::Sync { offset, fd } => table.update(offset as int, fd),
    }
}

/// The provided fd overrides the previously registered one, and no other: whichever way the change is made,
/// it is in effect once the queue is submitted, and the rest of the registered files is as it was.
pub proof fn law_last_registration_wins<'arena, O: OpCode>(
    before: Driver<'arena, O>,
    started: Driver<'arena, O>,
    after: Driver<'arena, O>,
    table: Seq<RawFd>,
    fd: RawFd,
    id: u32,
    update: FileUpdate,
    sync: IoResult<()>,
)
    requires
        before.wf(),
        table.len() == before.files().len(),
        id < table.len(),
        fd != SKIP_FILE,
        file_update_started(before, started, fd, id, update),
        file_update_finished(started, after, update, sync),
        sync is Ok,
    ensures
        files_in_effect(after, told(table, update)) == files_in_effect(before, table).update(
            id as int,
            fd,
        ),
{
    assert(files_in_effect(after, told(table, update)) =~= files_in_effect(before, table).update(
        id as int,
        fd,
    ));
}

/// Where the kernel refuses a change that it is told of at once, the registered files stay as they are: the driver
/// is as if the change had not been asked for.
pub proof fn law_refused_registration_changes_nothing<'arena, O: OpCode>(
    before: Driver<'arena, O>,
    started: Driver<'arena, O>,
    after: Driver<'arena, O>,
    fd: RawFd,
    id: u32,
    update: FileUpdate,
    sync: IoResult<()>,
)
    requires
        file_update_started(before, started, fd, id, update),
        file_update_finished(started, after, update, sync),
        update is Sync,
        sync is Err,
    ensures
        after == before,
{
}

/// Submitting hands an update over to the kernel without a change in what is in effect.
pub proof fn law_submission_keeps_files<'arena, O: OpCode>(before: Driver<'arena, O>, table: Seq<RawFd>)
    requires
        before.wf(),
        before.update_state() == FilesUpdateState::Pushed,
        table.len() == before.files().len(),
    ensures
        before.squeue().contains(before.update_entry()),
        forall|driver: &mut Driver<'arena, O>, timeout: Option<Duration>, mode: SubmitMode|
            *driver == before && #[trigger] call_ensures(Driver::<'arena, O>::submit, (driver, timeout), mode)
                ==> files_in_effect(
                *final(driver),
                updated(table, before.files(), update_len(before.update_entry())),
            ) == files_in_effect(before, table) && final(driver).squeue() == before.squeue() && final(
                driver).update_state() is Submitted && final(driver).files() == before.files(),
        forall|after: Driver<'arena, O>|
            after.update_state() == FilesUpdateState::Submitted ==> #[trigger] files_in_effect(
                after,
                overlaid(table, before.files()),
            ) == files_in_effect(before, table),
{
    assert(overlaid(table, before.files()) =~= files_in_effect(before, table));
}

/// An update that sets no file aside changes nothing.
pub proof fn law_skipped_files_stay(table: Seq<RawFd>, files: nat, len: nat)
    ensures
        updated(table, all_skipped(files), len) == table,
        overlaid(table, all_skipped(len)) == table,
{
    assert(updated(table, all_skipped(files), len) =~= table);
    assert(overlaid(table, all_skipped(len)) =~= table);
}

/// The request that is queued for a change of a registered file covers every registered file: with as many files as
/// that request says, the kernel puts the descriptor into its place, whichever it is, and leaves the others as they
/// are.
pub proof fn law_queued_update_covers_every_file<'arena, O: OpCode>(
    before: Driver<'arena, O>,
    table: Seq<RawFd>,
    fd: RawFd,
    id: u32,
)
    requires
        before.wf(),
        before.update_state() == FilesUpdateState::NoUpdateInProgress,
        before.squeue().len() < before.limit(),
        table.len() == before.files().len(),
        id < table.len(),
        fd != SKIP_FILE,
    ensures
        forall|driver: &mut Driver<'arena, O>, update: FileUpdate|
            *driver == before && #[trigger] call_ensures(Driver::<'arena, O>::register_fd, (driver, fd, id), update)
                ==> {
                let request = final(driver).squeue().last();
                &&& update is Queued
                &&& final(driver).squeue().len() == before.squeue().len() + 1
                &&& request.user_data == FILES_UPDATE_KEY
                &&& request.op matches SqOp::FilesUpdate { len } && updated(
                    table,
                    final(driver).files(),
                    len as nat,
                ) == table.update(id as int, fd)
            },
        forall|driver: &mut Driver<'arena, O>, update: FileUpdate|
            *driver == before && #[trigger] call_ensures(
                Driver::<'arena, O>::unregister_fd,
                (driver, FixedFd { offset: id }),
                update,
            ) ==> {
                let request = final(driver).squeue().last();
                &&& update is Queued
                &&& final(driver).squeue().len() == before.squeue().len() + 1
                &&& request.user_data == FILES_UPDATE_KEY
                &&& request.op matches SqOp::FilesUpdate { len } && updated(
                    table,
                    final(driver).files(),
                    len as nat,
                ) == table.update(id as int, -1i32)
            },
{
    assert forall|driver: &mut Driver<'arena, O>, update: FileUpdate|
        *driver == before && #[trigger] call_ensures(Driver::<'arena, O>::register_fd, (driver, fd, id), update)
        implies updated(table, final(driver).files(), update_len(final(driver).squeue().last())) == table.update(
        id as int,
        fd,
    ) by {
        assert(updated(table, final(driver).files(), update_len(final(driver).squeue().last())) =~= table.update(
            id as int,
            fd,
        ));
    }
    assert forall|driver: &mut Driver<'arena, O>, update: FileUpdate|
        *driver == before && #[trigger] call_ensures(
            Driver::<'arena, O>::unregister_fd,
            (driver, FixedFd { offset: id }),
            update,
        ) implies updated(table, final(driver).files(), update_len(final(driver).squeue().last()))
        == table.update(id as int, -1i32) by {
        assert(updated(table, final(driver).files(), update_len(final(driver).squeue().last())) =~= table.update(
            id as int,
            -1i32,
        ));
    }
}

/// A further change before the queue is submitted goes into the request that is queued already, and into no other: that
/// request puts the descriptor into its place and keeps the changes that were made before.
pub proof fn law_further_change_joins_the_queued_update<'arena, O: OpCode>(
    before: Driver<'arena, O>,
    table: Seq<RawFd>,
    fd: RawFd,
    id: u32,
)
    requires
        before.wf(),
        before.update_state() == FilesUpdateState::Pushed,
        before.squeue().len() < before.limit(),
        table.len() == before.files().len(),
        id < table.len(),
        fd != SKIP_FILE,
    ensures
        forall|driver: &mut Driver<'arena, O>, update: FileUpdate|
            *driver == before && #[trigger] call_ensures(Driver::<'arena, O>::register_fd, (driver, fd, id), update)
                ==> {
                &&& update is Queued
                &&& final(driver).squeue() == before.squeue()
                &&& files_in_effect(*final(driver), table) == files_in_effect(before, table).update(id as int, fd)
            },
{
    assert forall|driver: &mut Driver<'arena, O>, update: FileUpdate|
        *driver == before && #[trigger] call_ensures(Driver::<'arena, O>::register_fd, (driver, fd, id), update)
        implies files_in_effect(*final(driver), table) == files_in_effect(before, table).update(id as int, fd) by {
        assert(files_in_effect(*final(driver), table) =~= files_in_effect(before, table).update(id as int, fd));
    }
}

/// Where the queue is full, or an update is under way, the kernel is told at once of just that change.
pub proof fn law_change_that_cannot_be_queued_is_made_at_once<'arena, O: OpCode>(
    before: Driver<'arena, O>,
    fd: RawFd,
    id: u32,
)
    requires
        before.wf(),
        before.update_state() == FilesUpdateState::Submitted || before.squeue().len() == before.limit(),
        id < before.files().len(),
    ensures
        forall|driver: &mut Driver<'arena, O>, update: FileUpdate|
            *driver == before && #[trigger] call_ensures(Driver::<'arena, O>::register_fd, (driver, fd, id), update)
                ==> update == (FileUpdate::Sync { offset: id, fd }) && *final(driver) == before,
        forall|driver: &mut Driver<'arena, O>, update: FileUpdate|
            *driver == before && #[trigger] call_ensures(
                Driver::<'arena, O>::unregister_fd,
                (driver, FixedFd { offset: id }),
                update,
            ) ==> update == (FileUpdate::Sync { offset: id, fd: -1i32 }) && *final(driver) == before,
{
}

/// A registered file is known by the place that it was registered at, and nothing is reported but what telling the
/// kernel came to.
pub proof fn law_registered_under_its_id<'arena, O: OpCode>(
    before: Driver<'arena, O>,
    id: u32,
    update: FileUpdate,
    sync: IoResult<()>,
)
    ensures
        forall|driver: &mut Driver<'arena, O>, r: IoResult<FixedFd>|
            *driver == before && #[trigger] call_ensures(
                Driver::<'arena, O>::registered_fd,
                (driver, id, update, sync),
                r,
            ) ==> match sync {
                Ok(_) => r is Ok && r->Ok_0.offset == id,
                Err(error) => r == Err::<FixedFd, IoError>(error),
            },
        forall|driver: &mut Driver<'arena, O>, r: IoResult<()>|
            *driver == before && #[trigger] call_ensures(
                Driver::<'arena, O>::unregistered_fd,
                (driver, update, sync),
                r,
            ) ==> match sync {
                Ok(_) => r is Ok,
                Err(error) => r == Err::<(), IoError>(error),
            },
        forall|driver: &mut Driver<'arena, O>, fd: RawFd, r: IoResult<Fd>|
            *driver == before && #[trigger] call_ensures(Driver::<'arena, O>::attach, (driver, fd), r) ==> r is Ok
                && r->Ok_0.raw_fd == fd && *final(driver) == before,
{
}

/// Registered files are asked for exactly if there are to be any: as empty places where the kernel can be asked for
/// them, and otherwise as that many invalid descriptors.
pub proof fn law_files_setup(files: u32, sparse_supported: bool, setup: FilesSetup)
    requires
        call_ensures(files_setup, (files, sparse_supported), setup),
    ensures
        setup is Nothing <==> files == 0,
        setup is Sparse <==> files > 0 && sparse_supported,
        setup matches FilesSetup::Sparse(n) ==> n == files,
        setup matches FilesSetup::Explicit(fds) ==> fds@.len() == files && forall|i: int|
            0 <= i < files ==> #[trigger] fds@[i] == -1,
{
}

/// A new driver has room for as many requests as it was asked for, and none of its files is to change.
pub proof fn law_new_driver<'arena, O: OpCode>(
    capacity: u32,
    files: u32,
    codes: ErrorCodes,
    driver: Driver<'arena, O>,
)
    requires
        call_ensures(Driver::<'arena, O>::with, (capacity, files, codes), driver),
    ensures
        driver.limit() == capacity,
        driver.codes() == codes,
        driver.squeue().len() == 0,
        driver.files().len() == files,
        forall|i: int| 0 <= i < files ==> #[trigger] driver.files()[i] == SKIP_FILE,
        driver.update_state() == FilesUpdateState::NoUpdateInProgress,
        forall|plain: Driver<'arena, O>| #[trigger]
            call_ensures(Driver::<'arena, O>::new, (codes,), plain) ==> plain.limit() == 1024 && plain.files().len()
                == 0 && plain.codes() == codes && plain.squeue().len() == 0,
{
}

/// Without a timeout the submission waits as long as it takes, with an empty one not at all, and otherwise for as many
/// seconds and nanoseconds as make up the timeout. What is queued is what is submitted.
pub proof fn law_waits_as_long_as_asked<'arena, O: OpCode>(before: Driver<'arena, O>, timeout: Option<Duration>)
    requires
        timeout is Some ==> timeout->0@ < 0x1_0000_0000_0000_0000 * 1_000_000_000,
    ensures
        forall|driver: &mut Driver<'arena, O>, mode: SubmitMode|
            *driver == before && #[trigger] call_ensures(Driver::<'arena, O>::submit, (driver, timeout), mode) ==> {
                &&& timeout is None <==> mode is Wait
                &&& timeout is Some && timeout->0@ == 0 <==> mode is NoWait
                &&& timeout is Some && timeout->0@ > 0 <==> mode is WaitFor
                &&& mode matches SubmitMode::WaitFor { sec, nsec } ==> sec * 1_000_000_000 + nsec == timeout->0@
                    && nsec < 1_000_000_000
                &&& final(driver).squeue() == before.squeue()
                &&& final(driver).files() == before.files()
            },
{
}

/// A submission that was cut off by its timeout, or because the kernel wants completions to be processed first, has not
/// failed; any other error is reported.
pub proof fn law_submission_outcomes<'arena, O: OpCode>(
    driver: Driver<'arena, O>,
    outcome: Result<usize, i32>,
    r: IoResult<()>,
)
    requires
        call_ensures(Driver::<'arena, O>::submit_result, (&driver, outcome), r),
    ensures
        outcome is Ok ==> r is Ok,
        outcome matches Err(code) ==> {
            &&& r is Ok <==> code == driver.codes().etime || code == driver.codes().ebusy || code
                == driver.codes().eagain
            &&& r is Err ==> r == Err::<(), IoError>(IoError::Os(code))
        },
{
}

/// A cancellation asks the kernel to cancel the request with that user data, and comes back under it. It is put behind
/// what is queued.
pub proof fn law_cancellation_names_its_operation<'arena, O: OpCode>(before: Driver<'arena, O>, user_data: usize)
    requires
        before.wf(),
    ensures
        forall|driver: &mut Driver<'arena, O>, r: Result<(), ()>|
            *driver == before && #[trigger] call_ensures(
                <Driver<'arena, O> as CompleteIo<'arena, O>>::try_cancel,
                (driver, user_data),
                r,
            ) ==> {
                &&& r is Ok <==> before.squeue().len() < before.limit()
                &&& r is Ok ==> {
                    let request = final(driver).squeue().last();
                    &&& final(driver).squeue().drop_last() == before.squeue()
                    &&& request.user_data == user_data
                    &&& request.op matches SqOp::AsyncCancel { user_data: cancelled } && cancelled == user_data
                }
                &&& r is Err ==> *final(driver) == before
            },
{
    assert forall|driver: &mut Driver<'arena, O>, r: Result<(), ()>|
        *driver == before && #[trigger] call_ensures(
            <Driver<'arena, O> as CompleteIo<'arena, O>>::try_cancel,
            (driver, user_data),
            r,
        ) && r is Ok implies final(driver).squeue().drop_last() == before.squeue() by {
        assert(final(driver).squeue().drop_last() =~= before.squeue());
    }
}

/// A pushed operation is put behind what is queued, as the request that it asks for, under its own user data. It is
/// handed back only if the queue is full.
pub proof fn law_pushed_operation_is_queued_last<'arena, O: OpCode>(before: Driver<'arena, O>, op: OpObject<'arena, O>)
    requires
        before.wf(),
        op.code().ready(),
    ensures
        forall|driver: &mut Driver<'arena, O>, r: Result<(), OpObject<'arena, O>>|
            *driver == before && #[trigger] call_ensures(
                <Driver<'arena, O> as CompleteIo<'arena, O>>::try_push_dyn,
                (driver, op),
                r,
            ) ==> {
                &&& r is Ok <==> before.squeue().len() < before.limit()
                &&& r is Ok ==> {
                    &&& final(driver).squeue().drop_last() == before.squeue()
                    &&& final(driver).squeue().last().user_data == op.user_data
                    &&& final(driver).squeue().last().op == op.code().request()
                }
                &&& r is Err ==> r == Err::<(), OpObject<'arena, O>>(op) && *final(driver) == before
            },
{
    assert forall|driver: &mut Driver<'arena, O>, r: Result<(), OpObject<'arena, O>>|
        *driver == before && #[trigger] call_ensures(
            <Driver<'arena, O> as CompleteIo<'arena, O>>::try_push_dyn,
            (driver, op),
            r,
        ) && r is Ok implies final(driver).squeue().drop_last() == before.squeue() by {
        assert(final(driver).squeue().drop_last() =~= before.squeue());
    }
}

/// The kernel takes requests from the front of the queue: what it has left is the end of the queue, in its order.
pub proof fn law_requests_are_taken_from_the_front<'arena, O: OpCode>(before: Driver<'arena, O>, left: usize)
    requires
        before.wf(),
        before.update_state() != FilesUpdateState::Pushed,
        left <= before.squeue().len(),
    ensures
        forall|driver: &mut Driver<'arena, O>|
            *driver == before && #[trigger] call_ensures(Driver::<'arena, O>::requests_taken, (driver, left), ())
                ==> {
                &&& final(driver).squeue().len() == left
                &&& forall|i: int|
                    0 <= i < left ==> #[trigger] final(driver).squeue()[i] == before.squeue()[before.squeue().len()
                        - left + i]
            },
{
}

/// A completion is reported under the user data of its request, with what the kernel reports: what was
/// transferred, the error, or nothing for a timer that has expired. Only the completions of the driver's own
/// updates and of cancellations that came to nothing are not reported.
pub proof fn law_completions_are_reported(cqe: Cqe, codes: ErrorCodes)
    requires
        codes.valid(),
        cqe.result > i32::MIN,
        cqe.user_data <= usize::MAX,
    ensures
        completion_entry(cqe, codes) is None <==> cqe.user_data == FILES_UPDATE_KEY || (cqe.result
            != -codes.etime && (cqe.result == -codes.enoent || cqe.result == -codes.ealready)),
        completion_entry(cqe, codes) matches Some(entry) ==> {
            &&& entry.user_data == cqe.user_data
            &&& cqe.result >= 0 ==> entry.result == Ok::<usize, IoError>(cqe.result as usize)
            &&& cqe.result == -codes.etime ==> entry.result == Ok::<usize, IoError>(0)
            &&& cqe.result < 0 && cqe.result != -codes.etime ==> entry.result == Err::<usize, IoError>(
                IoError::Os((-cqe.result) as i32),
            )
        },
{
}

/// A driver with what it has output so far.
pub struct State<'arena, O: OpCode> {
    /// The driver.
    pub driver: Driver<'arena, O>,
    /// The entries that were output, in their order.
    pub entries: Seq<Entry>,
}

/// What every call leaves as it is: the error codes and the size of the queue.
pub open spec fn same_setup<'arena, O: OpCode>(a: Driver<'arena, O>, b: Driver<'arena, O>) -> bool {
    b.codes() == a.codes() && b.limit() == a.limit()
}

/// Requests were put into the submission queue: pushed operations, or a cancellation.
pub open spec fn requests_added<'arena, O: OpCode>(
    a: Driver<'arena, O>,
    b: Driver<'arena, O>,
    more: Seq<SqEntry>,
) -> bool {
    &&& b.squeue() == a.squeue() + more
    &&& b.files() == a.files()
    &&& b.update_state() == a.update_state()
}

/// The queue was submitted, and the kernel has left that many requests in it.
pub open spec fn requests_submitted<'arena, O: OpCode>(
    a: Driver<'arena, O>,
    b: Driver<'arena, O>,
    left: nat,
) -> bool {
    &&& left <= a.squeue().len()
    &&& b.squeue() == a.squeue().skip(a.squeue().len() - left)
    &&& b.files() == a.files()
    &&& b.update_state() == if a.update_state() == FilesUpdateState::Pushed {
        FilesUpdateState::Submitted
    } else {
        a.update_state()
    }
}

/// Completions were taken.
pub open spec fn completions_taken<'arena, O: OpCode>(
    a: Driver<'arena, O>,
    b: Driver<'arena, O>,
    cqes: Seq<Cqe>,
) -> bool {
    &&& b.squeue() == a.squeue()
    &&& b.files() == if completes_update(cqes) {
        all_skipped(a.files().len())
    } else {
        a.files()
    }
    &&& b.update_state() == if completes_update(cqes) {
        FilesUpdateState::NoUpdateInProgress
    } else {
        a.update_state()
    }
}

/// One state leads to the next: requests are pushed or submitted, a registered file is changed, or the completions
/// `cqes` are taken. Nothing is output but for completions.
pub open spec fn leads_to<'arena, O: OpCode>(
    a: State<'arena, O>,
    b: State<'arena, O>,
    cqes: Seq<Cqe>,
) -> bool {
    &&& same_setup(a.driver, b.driver)
    &&& b.entries == a.entries + completion_entries(cqes, a.driver.codes())
    &&& completions_taken(a.driver, b.driver, cqes) || {
        &&& cqes.len() == 0
        &&& {
            ||| exists|more: Seq<SqEntry>| #[trigger] requests_added(a.driver, b.driver, more)
            ||| exists|left: nat| #[trigger] requests_submitted(a.driver, b.driver, left)
            ||| exists|fd: RawFd, id: u32, update: FileUpdate| #[trigger]
                file_update_started(a.driver, b.driver, fd, id, update)
            ||| exists|update: FileUpdate, sync: IoResult<()>| #[trigger]
                file_update_finished(a.driver, b.driver, update, sync)
        }
    }
}

/// The completions that were taken, one call after the other.
pub open spec fn taken_together(batches: Seq<Seq<Cqe>>) -> Seq<Cqe>
    decreases batches.len(),
{
    if batches.len() == 0 {
        Seq::empty()
    } else {
        taken_together(batches.drop_last()) + batches.last()
    }
}

/// Completions that are taken by two calls are output as if one call had taken them.
pub proof fn law_completions_add_up(a: Seq<Cqe>, b: Seq<Cqe>, codes: ErrorCodes)
    ensures
        completion_entries(a + b, codes) == completion_entries(a, codes) + completion_entries(b, codes),
    decreases b.len(),
{
    if b.len() == 0 {
        assert(a + b =~= a);
        assert(completion_entries(a, codes) + completion_entries(b, codes) =~= completion_entries(a, codes));
    } else {
        law_completions_add_up(a, b.drop_last(), codes);
        assert((a + b).drop_last() =~= a + b.drop_last());
        assert((a + b).last() == b.last());
        assert(completion_entries(a + b, codes) =~= completion_entries(a, codes) + completion_entries(
            b,
            codes,
        ));
    }
}

/// However a driver is used, it goes by the error codes that it was made with, and what it outputs is what the kernel
/// has reported, in that order and by these codes: an operation that was pushed is output as its completion says.
pub proof fn law_output_is_what_the_kernel_reports<'arena, O: OpCode>(
    run: Seq<State<'arena, O>>,
    batches: Seq<Seq<Cqe>>,
)
    requires
        run.len() == batches.len() + 1,
        forall|i: int|
            0 <= i < batches.len() ==> leads_to(run[i], run[i + 1], #[trigger] batches[i]),
    ensures
        run.last().driver.codes() == run[0].driver.codes(),
        run.last().driver.limit() == run[0].driver.limit(),
        run.last().entries == run[0].entries + completion_entries(
            taken_together(batches),
            run[0].driver.codes(),
        ),
    decreases batches.len(),
{
    let codes = run[0].driver.codes();
    if batches.len() == 0 {
        assert(run[0].entries + completion_entries(taken_together(batches), codes) =~= run[0].entries);
    } else {
        let front = run.drop_last();
        let earlier = batches.drop_last();
        assert forall|i: int| 0 <= i < earlier.len() implies leads_to(
            front[i],
            front[i + 1],
            #[trigger] earlier[i],
        ) by {
            assert(leads_to(run[i], run[i + 1], batches[i]));
        }
        law_output_is_what_the_kernel_reports(front, earlier);
        let last = batches.len() - 1;
        assert(leads_to(run[last], run[last + 1], batches[last]));
        law_completions_add_up(taken_together(earlier), batches[last], codes);
        assert(run.last().entries =~= run[0].entries + completion_entries(
            taken_together(batches),
            codes,
        ));
    }
}

/// An operation that was pushed is output with what its completion says, by the error codes that the driver was made
/// with, however the driver was used in between: a timer that has expired is a success.
pub proof fn law_pushed_operation_is_reported<'arena, O: OpCode>(
    run: Seq<State<'arena, O>>,
    batches: Seq<Seq<Cqe>>,
    user_data: usize,
    result: i32,
)
    requires
        run.len() == batches.len() + 1,
        forall|i: int|
            0 <= i < batches.len() ==> leads_to(run[i], run[i + 1], #[trigger] batches[i]),
        user_data != FILES_UPDATE_KEY,
        result > i32::MIN,
        taken_together(batches).contains(Cqe { user_data: user_data as u64, result }),
        ({
            let codes = run[0].driver.codes();
            codes.valid() && (result == -codes.etime || result != -codes.enoent && result
                != -codes.ealready)
        }),
    ensures
        result >= 0 ==> run.last().entries.contains(Entry { user_data, result: Ok(result as usize) }),
        result == -run[0].driver.codes().etime ==> run.last().entries.contains(
            Entry { user_data, result: Ok(0) },
        ),
        result < 0 && result != -run[0].driver.codes().etime ==> run.last().entries.contains(
            Entry { user_data, result: Err(IoError::Os((-result) as i32)) },
        ),
{
    let codes = run[0].driver.codes();
    let all = taken_together(batches);
    let cqe = Cqe { user_data: user_data as u64, result };
    law_output_is_what_the_kernel_reports(run, batches);
    let at = choose|i: int| 0 <= i < all.len() && all[i] == cqe;
    lemma_reported_entry(all, codes, at);
    let output = completion_entries(all, codes);
    let k = choose|k: int| 0 <= k < output.len() && output[k] == completion_entry(cqe, codes)->0;
    assert(run.last().entries[run[0].entries.len() + k] == output[k]);
}

/// The entry of a completion that is reported is among those of all of them.
proof fn lemma_reported_entry(cqes: Seq<Cqe>, codes: ErrorCodes, at: int)
    requires
        0 <= at < cqes.len(),
        completion_entry(cqes[at], codes) is Some,
    ensures
        completion_entries(cqes, codes).contains(completion_entry(cqes[at], codes)->0),
    decreases cqes.len(),
{
    let entry = completion_entry(cqes[at], codes)->0;
    let all = completion_entries(cqes, codes);
    if at == cqes.len() - 1 {
        assert(all[all.len() - 1] == entry);
    } else {
        let rest = completion_entries(cqes.drop_last(), codes);
        lemma_reported_entry(cqes.drop_last(), codes, at);
        let k = choose|k: int| 0 <= k < rest.len() && rest[k] == entry;
        assert(all[k] == entry);
    }
}

/// How many of the completions under a key are those of an operation: not one of the driver's own updates, and not a
/// cancellation that came to nothing.
pub open spec fn times_reported(cqes: Seq<Cqe>, codes: ErrorCodes, key: usize) -> nat
    decreases cqes.len(),
{
    if cqes.len() == 0 {
        0
    } else {
        let cqe = cqes.last();
        let rest = times_reported(cqes.drop_last(), codes, key);
        if cqe.user_data != FILES_UPDATE_KEY && cqe.user_data as usize == key && (cqe.result == -codes.etime
            || cqe.result != -codes.enoent && cqe.result != -codes.ealready) {
            rest + 1
        } else {
            rest
        }
    }
}

/// Of completions, as many entries are output under a key as the kernel has reported operations under it: a
/// cancellation of something that was not there adds none.
pub proof fn law_output_as_often_as_reported(cqes: Seq<Cqe>, codes: ErrorCodes, key: usize)
    ensures
        times_output(completion_entries(cqes, codes), key) == times_reported(cqes, codes, key),
    decreases cqes.len(),
{
    let all = completion_entries(cqes, codes);
    if cqes.len() == 0 {
        assert(entry_keys(all) =~= Seq::empty());
    } else {
        law_output_as_often_as_reported(cqes.drop_last(), codes, key);
        let rest = completion_entries(cqes.drop_last(), codes);
        if let Some(entry) = completion_entry(cqes.last(), codes) {
            assert(entry_keys(all) =~= entry_keys(rest).push(entry.user_data));
            lemma_times_push(entry_keys(rest), entry.user_data, key);
        }
    }
}

/// Over any use of a driver, user data under which the kernel reports at most one operation is output at most once,
/// whether a cancellation was asked for before the operation was pushed, or after it has completed, or not at all.
pub proof fn law_output_at_most_once<'arena, O: OpCode>(
    run: Seq<State<'arena, O>>,
    batches: Seq<Seq<Cqe>>,
    key: usize,
)
    requires
        run.len() == batches.len() + 1,
        forall|i: int|
            0 <= i < batches.len() ==> leads_to(run[i], run[i + 1], #[trigger] batches[i]),
        times_output(run[0].entries, key) + times_reported(
            taken_together(batches),
            run[0].driver.codes(),
            key,
        ) <= 1,
    ensures
        times_output(run.last().entries, key) == times_output(run[0].entries, key) + times_reported(
            taken_together(batches),
            run[0].driver.codes(),
            key,
        ),
        times_output(run.last().entries, key) <= 1,
{
    let codes = run[0].driver.codes();
    law_output_is_what_the_kernel_reports(run, batches);
    law_output_as_often_as_reported(taken_together(batches), codes, key);
    lemma_output_add(run[0].entries, completion_entries(taken_together(batches), codes), key);
}

/// A request that covers every file of an update makes all of its changes, and one that covers none makes none.
pub proof fn law_update_covers_what_it_is_long_enough_for(table: Seq<RawFd>, update: Seq<RawFd>, len: nat)
    ensures
        len >= update.len() ==> updated(table, update, len) == overlaid(table, update),
        len == 0 ==> updated(table, update, len) == table,
        forall|i: int|
            0 <= i < table.len() && i < len && i < update.len() && update[i] != -2i32 ==> #[trigger] updated(
                table,
                update,
                len,
            )[i] == update[i],
{
    assert(len >= update.len() ==> updated(table, update, len) =~= overlaid(table, update));
    assert(len == 0 ==> updated(table, update, len) =~= table);
}

/// The completion of a request is output behind those before it, under its user data: with the bytes if there is no
/// error, with none if its time is over, and otherwise with the error code. One that says that there was nothing to
/// cancel, or that it is too late for that, is not output, nor is that of an update of the registered files.
pub proof fn law_one_more_completion<'arena, O: OpCode>(
    before: Driver<'arena, O>,
    cqes: Vec<Cqe>,
    cqe: Cqe,
    more: Vec<Cqe>,
    output: Seq<Entry>,
)
    requires
        before.wf(),
        more@ == cqes@.push(cqe),
        cqe.result > i32::MIN,
    ensures
        forall|
            driver: &mut Driver<'arena, O>,
            entries: &mut Vec<Entry>,
            again: &mut Driver<'arena, O>,
            longer: &mut Vec<Entry>,
        |
            *driver == before && entries@ == output && *again == before && longer@ == output
                && #[trigger] call_ensures(Driver::<'arena, O>::complete_entries, (driver, &cqes, entries), ())
                && #[trigger] call_ensures(Driver::<'arena, O>::complete_entries, (again, &more, longer), ()) ==> {
                let codes = before.codes();
                let (a, b) = (final(entries)@, final(longer)@);
                let update = cqe.user_data == 0xFFFF_FFFF_FFFF_FFFF;
                let silent = update || (cqe.result != -codes.etime && (cqe.result == -codes.enoent || cqe.result
                    == -codes.ealready));
                &&& silent ==> b == a
                &&& !silent ==> b.len() == a.len() + 1 && b.drop_last() == a && (cqe.user_data <= usize::MAX
                    ==> b.last().user_data == cqe.user_data)
                &&& !silent && cqe.result >= 0 ==> b.last().result == Ok::<usize, IoError>(cqe.result as usize)
                &&& !silent && cqe.result == -codes.etime ==> b.last().result == Ok::<usize, IoError>(0)
                &&& !silent && cqe.result < 0 && cqe.result != -codes.etime ==> b.last().result == Err::<
                    usize,
                    IoError,
                >(IoError::Os((-cqe.result) as i32))
                &&& update ==> final(again).update_state() is NoUpdateInProgress
                &&& !update ==> final(again).update_state() == final(driver).update_state() && final(again).files()
                    == final(driver).files()
                &&& final(again).squeue() == before.squeue()
            },
{
    assert(more@.drop_last() =~= cqes@);
    assert(more@.last() == cqe);
    assert(more@[cqes@.len() as int] == cqe);
    assert(completes_update(more@) == (completes_update(cqes@) || cqe.user_data == FILES_UPDATE_KEY)) by {
        if completes_update(cqes@) {
            let j = choose|j: int| 0 <= j < cqes@.len() && (#[trigger] cqes@[j]).user_data == FILES_UPDATE_KEY;
            assert(more@[j].user_data == FILES_UPDATE_KEY);
        }
        if completes_update(more@) && cqe.user_data != FILES_UPDATE_KEY {
            let j = choose|j: int| 0 <= j < more@.len() && (#[trigger] more@[j]).user_data == FILES_UPDATE_KEY;
            assert(cqes@[j].user_data == FILES_UPDATE_KEY);
        }
    }
    let codes = before.codes();
    let a = completion_entries(cqes@, codes);
    let b = completion_entries(more@, codes);
    assert forall|
        driver: &mut Driver<'arena, O>,
        entries: &mut Vec<Entry>,
        again: &mut Driver<'arena, O>,
        longer: &mut Vec<Entry>,
    |
        *driver == before && entries@ == output && *again == before && longer@ == output && #[trigger] call_ensures(
            Driver::<'arena, O>::complete_entries,
            (driver, &cqes, entries),
            (),
        ) && #[trigger] call_ensures(Driver::<'arena, O>::complete_entries, (again, &more, longer), ()) implies {
        &&& b.len() == a.len() + 1 ==> final(longer)@.len() == final(entries)@.len() + 1 && final(
            longer)@.last() == b.last() && (b.drop_last() == a ==> final(longer)@.drop_last() == final(entries)@)
        &&& b == a ==> final(longer)@ == final(entries)@
    } by {
        if b.len() == a.len() + 1 && b.drop_last() == a {
            assert(final(longer)@.drop_last() =~= final(entries)@);
        }
    }
    assert(b.len() == a.len() + 1 ==> b.drop_last() =~= a);
}

/// Without completions nothing is output and nothing changes.
pub proof fn law_no_completions<'arena, O: OpCode>(before: Driver<'arena, O>, none: Vec<Cqe>, output: Seq<Entry>)
    requires
        before.wf(),
        none@.len() == 0,
    ensures
        forall|driver: &mut Driver<'arena, O>, entries: &mut Vec<Entry>|
            *driver == before && entries@ == output && #[trigger] call_ensures(
                Driver::<'arena, O>::complete_entries,
                (driver, &none, entries),
                (),
            ) ==> final(entries)@ == output && final(driver).files() == before.files() && final(
                driver).update_state() == before.update_state() && final(driver).squeue() == before.squeue(),
{
    assert(output + completion_entries(none@, before.codes()) =~= output);
}

/// The completion of an update of the registered files makes way for the next one: there is none in progress, and no
/// file is to change.
pub proof fn law_completed_update_makes_way<'arena, O: OpCode>(
    before: Driver<'arena, O>,
    cqes: Vec<Cqe>,
    output: Seq<Entry>,
    i: int,
    file: int,
)
    requires
        before.wf(),
        0 <= i < cqes@.len(),
        cqes@[i].user_data == 0xFFFF_FFFF_FFFF_FFFF,
        0 <= file < before.files().len(),
    ensures
        forall|driver: &mut Driver<'arena, O>, entries: &mut Vec<Entry>|
            *driver == before && entries@ == output && #[trigger] call_ensures(
                Driver::<'arena, O>::complete_entries,
                (driver, &cqes, entries),
                (),
            ) ==> final(driver).update_state() is NoUpdateInProgress && final(driver).files().len()
                == before.files().len() && final(driver).files()[file] == -2i32,
{
    assert(completes_update(cqes@));
}

/// A driver shows the requests that are queued, in their order, and the files to be registered; descriptors show what
/// they were made of.
pub proof fn law_shown_as_they_are<'arena, O: OpCode>(
    driver: Driver<'arena, O>,
    raw_fd: RawFd,
    offset: u32,
    fd: Fd,
    fixed: FixedFd,
)
    requires
        call_ensures(Fd::from_raw, (raw_fd,), fd),
        call_ensures(FixedFd::from_offset, (offset,), fixed),
    ensures
        forall|queue: &VecDeque<SqEntry>| #[trigger]
            call_ensures(Driver::<'arena, O>::requests, (&driver,), queue) ==> queue@ == driver.squeue(),
        forall|files: &Vec<RawFd>| #[trigger]
            call_ensures(Driver::<'arena, O>::files_to_update, (&driver,), files) ==> files@ == driver.files(),
        forall|raw: RawFd| #[trigger] call_ensures(Fd::as_raw_fd, (&fd,), raw) ==> raw == raw_fd,
        forall|o: u32| #[trigger] call_ensures(FixedFd::as_offset, (&fixed,), o) ==> o == offset,
        INVALID_FD == -1i32,
        SKIP_FILE == -2i32,
        FILES_UPDATE_KEY == u64::MAX,
{
}

/// An operation is turned into its request when it is pushed, however it is handed over, and the request goes behind
/// those that are queued, under the user data of the operation.
pub proof fn law_pushed_operation_becomes_its_request<'arena, O: OpCode>(
    before: Driver<'arena, O>,
    op: Operation<'arena, O>,
)
    requires
        before.wf(),
        op.code().ready(),
    ensures
        forall|driver: &mut Driver<'arena, O>, r: Result<(), Operation<'arena, O>>|
            *driver == before && #[trigger] call_ensures(
                <Driver<'arena, O> as CompleteIo<'arena, O>>::try_push,
                (driver, op),
                r,
            ) ==> {
                &&& r is Ok <==> before.squeue().len() < before.limit()
                &&& r is Ok ==> final(driver).squeue().drop_last() == before.squeue() && final(
                    driver).squeue().last().user_data == op.user_data && exists|o: &mut O|
                    *o == op.code() && #[trigger] call_ensures(
                        O::create_entry,
                        (o,),
                        final(driver).squeue().last().op,
                    )
                &&& r is Err ==> *final(driver) == before
            },
{
    assert forall|driver: &mut Driver<'arena, O>, r: Result<(), Operation<'arena, O>>|
        *driver == before && #[trigger] call_ensures(
            <Driver<'arena, O> as CompleteIo<'arena, O>>::try_push,
            (driver, op),
            r,
        ) && r is Ok implies {
        let last = final(driver).squeue().last();
        &&& final(driver).squeue().drop_last() == before.squeue()
        &&& last.op == op.code().request()
    } by {
        assert(final(driver).squeue().drop_last() =~= before.squeue());
    }
}

/// The operations that are taken from an external queue become requests in its order, from the front, behind those that
/// are queued, each under its user data.
pub proof fn law_external_queue_becomes_requests<'arena, O: OpCode>(
    before: Driver<'arena, O>,
    outside: Seq<OpObject<'arena, O>>,
    i: int,
)
    requires
        before.wf(),
        0 <= i < outside.len(),
        forall|k: int| 0 <= k < outside.len() ==> (#[trigger] outside[k]).code().ready(),
    ensures
        forall|driver: &mut Driver<'arena, O>, ops: &mut VecDeque<OpObject<'arena, O>>|
            *driver == before && ops@ == outside && #[trigger] call_ensures(
                <Driver<'arena, O> as CompleteIo<'arena, O>>::push_queue,
                (driver, ops),
                (),
            ) ==> {
                let after = final(driver).squeue();
                let taken = outside.len() - final(ops)@.len();
                &&& after.len() == before.squeue().len() + taken
                &&& after.take(before.squeue().len() as int) == before.squeue()
                &&& i < taken ==> after[before.squeue().len() + i].user_data == outside[i].user_data && exists|
                    o: &mut O,
                |
                    *o == outside[i].code() && #[trigger] call_ensures(
                        O::create_entry,
                        (o,),
                        after[before.squeue().len() + i].op,
                    )
            },
{
    assert forall|driver: &mut Driver<'arena, O>, ops: &mut VecDeque<OpObject<'arena, O>>|
        *driver == before && ops@ == outside && #[trigger] call_ensures(
            <Driver<'arena, O> as CompleteIo<'arena, O>>::push_queue,
            (driver, ops),
            (),
        ) implies {
        let after = final(driver).squeue();
        let taken = outside.len() - final(ops)@.len();
        &&& after.len() == before.squeue().len() + taken
        &&& after.take(before.squeue().len() as int) == before.squeue()
        &&& i < taken ==> after[before.squeue().len() + i].user_data == outside[i].user_data && exists|o: &mut O|
            *o == outside[i].code() && #[trigger] call_ensures(
                O::create_entry,
                (o,),
                after[before.squeue().len() + i].op,
            )
    } by {
        let after = final(driver).squeue();
        let queue = before.squeue();
        let all = queue + requests_of(outside);
        assert(after + requests_of(final(ops)@) == all);
        assert(all.len() == after.len() + final(ops)@.len());
        assert(after =~= all.take(after.len() as int));
        assert(after.take(queue.len() as int) =~= queue);
        if i < outside.len() - final(ops)@.len() {
            assert(place(i));
            assert(after[queue.len() + i] == requests_of(outside)[i]);
        }
    }
}

/// Registering a descriptor and taking note of what telling the kernel came to puts it into its place, and leaves the
/// others as they are; unregistering makes the place empty. Where the kernel refuses, the error is reported, and
/// nothing has changed.
pub proof fn law_registration_by_its_two_calls<'arena, O: OpCode>(
    before: Driver<'arena, O>,
    table: Seq<RawFd>,
    fd: RawFd,
    id: u32,
    sync: IoResult<()>,
)
    requires
        before.wf(),
        table.len() == before.files().len(),
        id < table.len(),
        fd != SKIP_FILE,
    ensures
        forall|
            first: &mut Driver<'arena, O>,
            update: FileUpdate,
            second: &mut Driver<'arena, O>,
            r: IoResult<FixedFd>,
        |
            *first == before && *second == *final(first) && #[trigger] call_ensures(
                Driver::<'arena, O>::register_fd,
                (first, fd, id),
                update,
            ) && #[trigger] call_ensures(Driver::<'arena, O>::registered_fd, (second, id, update, sync), r) ==> {
                &&& update matches FileUpdate::Sync { offset, fd: told } ==> offset == id && told == fd
                &&& sync is Ok ==> r is Ok && r->Ok_0.offset == id && files_in_effect(
                    *final(second),
                    told(table, update),
                ) == files_in_effect(before, table).update(id as int, fd)
                &&& update is Sync && sync is Err ==> r is Err && r->Err_0 == sync->Err_0 && *final(second) == before
            },
        forall|
            first: &mut Driver<'arena, O>,
            update: FileUpdate,
            second: &mut Driver<'arena, O>,
            r: IoResult<()>,
        |
            *first == before && *second == *final(first) && #[trigger] call_ensures(
                Driver::<'arena, O>::unregister_fd,
                (first, FixedFd { offset: id }),
                update,
            ) && #[trigger] call_ensures(Driver::<'arena, O>::unregistered_fd, (second, update, sync), r) ==> {
                &&& update matches FileUpdate::Sync { offset, fd: told } ==> offset == id && told == -1i32
                &&& sync is Ok ==> r is Ok && files_in_effect(*final(second), told(table, update))
                    == files_in_effect(before, table).update(id as int, -1i32)
                &&& update is Sync && sync is Err ==> r is Err && r->Err_0 == sync->Err_0 && *final(second) == before
            },
{
    assert forall|
        first: &mut Driver<'arena, O>,
        update: FileUpdate,
        second: &mut Driver<'arena, O>,
        r: IoResult<FixedFd>,
    |
        *first == before && *second == *final(first) && #[trigger] call_ensures(
            Driver::<'arena, O>::register_fd,
            (first, fd, id),
            update,
        ) && #[trigger] call_ensures(Driver::<'arena, O>::registered_fd, (second, id, update, sync), r)
            && sync is Ok implies files_in_effect(*final(second), told(table, update))
        == files_in_effect(before, table).update(id as int, fd) by {
        assert(files_in_effect(*final(second), told(table, update)) =~= files_in_effect(before, table).update(
            id as int,
            fd,
        ));
    }
    assert forall|
        first: &mut Driver<'arena, O>,
        update: FileUpdate,
        second: &mut Driver<'arena, O>,
        r: IoResult<()>,
    |
        *first == before && *second == *final(first) && #[trigger] call_ensures(
            Driver::<'arena, O>::unregister_fd,
            (first, FixedFd { offset: id }),
            update,
        ) && #[trigger] call_ensures(Driver::<'arena, O>::unregistered_fd, (second, update, sync), r)
            && sync is Ok implies files_in_effect(*final(second), told(table, update))
        == files_in_effect(before, table).update(id as int, -1i32) by {
        assert(files_in_effect(*final(second), told(table, update)) =~= files_in_effect(before, table).update(
            id as int,
            -1i32,
        ));
    }
}

/// A driver takes operations exactly as long as fewer are queued than it was made for, and says how many more it takes.
/// Nothing of an external queue stays outside as long as there is room.
pub proof fn law_takes_as_many_as_it_was_made_for<'arena, O: OpCode>(
    before: Driver<'arena, O>,
    object: OpObject<'arena, O>,
    op: Operation<'arena, O>,
    outside: Seq<OpObject<'arena, O>>,
    left: usize,
)
    requires
        before.wf(),
        before.squeue().len() <= before.limit(),
        call_ensures(<Driver<'arena, O> as CompleteIo<'arena, O>>::capacity_left, (&before,), left),
    ensures
        left + before.squeue().len() == before.limit(),
        forall|driver: &mut Driver<'arena, O>, r: Result<(), Operation<'arena, O>>|
            *driver == before && #[trigger] call_ensures(
                <Driver<'arena, O> as CompleteIo<'arena, O>>::try_push,
                (driver, op),
                r,
            ) ==> (r is Ok <==> before.squeue().len() < before.limit()),
        forall|driver: &mut Driver<'arena, O>, r: Result<(), OpObject<'arena, O>>|
            *driver == before && #[trigger] call_ensures(
                <Driver<'arena, O> as CompleteIo<'arena, O>>::try_push_dyn,
                (driver, object),
                r,
            ) ==> (r is Ok <==> before.squeue().len() < before.limit()),
        forall|driver: &mut Driver<'arena, O>, ops: &mut VecDeque<OpObject<'arena, O>>|
            *driver == before && ops@ == outside && #[trigger] call_ensures(
                <Driver<'arena, O> as CompleteIo<'arena, O>>::push_queue,
                (driver, ops),
                (),
            ) ==> {
                &&& final(driver).squeue().len() <= before.limit()
                &&& final(ops)@.len() > 0 ==> final(driver).squeue().len() == before.limit()
                &&& final(driver).squeue().len() + final(ops)@.len() == before.squeue().len() + outside.len()
            },
{
    assert forall|driver: &mut Driver<'arena, O>, ops: &mut VecDeque<OpObject<'arena, O>>|
        *driver == before && ops@ == outside && #[trigger] call_ensures(
            <Driver<'arena, O> as CompleteIo<'arena, O>>::push_queue,
            (driver, ops),
            (),
        ) implies final(driver).squeue().len() + final(ops)@.len() == before.squeue().len() + outside.len() by {
        assert((final(driver).squeue() + requests_of(final(ops)@)).len() == (before.squeue() + requests_of(
            outside,
        )).len());
    }
}

} // verus!
