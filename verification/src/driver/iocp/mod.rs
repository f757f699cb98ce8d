//! The driver for systems with completion ports.
//!
//! Submitting an operation makes the system call. What does not complete at once is reported through the
//! completion port, together with the [`Overlapped`] that was handed to the call.
pub mod laws;
pub mod op;
pub mod op_laws;
pub mod status;

use vstd::multiset::Multiset;
use vstd::prelude::*;

use std::collections::VecDeque;

use crate::driver::attempts::{
    cancelled_entries, completions, lemma_attempts_push, lemma_cancelled_add, made_on_time, new_timers, place,
    report_cancelled, timers_have_delays, wants_timer, Attempts, OpView, Operated, TIMER_PENDING,
};
use crate::driver::iocp::status::{
    ERROR_HANDLE_EOF, ERROR_IO_INCOMPLETE, ERROR_NO_DATA, STATUS_PENDING, STATUS_SUCCESS,
};
use crate::driver::queue::{
    is_first, lemma_has_key_add, lemma_has_key_push, lemma_without, move_front, remove_first, without,
};
use crate::driver::time::{cut_short, expires, timer_entries, timer_runs, TimerView, TimerWheel};
use crate::driver::{has_key, user_datas, CompleteIo, Entry, OpObject, Operation};
use crate::error::{CallError, ErrorKind, IoError, IoResult};
use crate::poll::Poll;
use crate::time::{Clock, Duration, Moment};

verus! {

/// On windows, handle and socket are in the same size. Both of them could be attached to a completion port.
/// Therefore, both could be seen as fd.
pub type RawFd = isize;

/// Attached file descriptor.
#[derive(Clone, Copy, Debug, PartialEq, Eq, Structural)]
pub struct Fd {
    /// The handle or socket.
    pub raw_fd: RawFd,
}

impl Fd {
    /// Wraps a handle or socket.
    pub fn from_raw(raw_fd: RawFd) -> (fd: Self)
        ensures
            fd == (Fd { raw_fd }),
    {
        Fd { raw_fd }
    }

    /// The handle or socket.
    pub fn as_raw_fd(&self) -> (raw_fd: RawFd)
        ensures
            raw_fd == self.raw_fd,
    {
        self.raw_fd
    }
}

/// Fixed fd is aliased to attached fd.
pub type FixedFd = Fd;

/// FdOrFixed is aliased to attached fd.
pub type FdOrFixed = Fd;

/// Invalid file descriptor value could be used as an initial value of uninitialized file descriptor.
pub const INVALID_FD: RawFd = -1;

/// Invalid fixed file descriptor value could be used as an initial value of uninitialized fixed file
/// descriptor.
pub const INVALID_FIXED_FD: RawFd = INVALID_FD;

/// What the system and an operation share while the operation is under way.
#[derive(Clone, Copy, Debug, PartialEq, Eq, Structural)]
pub struct Overlapped {
    /// The status of the operation.
    pub internal: i32,
    /// The low part of the position in the file.
    pub offset: u32,
    /// The high part of the position in the file.
    pub offset_high: u32,
    /// The user data of the operation.
    pub user_data: usize,
}

impl Overlapped {
    /// Nothing is known yet but the user data.
    pub fn new(user_data: usize) -> (overlapped: Self)
        ensures
            overlapped == (Overlapped { internal: 0, offset: 0, offset_high: 0, user_data }),
    {
        Overlapped { internal: 0, offset: 0, offset_high: 0, user_data }
    }
}

/// The attempt as a result that may be missing.
pub open spec fn operated(attempt: Poll<IoResult<usize>>) -> Operated {
    match attempt {
        Poll::Ready(result) => Some(result),
        Poll::Pending => None,
    }
}

/// Abstraction of operations.
pub trait OpCode: Sized {
    /// The delay that the operation is about, if it is a timer.
    open spec fn delay(&self) -> Option<Duration> {
        arbitrary()
    }

    /// Performs the system call.
    fn operate(&mut self, user_data: usize) -> (attempt: Poll<IoResult<usize>>)
        ensures
            final(self).delay() == old(self).delay(),
            wants_timer(operated(attempt)) ==> old(self).delay() is Some,
    ;

    /// The delay. Only timers have one.
    fn timer_delay(&self) -> (delay: Duration)
        requires
            self.delay() is Some,
        ensures
            delay == self.delay()->0,
    ;
}

/// The views of queued operations, the front of the queue first.
pub open spec fn op_views<'arena, O: OpCode>(ops: Seq<OpObject<'arena, O>>) -> Seq<OpView> {
    ops.map_values(|op: OpObject<'arena, O>| (op.user_data, op.code().delay()))
}

/// How many operations the submission queue takes unless something else is asked for.
pub const DEFAULT_CAPACITY: u32 = 1024;

/// The modes to attach a handle with, `FILE_SKIP_COMPLETION_PORT_ON_SUCCESS` and `FILE_SKIP_SET_EVENT_ON_HANDLE`.
pub const NOTIFICATION_MODES: u8 = 3;

/// The timeout that stands for waiting as long as it takes.
pub const INFINITE: u32 = 0xFFFF_FFFF;

/// What the completion port is asked for.
#[derive(Clone, Copy, Debug, PartialEq, Eq, Structural)]
pub struct PollRequest {
    /// How many completions can be taken.
    pub max_entries: usize,
    /// How many milliseconds to wait, or [`INFINITE`].
    pub timeout_ms: u32,
}

/// A completion that the port reports.
#[derive(Clone, Copy, Debug, PartialEq, Eq, Structural)]
pub struct Completion {
    /// The status that the system left in the [`Overlapped`].
    pub status: i32,
    /// What the system takes the status for, as an error code.
    pub dos_error: u32,
    /// How many bytes were transferred.
    pub transferred: u32,
    /// The user data of the operation.
    pub user_data: usize,
}

/// The milliseconds to wait. A timeout that cannot be counted in them is cut to the longest that can; it is not
/// taken for the wait without a limit.
pub open spec fn wait_millis(timeout: Option<Duration>) -> u32 {
    match timeout {
        Some(timeout) => if timeout@ / 1_000_000 < INFINITE {
            (timeout@ / 1_000_000) as u32
        } else {
            (INFINITE - 1) as u32
        },
        None => INFINITE,
    }
}

/// The entry of a completion. The end of a file or of the data is no error.
pub open spec fn completion_entry(completion: Completion) -> Entry {
    Entry {
        user_data: completion.user_data,
        result: if completion.status == STATUS_SUCCESS || completion.status == STATUS_PENDING {
            Ok(completion.transferred as usize)
        } else if completion.dos_error == ERROR_IO_INCOMPLETE || completion.dos_error
            == ERROR_HANDLE_EOF || completion.dos_error == ERROR_NO_DATA {
            Ok(0)
        } else {
            Err(IoError::Os(completion.dos_error as i32))
        },
    }
}

/// The entries of completions, in their order.
pub open spec fn completion_entries(completions: Seq<Completion>) -> Seq<Entry> {
    completions.map_values(|completion: Completion| completion_entry(completion))
}

/// Low-level driver of a completion port.
pub struct Driver<'arena, O: OpCode> {
    /// How many operations the submission queue takes.
    entries: usize,
    squeue: VecDeque<OpObject<'arena, O>>,
    /// To protect the undrained part of the queue from new pushes while completed entries are processed.
    squeue_drained_till: usize,
    timers: TimerWheel,
    /// Cancelled operations, to be output by the next submission.
    cancelled: Vec<usize>,
}

impl<'arena, O: OpCode> Driver<'arena, O> {
    /// The submission queue.
    pub closed spec fn squeue(&self) -> Seq<OpObject<'arena, O>> {
        self.squeue@
    }

    /// The timers that run.
    pub closed spec fn timers(&self) -> Multiset<TimerView> {
        self.timers@
    }

    /// The clock that the timers run on.
    pub closed spec fn clock(&self) -> Clock {
        self.timers.clock()
    }

    /// The clock can show the time `now`.
    pub open spec fn shows(&self, now: nat) -> bool {
        self.clock().shows(now)
    }

    /// The user data of the cancelled operations that the next submission outputs.
    pub closed spec fn cancelled(&self) -> Seq<usize> {
        self.cancelled@
    }

    /// How many operations the submission queue takes.
    pub closed spec fn limit(&self) -> nat {
        self.entries as nat
    }

    /// How much of the queue may be filled.
    pub closed spec fn drained_till(&self) -> nat {
        self.squeue_drained_till as nat
    }

    /// What holds of the driver at any time.
    pub closed spec fn sound(&self) -> bool {
        &&& self.squeue@.len() <= self.entries
        &&& self.timers.wf()
    }

    /// What holds of the driver between two calls.
    pub open spec fn wf(&self) -> bool {
        &&& self.sound()
        &&& self.drained_till() == self.limit()
    }

    /// Creates a driver with 1024 entries.
    pub fn new() -> (driver: Self)
        ensures
            driver.wf(),
            driver.limit() == 1024,
            driver.squeue().len() == 0,
            driver.timers() == Multiset::<TimerView>::empty(),
            driver.clock().is_started(),
            driver.cancelled().len() == 0,
    {
        Self::with(DEFAULT_CAPACITY, 0)
    }

    /// Creates a driver with specified entries.
    ///
    /// File registration is implemented as attachment.
    pub fn with(entries: u32, _files_to_register: u32) -> (driver: Self)
        ensures
            driver.wf(),
            driver.limit() == entries,
            driver.squeue().len() == 0,
            driver.timers() == Multiset::<TimerView>::empty(),
            driver.clock().is_started(),
            driver.cancelled().len() == 0,
    {
        let entries: usize = entries as usize;
        Driver {
            entries,
            squeue: VecDeque::with_capacity(entries),
            squeue_drained_till: entries,
            timers: TimerWheel::with_capacity(16),
            cancelled: Vec::new(),
        }
    }

    /// Takes what attaching an fd came to: the outcome of handing it to the completion port, and, where that
    /// succeeded, the outcome of setting its [`NOTIFICATION_MODES`].
    pub fn attach(&mut self, fd: RawFd, port: IoResult<()>, modes: IoResult<()>) -> (r: IoResult<Fd>)
        ensures
            *final(self) == *old(self),
            r == match port {
                Err(error) => Err(error),
                Ok(()) => match modes {
                    Err(error) => Err(error),
                    Ok(()) => Ok(Fd { raw_fd: fd }),
                },
            },
    {
        match port {
            Err(error) => Err(error),
            Ok(()) => match modes {
                Err(error) => Err(error),
                Ok(()) => Ok(Fd::from_raw(fd)),
            },
        }
    }

    /// Registers an fd: whatever its id, it is attached.
    pub fn register_fd(
        &mut self,
        fd: RawFd,
        _id: u32,
        port: IoResult<()>,
        modes: IoResult<()>,
    ) -> (r: IoResult<FixedFd>)
        ensures
            *final(self) == *old(self),
            r == match port {
                Err(error) => Err(error),
                Ok(()) => match modes {
                    Err(error) => Err(error),
                    Ok(()) => Ok(Fd { raw_fd: fd }),
                },
            },
    {
        self.attach(fd, port, modes)
    }

    /// Unregisters a fixed fd. There is nothing to be done for it.
    pub fn unregister_fd(&mut self, _fixed_fd: FixedFd) -> (r: IoResult<()>)
        ensures
            *final(self) == *old(self),
            r is Ok,
    {
        Ok(())
    }

    /// The request that makes the completion port wait as long as the timeout says.
    pub fn poll_request(&self, timeout: Option<Duration>) -> (request: PollRequest)
        ensures
            request == (PollRequest {
                max_entries: self.limit() as usize,
                timeout_ms: wait_millis(timeout),
            }),
    {
        let timeout_ms: u32 = match timeout {
            Some(timeout) => {
                let millis: u128 = timeout.as_millis();
                if millis < INFINITE as u128 {
                    millis as u32
                } else {
                    INFINITE - 1
                }
            },
            None => INFINITE,
        };
        PollRequest { max_entries: self.entries, timeout_ms }
    }

    /// The entry of a completion.
    pub fn create_entry(completion: Completion) -> (entry: Entry)
        ensures
            entry == completion_entry(completion),
    {
        let result: IoResult<usize> = if completion.status == STATUS_SUCCESS || completion.status
            == STATUS_PENDING {
            Ok(completion.transferred as usize)
        } else if completion.dos_error == ERROR_IO_INCOMPLETE || completion.dos_error
            == ERROR_HANDLE_EOF || completion.dos_error == ERROR_NO_DATA {
            Ok(0)
        } else {
            Err(IoError::Os(completion.dos_error as i32))
        };
        Entry::new(completion.user_data, result)
    }

    /// Files an operation by what the attempt at it, made at `now`, came to: its timer is set if it asks for
    /// one, its entry is returned if it has completed, and otherwise the completion port will report it.
    pub fn settle(
        &mut self,
        op: &OpObject<'arena, O>,
        attempt: Poll<IoResult<usize>>,
        now: Moment,
    ) -> (entry: Option<Entry>)
        requires
            old(self).sound(),
            wants_timer(operated(attempt)) ==> op.code().delay() is Some,
        ensures
            final(self).sound(),
            final(self).limit() == old(self).limit(),
            final(self).squeue() == old(self).squeue(),
            final(self).drained_till() == old(self).drained_till(),
            final(self).clock() == old(self).clock(),
            final(self).cancelled() == old(self).cancelled(),
            final(self).timers() == if wants_timer(operated(attempt)) {
                old(self).timers().insert(
                    (op.user_data, crate::time::after(now@, op.code().delay()->0@)),
                )
            } else {
                old(self).timers()
            },
            entry == match operated(attempt) {
                Some(result) if !wants_timer(operated(attempt)) => Some(
                    Entry { user_data: op.user_data, result },
                ),
                _ => None,
            },
    {
        let user_data: usize = op.user_data();
        match attempt {
            Poll::Ready(Ok(transferred)) => {
                if transferred == TIMER_PENDING {
                    let delay = op.opcode_ref().timer_delay();
                    self.timers.insert_at(now, user_data, delay);
                    None
                } else {
                    Some(Entry::new(user_data, Ok(transferred)))
                }
            },
            Poll::Ready(Err(error)) => Some(Entry::new(user_data, Err(error))),
            Poll::Pending => None,
        }
    }
}

/// What a submission outputs of the queued operations and of those that were cancelled.
pub open spec fn submission_output<'arena, O: OpCode>(
    before: Driver<'arena, O>,
    attempts: Attempts,
) -> Seq<Entry> {
    cancelled_entries(before.cancelled()) + completions(op_views(before.squeue()), attempts)
}

/// What a submission makes of a driver and of the entries, where the attempts at the queued operations came to
/// `attempts` and the clock showed `now` when the request to the completion port was made.
pub open spec fn submitted<'arena, O: OpCode>(
    before: Driver<'arena, O>,
    after: Driver<'arena, O>,
    entries_before: Seq<Entry>,
    entries_after: Seq<Entry>,
    timeout: Option<Duration>,
    request: PollRequest,
    attempts: Attempts,
    now: nat,
) -> bool {
    let ops = op_views(before.squeue());
    let output = submission_output(before, attempts);
    &&& attempts.len() == ops.len()
    &&& made_on_time(before.clock(), attempts)
    &&& timers_have_delays(ops, attempts)
    &&& before.shows(now)
    &&& after.squeue().len() == 0
    &&& after.cancelled().len() == 0
    &&& after.limit() == before.limit()
    &&& after.clock() == before.clock()
    &&& after.timers() == before.timers().add(new_timers(ops, attempts))
    &&& entries_after == entries_before + output
    &&& request.max_entries == before.limit()
    &&& output.len() > 0 ==> request.timeout_ms == 0
    &&& output.len() == 0 ==> exists|wait: Option<Duration>| #[trigger]
        cut_short(after.timers(), now, timeout, wait) && request.timeout_ms == wait_millis(wait)
}

impl<'arena, O: OpCode> Driver<'arena, O> {
    /// Operates the queued operations. Each attempt is what [`OpCode::operate`] of that operation, called with
    /// its user data, came to, and the operation stays as that call left it.
    fn operate_squeue(&mut self, entries: &mut Vec<Entry>)
        requires
            old(self).wf(),
        ensures
            final(self).wf(),
            final(self).limit() == old(self).limit(),
            final(self).clock() == old(self).clock(),
            final(self).cancelled() == old(self).cancelled(),
            final(self).squeue().len() == 0,
            exists|attempts: Attempts|
                {
                    &&& #[trigger] made_on_time(old(self).clock(), attempts)
                    &&& attempts.len() == old(self).squeue().len()
                    &&& timers_have_delays(op_views(old(self).squeue()), attempts)
                    &&& final(self).timers() == old(self).timers().add(
                        new_timers(op_views(old(self).squeue()), attempts),
                    )
                    &&& final(entries)@ == old(entries)@ + completions(
                        op_views(old(self).squeue()),
                        attempts,
                    )
                    &&& forall|i: int| #[trigger]
                        place(i) && i < attempts.len() ==> exists|op: &mut O, attempt: Poll<IoResult<usize>>|
                            {
                                &&& *op == old(self).squeue()[i].code()
                                &&& *final(op) == *final(old(self).squeue()[i].op)
                                &&& operated(attempt) == attempts[i].0
                                &&& #[trigger] call_ensures(
                                    O::operate,
                                    (op, old(self).squeue()[i].user_data),
                                    attempt,
                                )
                            }
                },
    {
        let ghost queue = self.squeue();
        let ghost all = op_views(self.squeue());
        let ghost mut attempts: Attempts = Seq::empty();
        let mut idx: usize = 0;
        proof {
            assert(queue.skip(0) =~= queue);
            assert(all.take(0) =~= Seq::empty());
            assert(self.timers().add(new_timers(all.take(0), attempts)) =~= self.timers());
            assert(entries@ + completions(all.take(0), attempts) =~= entries@);
        }
        while self.squeue.len() > 0
            invariant
                self.sound(),
                self.entries == old(self).entries,
                self.clock() == old(self).clock(),
                self.cancelled() == old(self).cancelled(),
                queue == old(self).squeue(),
                all == op_views(queue),
                queue.len() <= self.entries,
                idx <= queue.len(),
                attempts.len() == idx,
                made_on_time(old(self).clock(), attempts),
                timers_have_delays(all.take(idx as int), attempts),
                self.squeue() == queue.skip(idx as int),
                self.timers() == old(self).timers().add(new_timers(all.take(idx as int), attempts)),
                entries@ == old(entries)@ + completions(all.take(idx as int), attempts),
                forall|i: int| #[trigger]
                    place(i) && i < idx ==> exists|op: &mut O, attempt: Poll<IoResult<usize>>|
                        {
                            &&& *op == queue[i].code()
                            &&& *final(op) == *final(queue[i].op)
                            &&& operated(attempt) == attempts[i].0
                            &&& #[trigger] call_ensures(
                                O::operate,
                                (op, queue[i].user_data),
                                attempt,
                            )
                        },
            decreases self.squeue@.len(),
        {
            let ghost attempts_before = attempts;
            let mut op = self.squeue.pop_front().unwrap();
            let ghost taken = op;
            let ghost view = (op.user_data, op.code().delay());
            let user_data: usize = op.user_data();
            // we require Unpin buffers - so no need to pin
            let attempt = op.opcode().operate(user_data);
            // only a timer has to know when it starts
            let now = if matches!(attempt, Poll::Ready(Ok(TIMER_PENDING))) {
                self.timers.now()
            } else {
                Moment::since_start(Duration::zero())
            };
            proof {
                assert(taken == queue[idx as int]);
                assert(all[idx as int] == view);
                assert(self.squeue() =~= queue.skip(idx + 1));
                assert((op.user_data, op.code().delay()) == view);
            }
            match self.settle(&op, attempt, now) {
                Some(entry) => {
                    self.squeue_drained_till = idx + 1;
                    entries.push(entry);
                },
                None => {},
            }
            proof {
                lemma_attempts_push(
                    all.take(idx as int),
                    attempts,
                    view,
                    (operated(attempt), now@),
                );
                assert(all.take(idx + 1) =~= all.take(idx as int).push(view));
                assert(timers_have_delays(
                    all.take(idx + 1),
                    attempts.push((operated(attempt), now@)),
                )) by {
                    let next = attempts.push((operated(attempt), now@));
                    assert forall|i: int|
                        0 <= i < idx + 1 && wants_timer((#[trigger] next[i]).0) implies all.take(
                        idx + 1,
                    )[i].1 is Some by {
                        if i < idx {
                            assert(next[i] == attempts[i]);
                            assert(all.take(idx as int)[i] == all[i as int]);
                        }
                    }
                }
                attempts = attempts.push((operated(attempt), now@));
                assert(self.timers() =~= old(self).timers().add(
                    new_timers(all.take(idx + 1), attempts),
                ));
                assert(entries@ =~= old(entries)@ + completions(all.take(idx + 1), attempts));
                assert(exists|o: &mut O|
                    {
                        &&& *o == taken.code()
                        &&& *final(o) == *final(taken.op)
                        &&& #[trigger] call_ensures(O::operate, (o, user_data), attempt)
                    });
                assert forall|i: int| #[trigger] place(i) && i < idx + 1 implies exists|
                    o: &mut O,
                    a: Poll<IoResult<usize>>,
                |
                    {
                        &&& *o == queue[i].code()
                        &&& *final(o) == *final(queue[i].op)
                        &&& operated(a) == attempts[i].0
                        &&& #[trigger] call_ensures(O::operate, (o, queue[i].user_data), a)
                    } by {
                    if i < idx {
                        assert(attempts[i] == attempts_before[i]);
                    } else {
                        assert(attempts[i].0 == operated(attempt));
                    }
                }
            }
            idx += 1;
        }
        self.squeue_drained_till = self.entries;
        proof {
            assert(all.take(idx as int) =~= all);
            assert(made_on_time(old(self).clock(), attempts));
        }
    }

    /// Submits the queued operations and says what to ask the completion port for. The cancelled operations are
    /// output.
    ///
    /// If there are no operations completed and the timeout is not zero the request blocks until an operation
    /// completes. If no timeout is specified and no timer runs, it blocks forever. If the timeout is zero, or
    /// operations were output already, no waiting is performed.
    ///
    /// User defined data should be unique.
    pub fn submit(&mut self, timeout: Option<Duration>, entries: &mut Vec<Entry>) -> (request: PollRequest)
        requires
            old(self).wf(),
        ensures
            final(self).wf(),
            exists|attempts: Attempts, now: nat|
                {
                    &&& #[trigger] submitted(
                        *old(self),
                        *final(self),
                        old(entries)@,
                        final(entries)@,
                        timeout,
                        request,
                        attempts,
                        now,
                    )
                    &&& forall|i: int| #[trigger]
                        place(i) && i < attempts.len() ==> exists|op: &mut O, attempt: Poll<IoResult<usize>>|
                            {
                                &&& *op == old(self).squeue()[i].code()
                                &&& *final(op) == *final(old(self).squeue()[i].op)
                                &&& operated(attempt) == attempts[i].0
                                &&& #[trigger] call_ensures(
                                    O::operate,
                                    (op, old(self).squeue()[i].user_data),
                                    attempt,
                                )
                            }
                },
    {
        let output_from: usize = entries.len();
        report_cancelled(&mut self.cancelled, entries);
        let ghost reported = *self;
        let ghost reported_entries = entries@;
        self.operate_squeue(entries);
        let ghost attempts = choose|attempts: Attempts|
            {
                &&& #[trigger] made_on_time(reported.clock(), attempts)
                &&& attempts.len() == reported.squeue().len()
                &&& timers_have_delays(op_views(reported.squeue()), attempts)
                &&& self.timers() == reported.timers().add(
                    new_timers(op_views(reported.squeue()), attempts),
                )
                &&& entries@ == reported_entries + completions(op_views(reported.squeue()), attempts)
                &&& forall|i: int| #[trigger]
                    place(i) && i < attempts.len() ==> exists|op: &mut O, attempt: Poll<IoResult<usize>>|
                        {
                            &&& *op == reported.squeue()[i].code()
                            &&& *final(op) == *final(reported.squeue()[i].op)
                            &&& operated(attempt) == attempts[i].0
                            &&& #[trigger] call_ensures(
                                O::operate,
                                (op, reported.squeue()[i].user_data),
                                attempt,
                            )
                        }
            };
        let has_output = entries.len() > output_from;
        proof {
            assert(made_on_time(reported.clock(), attempts));
            assert(entries@ =~= old(entries)@ + submission_output(*old(self), attempts));
        }
        let limit: Option<Duration> = if has_output {
            Some(Duration::zero())
        } else {
            timeout
        };
        let wait = self.timers.till_next_timer_or_timeout(limit);
        let request = self.poll_request(wait);
        proof {
            assert(self.timers() == self.timers@ && self.clock() == self.timers.clock());
            let now = choose|now: nat|
                self.shows(now) && #[trigger] cut_short(self.timers@, now, limit, wait);
            assert(self.shows(now) && cut_short(self.timers(), now, limit, wait));
            assert(submitted(
                *old(self),
                *self,
                old(entries)@,
                entries@,
                timeout,
                request,
                attempts,
                now,
            ));
        }
        request
    }

    /// Takes the answer of the completion port: reports the timers that have fallen due, and then the
    /// operations that have completed. A timeout is expected and no failure.
    pub fn complete_submit(
        &mut self,
        answer: Result<Vec<Completion>, CallError>,
        entries: &mut Vec<Entry>,
    ) -> (r: IoResult<()>)
        requires
            old(self).wf(),
        ensures
            final(self).wf(),
            final(self).limit() == old(self).limit(),
            final(self).squeue() == old(self).squeue(),
            final(self).clock() == old(self).clock(),
            final(self).cancelled() == old(self).cancelled(),
            r == match answer {
                Ok(_) => Ok(()),
                Err(error) => if error.kind == ErrorKind::TimedOut {
                    Ok(())
                } else {
                    Err(IoError::Os(error.code))
                },
            },
            exists|now: nat, due: Seq<TimerView>| #[trigger]
                expires(old(self).timers(), now, due, final(self).timers()) && old(self).shows(now)
                    && final(entries)@ == old(entries)@ + timer_entries(due) + match answer {
                    Ok(completions) => completion_entries(completions@),
                    Err(_) => Seq::empty(),
                },
    {
        let _ = self.timers.expire_timers(entries);
        let ghost (now, due) = choose|now: nat, due: Seq<TimerView>| #[trigger]
            expires(old(self).timers(), now, due, self.timers()) && old(self).shows(now) && entries@
                == old(entries)@ + timer_entries(due);
        let ghost expired = entries@;
        proof {
            assert(expires(old(self).timers(), now, due, self.timers()));
            assert(expired + Seq::<Entry>::empty() =~= expired);
        }
        match answer {
            Ok(completions) => {
                let mut i: usize = 0;
                while i < completions.len()
                    invariant
                        i <= completions.len(),
                        entries@ == expired + completion_entries(completions@.take(i as int)),
                    decreases completions.len() - i,
                {
                    entries.push(Self::create_entry(completions[i]));
                    proof {
                        assert(completions@.take(i + 1) =~= completions@.take(i as int).push(
                            completions@[i as int],
                        ));
                        assert(entries@ =~= expired + completion_entries(completions@.take(i + 1)));
                    }
                    i += 1;
                }
                proof {
                    assert(completions@.take(i as int) =~= completions@);
                }
                Ok(())
            },
            Err(error) => {
                // timeouts are expected
                if error.kind == ErrorKind::TimedOut {
                    Ok(())
                } else {
                    Err(IoError::Os(error.code))
                }
            },
        }
    }
}

impl<'arena, O: OpCode> CompleteIo<'arena, O> for Driver<'arena, O> {
    open spec fn inv(&self) -> bool {
        self.wf()
    }

    open spec fn capacity(&self) -> nat {
        self.limit()
    }

    open spec fn queued(&self) -> Seq<u64> {
        user_datas(self.squeue())
    }

    open spec fn accepts(_code: O) -> bool {
        true
    }

    open spec fn owes(&self, user_data: usize) -> bool {
        ||| has_key(self.squeue(), user_data)
        ||| timer_runs(self.timers(), user_data)
        ||| self.cancelled().contains(user_data)
    }

    fn try_cancel(&mut self, user_data: usize) -> (r: Result<(), ()>)
        ensures
            final(self).timers() == old(self).timers(),
            final(self).clock() == old(self).clock(),
            r is Ok ==> {
                &&& final(self).squeue() == without(old(self).squeue(), user_data)
                &&& final(self).cancelled() == if has_key(old(self).squeue(), user_data) {
                    old(self).cancelled().push(user_data)
                } else {
                    old(self).cancelled()
                }
                &&& forall|i: int| #[trigger]
                    is_first(old(self).squeue(), user_data, i) ==> *final(old(self).squeue()[i].op)
                        == old(self).squeue()[i].code()
            },
    {
        if self.squeue.len() == self.entries {
            return Err(());
        }
        // we assume cancellations are rare
        if remove_first(&mut self.squeue, user_data) {
            self.cancelled.push(user_data);
        }
        proof {
            lemma_without(old(self).squeue(), user_data);
            let more = seq![user_data];
            lemma_cancelled_add(old(self).cancelled(), more);
            assert(old(self).cancelled().push(user_data) =~= old(self).cancelled() + more);
            assert(more[0] == user_data);
        }
        Ok(())
    }

    fn try_push(&mut self, op: Operation<'arena, O>) -> (r: Result<(), Operation<'arena, O>>)
        ensures
            final(self).timers() == old(self).timers(),
            final(self).clock() == old(self).clock(),
            final(self).cancelled() == old(self).cancelled(),
            r is Ok ==> {
                &&& final(self).squeue().len() == old(self).squeue().len() + 1
                &&& final(self).squeue().drop_last() == old(self).squeue()
                &&& final(self).squeue().last().code() == op.code()
                &&& final(self).squeue().last().user_data == op.user_data
                &&& *final(final(self).squeue().last().op) == *final(op.op)
            },
    {
        if self.capacity_left() > 0 {
            let object = OpObject::from(op);
            self.squeue.push_back(object);
            proof {
                assert(user_datas(self.squeue()) =~= user_datas(old(self).squeue()).push(
                    op.user_data as u64,
                ));
                assert(self.squeue() =~= old(self).squeue().push(object));
                assert(self.squeue().drop_last() =~= old(self).squeue());
                lemma_has_key_push(old(self).squeue(), object);
            }
            Ok(())
        } else {
            Err(op)
        }
    }

    fn try_push_dyn(&mut self, op: OpObject<'arena, O>) -> (r: Result<(), OpObject<'arena, O>>)
        ensures
            final(self).timers() == old(self).timers(),
            final(self).clock() == old(self).clock(),
            final(self).cancelled() == old(self).cancelled(),
            r is Ok ==> final(self).squeue() == old(self).squeue().push(op),
    {
        if self.capacity_left() > 0 {
            self.squeue.push_back(op);
            proof {
                assert(user_datas(self.squeue()) =~= user_datas(old(self).squeue()).push(
                    op.user_data as u64,
                ));
                lemma_has_key_push(old(self).squeue(), op);
            }
            Ok(())
        } else {
            Err(op)
        }
    }

    fn push_queue(&mut self, ops_queue: &mut VecDeque<OpObject<'arena, O>>)
        ensures
            final(self).timers() == old(self).timers(),
            final(self).clock() == old(self).clock(),
            final(self).cancelled() == old(self).cancelled(),
            final(self).squeue() + final(ops_queue)@ == old(self).squeue() + old(ops_queue)@,
    {
        let left: usize = self.capacity_left();
        let till: usize = if left < ops_queue.len() {
            left
        } else {
            ops_queue.len()
        };
        move_front(ops_queue, &mut self.squeue, till);
        proof {
            assert(user_datas(self.squeue()) =~= user_datas(old(self).squeue()) + user_datas(
                old(ops_queue)@.take(till as int),
            ));
            assert(self.squeue() + ops_queue@ =~= old(self).squeue() + old(ops_queue)@);
            lemma_has_key_add(old(self).squeue(), old(ops_queue)@.take(till as int));
        }
    }

    fn capacity_left(&self) -> (left: usize) {
        if self.squeue_drained_till > self.squeue.len() {
            self.squeue_drained_till - self.squeue.len()
        } else {
            0
        }
    }
}

} // verus!
