//! The driver for systems that report readiness through a kernel event queue.
//!
//! An operation is attempted as soon as it is submitted. What would block is kept back and attempted again
//! once the kernel reports its file descriptor ready.
pub mod laws;
pub mod model;
pub mod op;
pub mod op_laws;

use vstd::multiset::Multiset;
use vstd::prelude::*;

use std::collections::VecDeque;

use bit_set::BitSet;

use crate::driver::attempts::{
    cancellations, cancelled_entries, completions, keys, lemma_attempts_push, lemma_cancelled_add,
    lemma_still_pending_push, made_on_time, new_timers, place, report_cancelled, still_pending,
    timers_have_delays, wants_timer, Attempts, Operated, TIMER_PENDING,
};
use crate::driver::bits::{bits, bits_clear, bits_contains, bits_insert, bits_with_capacity};
use crate::driver::kqueue::laws::cancellation_taken;
use crate::driver::kqueue::model::{
    change_list, completed_places, descriptors, filters, first_uses, kept, lemma_descriptors_push,
    lemma_ready_push, lemma_requeued_map, lemma_scanned_step, op_views, ready_entries, ready_entry,
    ready_stages, reports_error_code, requeued, scanned,
};
use crate::driver::queue::{
    get_mut, is_first, lemma_has_key_add, lemma_has_key_push, lemma_without, move_front, remove_first,
};
use crate::driver::time::{cut_short, expires, timer_entries, timer_runs, TimerView, TimerWheel};
use crate::driver::unix::{IntoFdOrFixed, RawFd};
use crate::driver::{codes, has_key, user_datas, CompleteIo, Entry, OpObject, Operation};
use crate::error::{IoError, IoResult};
use crate::time::{Clock, Duration, Moment};

verus! {

/// Attached file descriptor.
#[derive(Clone, Copy, Debug, PartialEq, Eq, Structural)]
pub struct Fd {
    /// The descriptor as the system numbers it.
    pub raw_fd: RawFd,
}

impl Fd {
    /// Wraps a descriptor.
    pub fn from_raw(raw_fd: RawFd) -> (fd: Self)
        ensures
            fd == (Fd { raw_fd }),
    {
        Fd { raw_fd }
    }

    /// The descriptor as the system numbers it.
    pub fn as_raw_fd(&self) -> (raw_fd: RawFd)
        ensures
            raw_fd == self.raw_fd,
    {
        self.raw_fd
    }
}

impl IntoFdOrFixed for Fd {
    type Target = Fd;

    open spec fn target(self) -> Fd {
        self
    }

    fn into(self) -> (target: Fd) {
        self
    }
}

/// Fixed fd is aliased to attached fd.
pub type FixedFd = Fd;

/// FdOrFixed is aliased to attached fd.
pub type FdOrFixed = Fd;

/// Invalid file descriptor value could be used as an initial value of uninitialized file descriptor.
pub const INVALID_FD: RawFd = -1;

/// What a kernel event is about.
#[derive(Clone, Copy, Debug, PartialEq, Eq, Structural)]
pub enum EventFilter {
    /// The descriptor can be read from.
    Read(RawFd),
    /// The descriptor can be written to.
    Write(RawFd),
}

impl EventFilter {
    /// The descriptor.
    pub open spec fn raw_fd(self) -> RawFd {
        match self {
            EventFilter::Read(raw_fd) => raw_fd,
            EventFilter::Write(raw_fd) => raw_fd,
        }
    }
}

/// What the kernel is to do with an event, or says of it.
#[derive(Clone, Copy, Debug, PartialEq, Eq, Structural)]
pub struct EventFlags {
    /// Add the event to the queue.
    pub add: bool,
    /// Report the event when it happens.
    pub enable: bool,
    /// Forget the event once it was reported.
    pub oneshot: bool,
    /// The event could not be watched; its data is the error code.
    pub error: bool,
}

/// A kernel event, as it is asked for and as it is reported.
#[derive(Clone, Copy, Debug, PartialEq, Eq, Structural)]
pub struct Event {
    /// What the event is about.
    pub filter: EventFilter,
    /// What is to be done with it, or what is said of it.
    pub flags: EventFlags,
    /// What the kernel gives back with the event: the place of the operation in the pending queue.
    pub udata: usize,
    /// What the kernel says of the event.
    pub data: i64,
}

/// The request to report, once, that a descriptor is ready.
pub open spec fn watch_once(filter: EventFilter, udata: usize) -> Event {
    Event {
        filter,
        flags: EventFlags { add: true, enable: true, oneshot: true, error: false },
        udata,
        data: 0,
    }
}

impl Event {
    /// Asks to report, once, that a descriptor is ready.
    pub fn new(filter: EventFilter, udata: usize) -> (event: Self)
        ensures
            event == watch_once(filter, udata),
    {
        Event {
            filter,
            flags: EventFlags { add: true, enable: true, oneshot: true, error: false },
            udata,
            data: 0,
        }
    }
}

/// There is something to wait for, about a descriptor that can exist.
pub open spec fn can_wait_for(filter: Option<EventFilter>) -> bool {
    filter is Some && filter->0.raw_fd() >= 0
}

/// Abstraction of operations.
pub trait OpCode: Sized {
    /// What the operation waits for when it would block; nothing if it completes in one shot.
    open spec fn filter(&self) -> Option<EventFilter> {
        arbitrary()
    }

    /// The delay that the operation is about, if it is a timer.
    open spec fn delay(&self) -> Option<Duration> {
        arbitrary()
    }

    /// Performs the operation before checking for readiness, and returns a result if the operation is
    /// completed instead of rescheduled. What would block waits for a descriptor that can exist.
    fn operate(&mut self) -> (operated: Operated)
        ensures
            final(self).filter() == old(self).filter(),
            final(self).delay() == old(self).delay(),
            operated is None ==> can_wait_for(old(self).filter()),
            wants_timer(operated) ==> old(self).delay() is Some,
    ;

    /// Constructs the kernel event for the operation with the provided user data.
    fn as_event(&self, user_data: usize) -> (event: Event)
        requires
            self.filter() is Some,
        ensures
            event == watch_once(self.filter()->0, user_data),
    ;

    /// The delay. Only timers have one.
    fn timer_delay(&self) -> (delay: Duration)
        requires
            self.delay() is Some,
        ensures
            delay == self.delay()->0,
    ;
}

/// Low-level driver based on a kernel event queue.
pub struct Driver<'arena, O: OpCode> {
    /// How many operations the submission queue takes.
    entries: usize,
    /// Submission queue.
    squeue: VecDeque<OpObject<'arena, O>>,
    /// Pending io queue.
    io_pending: VecDeque<OpObject<'arena, O>>,
    /// The events to ask the kernel for.
    events_to_change: Vec<Event>,
    /// Places in the pending queue whose operations have completed.
    completed_events_indices: BitSet<u32>,
    /// Descriptors that a read is asked for already.
    to_change_fd_reads: BitSet<u32>,
    /// Descriptors that a write is asked for already.
    to_change_fd_writes: BitSet<u32>,
    timers: TimerWheel,
    /// Cancelled operations, to be output by the next submission.
    cancelled: Vec<usize>,
}

impl<'arena, O: OpCode> Driver<'arena, O> {
    /// The submission queue.
    pub closed spec fn squeue(&self) -> Seq<OpObject<'arena, O>> {
        self.squeue@
    }

    /// The pending queue.
    pub closed spec fn pending(&self) -> Seq<OpObject<'arena, O>> {
        self.io_pending@
    }

    /// The timers that run.
    pub closed spec fn timers(&self) -> Multiset<(usize, nat)> {
        self.timers@
    }

    /// The clock that the timers run on.
    pub closed spec fn clock(&self) -> Clock {
        self.timers.clock()
    }

    /// The clock can show the time `now`.
    pub open spec fn shows(&self, now: nat) -> bool {
        self.clock().shows(now)
    }

    /// The user data of the cancelled operations that the next submission outputs.
    pub closed spec fn cancelled(&self) -> Seq<usize> {
        self.cancelled@
    }

    /// The events to ask the kernel for.
    pub closed spec fn changes(&self) -> Seq<Event> {
        self.events_to_change@
    }

    /// How many operations the submission queue takes, and how many events are asked for at a time.
    pub closed spec fn limit(&self) -> nat {
        self.entries as nat
    }

    /// What holds of the driver between two calls.
    pub closed spec fn wf(&self) -> bool {
        &&& self.squeue@.len() <= self.entries
        &&& self.timers.wf()
        &&& forall|i: int|
            0 <= i < self.io_pending@.len() ==> can_wait_for(
                (#[trigger] self.io_pending@[i]).code().filter(),
            )
    }

    /// Creates a driver with 1024 entries.
    pub fn new() -> (driver: Self)
        ensures
            driver.wf(),
            driver.limit() == 1024,
            driver.squeue().len() == 0,
            driver.pending().len() == 0,
            driver.timers() == Multiset::<(usize, nat)>::empty(),
            driver.clock().is_started(),
            driver.cancelled().len() == 0,
    {
        Self::with(1024, 0)
    }

    /// Creates a driver with specified entries.
    ///
    /// File registration is implemented as dummy operation.
    pub fn with(entries: u32, files_to_register: u32) -> (driver: Self)
        ensures
            driver.wf(),
            driver.limit() == entries,
            driver.squeue().len() == 0,
            driver.pending().len() == 0,
            driver.timers() == Multiset::<(usize, nat)>::empty(),
            driver.clock().is_started(),
            driver.cancelled().len() == 0,
    {
        let entries: usize = entries as usize;
        let files: usize = files_to_register as usize;
        let initial_fd_capacity: usize = if entries < files {
            files
        } else {
            entries
        };
        Driver {
            entries,
            squeue: VecDeque::with_capacity(entries),
            io_pending: VecDeque::with_capacity(entries),
            events_to_change: Vec::with_capacity(entries),
            completed_events_indices: bits_with_capacity(entries),
            to_change_fd_reads: bits_with_capacity(initial_fd_capacity),
            to_change_fd_writes: bits_with_capacity(initial_fd_capacity),
            timers: TimerWheel::with_capacity(16),
            cancelled: Vec::new(),
        }
    }

    /// Attaches an fd to the driver. There is nothing to be done for it.
    pub fn attach(&mut self, fd: RawFd) -> (r: IoResult<Fd>)
        ensures
            *final(self) == *old(self),
            r == Ok::<Fd, IoError>(Fd { raw_fd: fd }),
    {
        Ok(Fd::from_raw(fd))
    }

    /// Registers an fd. A fixed fd is an attached fd, whatever its id.
    pub fn register_fd(&mut self, fd: RawFd, _id: u32) -> (r: IoResult<FixedFd>)
        ensures
            *final(self) == *old(self),
            r == Ok::<FixedFd, IoError>(Fd { raw_fd: fd }),
    {
        Ok(Fd::from_raw(fd))
    }

    /// Unregisters a fixed fd. There is nothing to be done for it.
    pub fn unregister_fd(&mut self, _fixed_fd: FixedFd) -> (r: IoResult<()>)
        ensures
            *final(self) == *old(self),
            r is Ok,
    {
        Ok(())
    }
}

/// What the attempts at the queued operations make of a driver and of the entries, where they left the
/// operations as `left`.
pub open spec fn squeue_operated<'arena, O: OpCode>(
    before: Driver<'arena, O>,
    after: Driver<'arena, O>,
    entries_before: Seq<Entry>,
    entries_after: Seq<Entry>,
    attempts: Attempts,
    left: Seq<O>,
) -> bool {
    let ops = op_views(before.squeue());
    &&& attempts.len() == ops.len()
    &&& left.len() == ops.len()
    &&& made_on_time(before.clock(), attempts)
    &&& timers_have_delays(ops, attempts)
    &&& after.squeue().len() == 0
    &&& codes(after.pending()) == codes(before.pending()) + still_pending(left, attempts)
    &&& op_views(after.pending()) == op_views(before.pending()) + still_pending(ops, attempts)
    &&& after.timers() == before.timers().add(new_timers(ops, attempts))
    &&& entries_after == entries_before + completions(ops, attempts)
    &&& after.limit() == before.limit()
    &&& after.clock() == before.clock()
    &&& after.cancelled() == before.cancelled()
}

impl<'arena, O: OpCode> Driver<'arena, O> {
    /// Files an operation by what the attempt at it, made at `now`, came to: it is kept back if it would
    /// block, its timer is set if it asks for one, and otherwise its entry is returned.
    pub fn settle(&mut self, op: OpObject<'arena, O>, operated: Operated, now: Moment) -> (entry: Option<
        Entry,
    >)
        requires
            old(self).wf(),
            operated is None ==> can_wait_for(op.code().filter()),
            wants_timer(operated) ==> op.code().delay() is Some,
        ensures
            final(self).wf(),
            final(self).limit() == old(self).limit(),
            final(self).clock() == old(self).clock(),
            final(self).cancelled() == old(self).cancelled(),
            final(self).squeue() == old(self).squeue(),
            final(self).pending() == if operated is None {
                old(self).pending().push(op)
            } else {
                old(self).pending()
            },
            final(self).timers() == if wants_timer(operated) {
                old(self).timers().insert(
                    (op.user_data, crate::time::after(now@, op.code().delay()->0@)),
                )
            } else {
                old(self).timers()
            },
            entry == match operated {
                Some(result) if !wants_timer(operated) => Some(
                    Entry { user_data: op.user_data, result },
                ),
                _ => None,
            },
            operated is Some ==> *final(op.op) == op.code(),
    {
        let user_data: usize = op.user_data();
        match operated {
            // no result => io is pending
            None => {
                self.io_pending.push_back(op);
                None
            },
            Some(Ok(transferred)) => {
                if transferred == TIMER_PENDING {
                    let delay = op.opcode_ref().timer_delay();
                    self.timers.insert_at(now, user_data, delay);
                    None
                } else {
                    Some(Entry::new(user_data, Ok(transferred)))
                }
            },
            Some(Err(error)) => Some(Entry::new(user_data, Err(error))),
        }
    }

    /// Operates the pushed operations. Each attempt is what [`OpCode::operate`] of that operation came to, and
    /// leaves the operation as that call left it.
    fn operate_squeue(&mut self, entries: &mut Vec<Entry>)
        requires
            old(self).wf(),
        ensures
            final(self).wf(),
            exists|attempts: Attempts, left: Seq<O>|
                {
                    &&& #[trigger] squeue_operated(
                        *old(self),
                        *final(self),
                        old(entries)@,
                        final(entries)@,
                        attempts,
                        left,
                    )
                    &&& forall|i: int| #[trigger]
                        place(i) && i < attempts.len() ==> exists|op: &mut O|
                            {
                                &&& *op == old(self).squeue()[i].code()
                                &&& *final(op) == left[i]
                                &&& attempts[i].0 is Some ==> *final(old(self).squeue()[i].op)
                                    == left[i]
                                &&& #[trigger] call_ensures(O::operate, (op,), attempts[i].0)
                            }
                },
    {
        let ghost queue = self.squeue();
        let ghost mut left: Seq<O> = Seq::empty();
        let ghost all = op_views(self.squeue());
        let ghost mut done: int = 0;
        let ghost mut attempts: Attempts = Seq::empty();
        proof {
            assert(all.skip(0) =~= all);
            assert(all.take(0) =~= Seq::empty());
            assert(op_views(self.pending()) + still_pending(all.take(0), attempts) =~= op_views(
                self.pending(),
            ));
            assert(self.timers().add(new_timers(all.take(0), attempts)) =~= self.timers());
            assert(entries@ + completions(all.take(0), attempts) =~= entries@);
            assert(queue.skip(0) =~= queue);
            assert(codes(self.pending()) + still_pending(left, attempts) =~= codes(self.pending()));
        }
        while self.squeue.len() > 0
            invariant
                self.wf(),
                queue == old(self).squeue(),
                self.squeue() == queue.skip(done),
                queue.len() == all.len(),
                left.len() == done,
                made_on_time(self.clock(), attempts),
                timers_have_delays(all.take(done), attempts),
                codes(self.pending()) == codes(old(self).pending()) + still_pending(left, attempts),
                forall|i: int| #[trigger]
                    place(i) && i < done ==> exists|op: &mut O|
                        {
                            &&& *op == queue[i].code()
                            &&& *final(op) == left[i]
                            &&& attempts[i].0 is Some ==> *final(queue[i].op) == left[i]
                            &&& #[trigger] call_ensures(O::operate, (op,), attempts[i].0)
                        },
                self.limit() == old(self).limit(),
                self.clock() == old(self).clock(),
                self.cancelled() == old(self).cancelled(),
                all == op_views(old(self).squeue()),
                0 <= done <= all.len(),
                attempts.len() == done,
                op_views(self.squeue()) == all.skip(done),
                op_views(self.pending()) == op_views(old(self).pending()) + still_pending(
                    all.take(done),
                    attempts,
                ),
                self.timers() == old(self).timers().add(new_timers(all.take(done), attempts)),
                entries@ == old(entries)@ + completions(all.take(done), attempts),
            decreases self.squeue@.len(),
        {
            let ghost before = *self;
            let mut op = self.squeue.pop_front().unwrap();
            let ghost view = (op.user_data, op.code().delay());
            let ghost code = op.code();
            let ghost (left_before, attempts_before) = (left, attempts);
            let operated = op.opcode().operate();
            assert(exists|o: &mut O|
                {
                    &&& *o == code
                    &&& *final(o) == op.code()
                    &&& #[trigger] call_ensures(O::operate, (o,), operated)
                });
            // only a timer has to know when it starts
            let now = if matches!(operated, Some(Ok(TIMER_PENDING))) {
                self.timers.now()
            } else {
                Moment::since_start(Duration::zero())
            };
            proof {
                assert(op_views(before.squeue()).len() == before.squeue().len());
                assert(op_views(before.squeue())[0] == view);
                assert(all.skip(done)[0] == all[done]);
                assert(op_views(self.squeue()) =~= op_views(before.squeue()).skip(1));
                assert(all.skip(done).skip(1) =~= all.skip(done + 1));
                assert((op.user_data, op.code().delay()) == view);
                assert(op_views(self.pending().push(op)) =~= op_views(self.pending()).push(view));
                assert(codes(self.pending().push(op)) =~= codes(self.pending()).push(op.code()));
                assert(code == queue[done].code());
                assert(self.squeue() =~= queue.skip(done + 1));
            }
            let ghost op_left = op.code();
            match self.settle(op, operated, now) {
                Some(entry) => {
                    entries.push(entry);
                },
                None => {},
            }
            proof {
                lemma_attempts_push(all.take(done), attempts, view, (operated, now@));
                assert(all.take(done + 1) =~= all.take(done).push(view));
                lemma_still_pending_push(left, attempts, op_left, (operated, now@));
                assert(timers_have_delays(all.take(done + 1), attempts.push((operated, now@)))) by {
                    let next = attempts.push((operated, now@));
                    assert forall|i: int|
                        0 <= i < done + 1 && wants_timer((#[trigger] next[i]).0) implies all.take(
                        done + 1,
                    )[i].1 is Some by {
                        if i < done {
                            assert(next[i] == attempts[i]);
                            assert(all.take(done)[i] == all[i]);
                        }
                    }
                }
                attempts = attempts.push((operated, now@));
                left = left.push(op_left);
                assert forall|i: int| #[trigger] place(i) && i < done + 1 implies exists|o: &mut O|
                    {
                        &&& *o == queue[i].code()
                        &&& *final(o) == left[i]
                        &&& attempts[i].0 is Some ==> *final(queue[i].op) == left[i]
                        &&& #[trigger] call_ensures(O::operate, (o,), attempts[i].0)
                    } by {
                    if i < done {
                        assert(left[i] == left_before[i] && attempts[i] == attempts_before[i]);
                    } else {
                        assert(left[i] == op_left && attempts[i].0 == operated);
                    }
                }
                done = done + 1;
                assert(codes(self.pending()) =~= codes(old(self).pending()) + still_pending(
                    left,
                    attempts,
                ));
                assert(op_views(self.pending()) =~= op_views(old(self).pending()) + still_pending(
                    all.take(done),
                    attempts,
                ));
                assert(self.timers() =~= old(self).timers().add(
                    new_timers(all.take(done), attempts),
                ));
                assert(entries@ =~= old(entries)@ + completions(all.take(done), attempts));
            }
        }
        proof {
            assert(all.take(done) =~= all);
            assert(squeue_operated(*old(self), *self, old(entries)@, entries@, attempts, left));
        }
    }
}

impl<'arena, O: OpCode> Driver<'arena, O> {
    /// Gathers the events to ask the kernel for: one for each direction of each descriptor that a pending
    /// operation waits for, as many as there are entries. The same io operations with the same fd are
    /// postponed to next submissions.
    ///
    /// Returns the place in the pending queue that the scan stopped at: the first that it did not look at.
    pub fn gather_changes(&mut self) -> (scanned_till: usize)
        requires
            old(self).wf(),
        ensures
            final(self).wf(),
            final(self).limit() == old(self).limit(),
            final(self).clock() == old(self).clock(),
            final(self).cancelled() == old(self).cancelled(),
            final(self).squeue() == old(self).squeue(),
            final(self).pending() == old(self).pending(),
            final(self).timers() == old(self).timers(),
            final(self).changes() == change_list(filters(old(self).pending()), old(self).limit()),
            scanned_till == scanned(filters(old(self).pending()), old(self).limit()),
            scanned_till <= old(self).pending().len(),
    {
        self.events_to_change.clear();
        bits_clear(&mut self.to_change_fd_reads);
        bits_clear(&mut self.to_change_fd_writes);
        let max_events_to_change: usize = self.entries;
        let ghost waits = filters(self.pending());
        let mut index: usize = 0;
        proof {
            assert(waits.take(0) =~= Seq::empty());
            assert(descriptors(waits.take(0), true) =~= Set::empty());
            assert(descriptors(waits.take(0), false) =~= Set::empty());
            assert(self.changes() =~= first_uses(waits.take(0)).map_values(
                |i: int| watch_once(waits[i], i as usize),
            ));
        }
        loop
            invariant
                self.wf(),
                self.limit() == old(self).limit(),
                self.clock() == old(self).clock(),
                self.cancelled() == old(self).cancelled(),
                self.limit() == max_events_to_change,
                self.squeue() == old(self).squeue(),
                self.pending() == old(self).pending(),
                self.timers() == old(self).timers(),
                waits == filters(self.pending()),
                index <= waits.len(),
                scanned(waits.take(index as int), self.limit()) == index,
                self.changes() == first_uses(waits.take(index as int)).map_values(
                    |i: int| watch_once(waits[i], i as usize),
                ),
                bits(self.to_change_fd_reads) == descriptors(waits.take(index as int), true),
                bits(self.to_change_fd_writes) == descriptors(waits.take(index as int), false),
            ensures
                self.changes() == change_list(waits, self.limit()),
                index == scanned(waits, self.limit()),
                index <= waits.len(),
            decreases self.io_pending@.len() - index,
        {
            if index >= self.io_pending.len() {
                proof {
                    assert(waits.take(index as int) =~= waits);
                }
                break;
            }
            proof {
                lemma_scanned_step(waits, self.limit(), index as int);
            }
            // iterate till hit events_to_change capacity
            if self.events_to_change.len() >= max_events_to_change {
                break;
            }
            let event = self.io_pending[index].opcode_ref().as_event(index);
            proof {
                assert(waits[index as int] == event.filter);
                assert(waits.take(index + 1) =~= waits.take(index as int).push(event.filter));
                assert(waits.take(index + 1).drop_last() =~= waits.take(index as int));
            }
            let fd_absent = match event.filter {
                EventFilter::Read(raw_fd) => bits_insert(
                    &mut self.to_change_fd_reads,
                    raw_fd as usize,
                ),
                EventFilter::Write(raw_fd) => bits_insert(
                    &mut self.to_change_fd_writes,
                    raw_fd as usize,
                ),
            };
            if fd_absent {
                self.events_to_change.push(event);
            }
            // else the operation is postponed
            proof {
                lemma_descriptors_push(waits.take(index as int), event.filter);
                assert(self.changes() =~= first_uses(waits.take(index + 1)).map_values(
                    |i: int| watch_once(waits[i], i as usize),
                ));
            }
            index += 1;
        }
        index
    }
}

/// A wait for readiness: how long the kernel may take at most, if there is a limit, and the place in the
/// pending queue up to which its answer concerns the operations.
#[derive(Clone, Copy, Debug)]
pub struct Wait {
    /// The place that the scan of the pending queue stopped at.
    pub scanned_till: usize,
    /// How long to wait; as long as it takes if there is no limit.
    pub timeout: Option<Duration>,
}

/// What the events that the kernel reported, and the attempts made on them, make of a driver and of the
/// entries; `stages` is how the pending operations stand before each of the events and behind the last.
pub open spec fn ready_operated<'arena, O: OpCode>(
    before: Driver<'arena, O>,
    after: Driver<'arena, O>,
    entries_before: Seq<Entry>,
    entries_after: Seq<Entry>,
    events: Seq<Event>,
    scanned_till: nat,
    operated: Seq<Operated>,
    stages: Seq<Seq<O>>,
) -> bool {
    let done = completed_places(events, operated);
    &&& operated.len() == events.len()
    &&& ready_stages(events, stages)
    &&& stages[0] == codes(before.pending())
    &&& codes(after.pending()) == requeued(stages.last(), scanned_till, done)
    &&& op_views(after.pending()) == requeued(op_views(before.pending()), scanned_till, done)
    &&& filters(after.pending()) == requeued(filters(before.pending()), scanned_till, done)
    &&& entries_after == entries_before + ready_entries(
        keys(op_views(before.pending())),
        events,
        operated,
    )
    &&& after.squeue() == before.squeue()
    &&& after.timers() == before.timers()
    &&& after.limit() == before.limit()
    &&& after.clock() == before.clock()
    &&& after.cancelled() == before.cancelled()
}

/// The kernel reports only events of operations that are pending, and failures by error codes.
pub open spec fn events_of_pending<'arena, O: OpCode>(
    pending: Seq<OpObject<'arena, O>>,
    events: Seq<Event>,
) -> bool {
    forall|i: int|
        0 <= i < events.len() ==> (#[trigger] events[i]).udata < pending.len() && reports_error_code(
            events[i],
        )
}

impl<'arena, O: OpCode> Driver<'arena, O> {
    /// The places in the pending queue whose operations have completed since the last requeueing began.
    pub closed spec fn completed(&self) -> Set<usize> {
        bits(self.completed_events_indices)
    }

    /// The events to ask the kernel for.
    pub fn events_to_change(&self) -> (events: &Vec<Event>)
        ensures
            events@ == self.changes(),
    {
        &self.events_to_change
    }

    /// Prepares a wait for readiness: gathers the events to ask the kernel for, and cuts the timeout short
    /// if a timer falls due earlier.
    pub fn check_readiness(&mut self, timeout: Option<Duration>) -> (wait: Wait)
        requires
            old(self).wf(),
        ensures
            final(self).wf(),
            final(self).limit() == old(self).limit(),
            final(self).clock() == old(self).clock(),
            final(self).cancelled() == old(self).cancelled(),
            final(self).squeue() == old(self).squeue(),
            final(self).pending() == old(self).pending(),
            final(self).timers() == old(self).timers(),
            final(self).changes() == change_list(filters(old(self).pending()), old(self).limit()),
            wait.scanned_till == scanned(filters(old(self).pending()), old(self).limit()),
            wait.scanned_till <= old(self).pending().len(),
            exists|now: nat|
                old(self).shows(now) && #[trigger] cut_short(
                    old(self).timers(),
                    now,
                    timeout,
                    wait.timeout,
                ),
    {
        let scanned_till: usize = self.gather_changes();
        let timeout = self.timers.till_next_timer_or_timeout(timeout);
        assert(self.timers() == self.timers@ && self.clock() == self.timers.clock());
        Wait { scanned_till, timeout }
    }

    /// Takes note of an event that the kernel reported for a pending operation, and of what the attempt made
    /// on it came to: the entry is returned if the operation has completed. The attempt is disregarded where
    /// the event reports a failure.
    pub fn settle_ready(&mut self, event: Event, operated: Operated) -> (entry: Option<Entry>)
        requires
            old(self).wf(),
            event.udata < old(self).pending().len(),
            reports_error_code(event),
        ensures
            final(self).wf(),
            final(self).limit() == old(self).limit(),
            final(self).clock() == old(self).clock(),
            final(self).cancelled() == old(self).cancelled(),
            final(self).squeue() == old(self).squeue(),
            final(self).pending() == old(self).pending(),
            final(self).timers() == old(self).timers(),
            final(self).completed() == if event.flags.error || operated is Some {
                old(self).completed().insert(event.udata)
            } else {
                old(self).completed()
            },
            entry == ready_entry(
                old(self).pending()[event.udata as int].user_data,
                event,
                operated,
            ),
    {
        let index: usize = event.udata;
        let user_data: usize = self.io_pending[index].user_data();
        assert(index < self.io_pending.len());
        if event.flags.error {
            bits_insert(&mut self.completed_events_indices, index);
            Some(Entry::new(user_data, Err(IoError::Os(event.data as i32))))
        } else {
            match operated {
                // still pending, will requeue later
                None => None,
                Some(result) => {
                    bits_insert(&mut self.completed_events_indices, index);
                    Some(Entry::new(user_data, result))
                },
            }
        }
    }

    /// Reschedules the operations in front of `scanned_till` that have not completed to the back of the
    /// pending queue, and drops the completed ones.
    pub fn requeue_pending(&mut self, scanned_till: usize)
        requires
            old(self).wf(),
            scanned_till <= old(self).pending().len(),
        ensures
            final(self).wf(),
            final(self).limit() == old(self).limit(),
            final(self).clock() == old(self).clock(),
            final(self).cancelled() == old(self).cancelled(),
            final(self).squeue() == old(self).squeue(),
            final(self).timers() == old(self).timers(),
            final(self).completed() == old(self).completed(),
            final(self).pending() == requeued(
                old(self).pending(),
                scanned_till as nat,
                old(self).completed(),
            ),
            forall|i: int| #[trigger]
                place(i) && i < scanned_till && old(self).completed().contains(i as usize)
                    ==> *final(old(self).pending()[i].op) == old(self).pending()[i].code(),
    {
        let ghost all = self.pending();
        let ghost done = self.completed();
        let mut index: usize = 0;
        proof {
            assert(requeued(all, 0, done) =~= all);
        }
        while index < scanned_till
            invariant
                index <= scanned_till <= all.len(),
                self.wf(),
                self.limit() == old(self).limit(),
                self.clock() == old(self).clock(),
                self.cancelled() == old(self).cancelled(),
                self.squeue() == old(self).squeue(),
                self.timers() == old(self).timers(),
                self.completed() == done,
                all == old(self).pending(),
                self.pending() == requeued(all, index as nat, done),
                forall|i: int| #[trigger]
                    place(i) && i < index && done.contains(i as usize) ==> *final(all[i].op)
                        == all[i].code(),
            decreases scanned_till - index,
        {
            let ghost before = self.pending();
            let op = self.io_pending.pop_front().unwrap();
            proof {
                assert(before[0] == all[index as int]);
                assert(before.skip(1) =~= all.skip(index + 1) + kept(all, index as nat, done));
            }
            if !bits_contains(&self.completed_events_indices, index) {
                self.io_pending.push_back(op);
            }
            // else operation is completed
            index += 1;
            proof {
                assert(self.pending() =~= requeued(all, index as nat, done));
            }
        }
    }

    /// Attempts the pending operations that the kernel reported ready, and requeues those that would still
    /// block. Each attempt is what [`OpCode::operate`] of the operation came to; where the event reports a
    /// failure, no attempt is made.
    pub fn operate_completed_and_requeue(
        &mut self,
        ready_events: &Vec<Event>,
        scanned_till: usize,
        entries: &mut Vec<Entry>,
    )
        requires
            old(self).wf(),
            events_of_pending(old(self).pending(), ready_events@),
            scanned_till <= old(self).pending().len(),
        ensures
            final(self).wf(),
            exists|operated: Seq<Operated>, stages: Seq<Seq<O>>|
                {
                    &&& #[trigger] ready_operated(
                        *old(self),
                        *final(self),
                        old(entries)@,
                        final(entries)@,
                        ready_events@,
                        scanned_till as nat,
                        operated,
                        stages,
                    )
                    &&& forall|i: int| #[trigger]
                        place(i) && i < operated.len() && !ready_events@[i].flags.error ==> exists|
                            op: &mut O,
                        |
                            {
                                &&& *op == stages[i][ready_events@[i].udata as int]
                                &&& *final(op) == stages[i + 1][ready_events@[i].udata as int]
                                &&& #[trigger] call_ensures(O::operate, (op,), operated[i])
                            }
                    &&& forall|i: int| #[trigger]
                        place(i) && i < scanned_till && completed_places(
                            ready_events@,
                            operated,
                        ).contains(i as usize) ==> *final(old(self).pending()[i].op) == stages.last()[i]
                },
    {
        bits_clear(&mut self.completed_events_indices);
        let ghost views = op_views(self.pending());
        let ghost waits = filters(self.pending());
        let ghost mut all_operated = Seq::<Operated>::empty();
        let ghost mut stages: Seq<Seq<O>> = seq![codes(self.pending())];
        let mut i: usize = 0;
        proof {
            assert(ready_events@.take(0) =~= Seq::empty());
            assert(entries@ + ready_entries(keys(views), ready_events@.take(0), all_operated)
                =~= entries@);
        }
        while i < ready_events.len()
            invariant
                i <= ready_events.len(),
                self.wf(),
                events_of_pending(self.pending(), ready_events@),
                self.limit() == old(self).limit(),
                self.clock() == old(self).clock(),
                self.cancelled() == old(self).cancelled(),
                self.squeue() == old(self).squeue(),
                self.timers() == old(self).timers(),
                self.pending().len() == old(self).pending().len(),
                views == op_views(old(self).pending()),
                op_views(self.pending()) == views,
                filters(self.pending()) == waits,
                all_operated.len() == i,
                ready_stages(ready_events@.take(i as int), stages),
                stages[0] == codes(old(self).pending()),
                stages.last() == codes(self.pending()),
                forall|k: int| #[trigger]
                    place(k) && k < self.pending().len() ==> *final(self.pending()[k].op)
                        == *final(old(self).pending()[k].op),
                forall|k: int| #[trigger]
                    place(k) && k < i && !ready_events@[k].flags.error ==> exists|op: &mut O|
                        {
                            &&& *op == stages[k][ready_events@[k].udata as int]
                            &&& *final(op) == stages[k + 1][ready_events@[k].udata as int]
                            &&& #[trigger] call_ensures(O::operate, (op,), all_operated[k])
                        },
                self.completed() == completed_places(ready_events@.take(i as int), all_operated),
                entries@ == old(entries)@ + ready_entries(
                    keys(views),
                    ready_events@.take(i as int),
                    all_operated,
                ),
            decreases ready_events.len() - i,
        {
            let event = ready_events[i];
            let mut operated: Operated = None;
            let ghost before = self.pending();
            let ghost at = event.udata as int;
            let ghost (stages_before, operated_before) = (stages, all_operated);
            if !event.flags.error {
                // operate the ready op
                match get_mut(&mut self.io_pending, event.udata) {
                    Some(op) => {
                        operated = op.opcode().operate();
                    },
                    None => {},
                }
                assert(exists|op: &mut O|
                    {
                        &&& *op == before[at].code()
                        &&& *final(op) == self.pending()[at].code()
                        &&& #[trigger] call_ensures(O::operate, (op,), operated)
                    });
            }
            proof {
                assert(self.pending().len() == before.len());
                assert(op_views(self.pending()) =~= op_views(before));
                assert(filters(self.pending()) =~= filters(before));
                assert(views[at].0 == before[at].user_data);
                assert(keys(views)[at] == before[at].user_data);
                stages = stages.push(codes(self.pending()));
                assert(codes(self.pending()) =~= codes(before).update(at, self.pending()[at].code()));
            }
            match self.settle_ready(event, operated) {
                Some(entry) => {
                    entries.push(entry);
                },
                None => {},
            }
            proof {
                lemma_ready_push(
                    keys(views),
                    ready_events@.take(i as int),
                    all_operated,
                    event,
                    operated,
                );
                assert(ready_events@.take(i + 1) =~= ready_events@.take(i as int).push(event));
                all_operated = all_operated.push(operated);
                assert(ready_stages(ready_events@.take(i + 1), stages)) by {
                    let events = ready_events@.take(i + 1);
                    assert forall|k: int|
                        #![trigger events[k]]
                        0 <= k < events.len() implies stages[k + 1] == if events[k].flags.error {
                        stages[k]
                    } else {
                        stages[k].update(
                            events[k].udata as int,
                            stages[k + 1][events[k].udata as int],
                        )
                    } by {
                        if k < i {
                            assert(events[k] == ready_events@.take(i as int)[k]);
                            assert(stages[k] == stages_before[k] && stages[k + 1] == stages_before[k
                                + 1]);
                        } else {
                            assert(stages[k] == codes(before));
                        }
                    }
                }
                assert forall|k: int| #[trigger]
                    place(k) && k < i + 1 && !ready_events@[k].flags.error implies exists|op: &mut O|
                    {
                        &&& *op == stages[k][ready_events@[k].udata as int]
                        &&& *final(op) == stages[k + 1][ready_events@[k].udata as int]
                        &&& #[trigger] call_ensures(O::operate, (op,), all_operated[k])
                    } by {
                    if k < i {
                        assert(stages[k] == stages_before[k] && stages[k + 1] == stages_before[k + 1]);
                        assert(all_operated[k] == operated_before[k]);
                    } else {
                        assert(all_operated[k] == operated);
                        assert(stages[k][at] == before[at].code());
                    }
                }
                assert(entries@ =~= old(entries)@ + ready_entries(
                    keys(views),
                    ready_events@.take(i + 1),
                    all_operated,
                ));
            }
            i += 1;
        }
        let ghost attempted = *self;
        self.requeue_pending(scanned_till);
        proof {
            assert(ready_events@.take(i as int) =~= ready_events@);
            let done = completed_places(ready_events@, all_operated);
            lemma_requeued_map(
                attempted.pending(),
                scanned_till as nat,
                done,
                |op: OpObject<'arena, O>| (op.user_data, op.code().delay()),
            );
            lemma_requeued_map(
                attempted.pending(),
                scanned_till as nat,
                done,
                |op: OpObject<'arena, O>| op.code().filter()->0,
            );
            lemma_requeued_map(
                attempted.pending(),
                scanned_till as nat,
                done,
                |op: OpObject<'arena, O>| op.code(),
            );
            assert(ready_operated(
                *old(self),
                *self,
                old(entries)@,
                entries@,
                ready_events@,
                scanned_till as nat,
                all_operated,
                stages,
            ));
        }
    }
}

/// What a submission leads to.
#[derive(Clone, Copy, Debug)]
pub enum Submitted {
    /// Operations were output and none is pending: there is nothing to ask the kernel for.
    Completed,
    /// The kernel is to be asked for the events in [`Driver::events_to_change`].
    Wait(Wait),
}

/// What a submission outputs of the queued operations and of those that were cancelled.
pub open spec fn submission_output<'arena, O: OpCode>(
    before: Driver<'arena, O>,
    attempts: Attempts,
) -> Seq<Entry> {
    cancelled_entries(before.cancelled()) + completions(op_views(before.squeue()), attempts)
}

/// What a submission makes of a driver and of the entries, where the attempts at the queued operations came to
/// `attempts` and left them as `left`, the clock showed `now`, and the timers that are reported are `due`.
pub open spec fn submitted<'arena, O: OpCode>(
    before: Driver<'arena, O>,
    after: Driver<'arena, O>,
    entries_before: Seq<Entry>,
    entries_after: Seq<Entry>,
    timeout: Option<Duration>,
    outcome: Submitted,
    attempts: Attempts,
    left: Seq<O>,
    now: nat,
    due: Seq<TimerView>,
) -> bool {
    let ops = op_views(before.squeue());
    let timers = before.timers().add(new_timers(ops, attempts));
    let output = submission_output(before, attempts);
    &&& attempts.len() == ops.len()
    &&& left.len() == ops.len()
    &&& made_on_time(before.clock(), attempts)
    &&& timers_have_delays(ops, attempts)
    &&& before.shows(now)
    &&& after.squeue().len() == 0
    &&& after.cancelled().len() == 0
    &&& op_views(after.pending()) == op_views(before.pending()) + still_pending(ops, attempts)
    &&& codes(after.pending()) == codes(before.pending()) + still_pending(left, attempts)
    &&& after.limit() == before.limit()
    &&& after.clock() == before.clock()
    &&& outcome is Completed <==> output.len() > 0 && after.pending().len() == 0
    &&& match outcome {
        Submitted::Completed => {
            &&& expires(timers, now, due, after.timers())
            &&& entries_after == entries_before + output + timer_entries(due)
        },
        Submitted::Wait(wait) => {
            &&& after.timers() == timers
            &&& entries_after == entries_before + output
            &&& after.changes() == change_list(filters(after.pending()), after.limit())
            &&& wait.scanned_till == scanned(filters(after.pending()), after.limit())
            &&& wait.scanned_till <= after.pending().len()
            &&& output.len() > 0 ==> wait.timeout is Some && wait.timeout->0@ == 0
            &&& output.len() == 0 ==> cut_short(timers, now, timeout, wait.timeout)
        },
    }
}

/// What the kernel's answer to a wait makes of a driver and of the entries, where the clock showed `now`, the
/// timers that are reported are `due`, the attempts at the ready operations came to `operated`, and the pending
/// operations went through `stages`.
pub open spec fn waited<'arena, O: OpCode>(
    before: Driver<'arena, O>,
    after: Driver<'arena, O>,
    entries_before: Seq<Entry>,
    entries_after: Seq<Entry>,
    scanned_till: nat,
    answer: IoResult<Vec<Event>>,
    now: nat,
    due: Seq<TimerView>,
    operated: Seq<Operated>,
    stages: Seq<Seq<O>>,
) -> bool {
    let entries = entries_before + timer_entries(due);
    &&& before.shows(now)
    &&& expires(before.timers(), now, due, after.timers())
    &&& after.squeue() == before.squeue()
    &&& after.limit() == before.limit()
    &&& after.clock() == before.clock()
    &&& after.cancelled() == before.cancelled()
    &&& match answer {
        Ok(events) => {
            let done = completed_places(events@, operated);
            &&& operated.len() == events@.len()
            &&& ready_stages(events@, stages)
            &&& stages[0] == codes(before.pending())
            &&& codes(after.pending()) == requeued(stages.last(), scanned_till, done)
            &&& op_views(after.pending()) == requeued(
                op_views(before.pending()),
                scanned_till,
                done,
            )
            &&& filters(after.pending()) == requeued(filters(before.pending()), scanned_till, done)
            &&& entries_after == entries + ready_entries(
                keys(op_views(before.pending())),
                events@,
                operated,
            )
        },
        Err(_) => {
            &&& operated.len() == 0
            &&& after.pending() == before.pending()
            &&& entries_after == entries
        },
    }
}

impl<'arena, O: OpCode> Driver<'arena, O> {
    /// Submits the queued operations: the cancelled operations are output, each of the queued ones is
    /// attempted, and a wait for the pending ones, with an optional timeout, is prepared.
    ///
    /// If there are no operations completed and the timeout is not zero the wait blocks. If no timeout is
    /// specified and no timer runs, it blocks forever. If the timeout is zero, or operations were output already,
    /// no waiting is performed: the kernel is asked only for what is ready at once, and not at all if nothing is
    /// pending.
    ///
    /// User defined data should be unique.
    pub fn submit(&mut self, timeout: Option<Duration>, entries: &mut Vec<Entry>) -> (outcome: Submitted)
        requires
            old(self).wf(),
        ensures
            final(self).wf(),
            exists|attempts: Attempts, left: Seq<O>, now: nat, due: Seq<TimerView>|
                {
                    &&& #[trigger] submitted(
                        *old(self),
                        *final(self),
                        old(entries)@,
                        final(entries)@,
                        timeout,
                        outcome,
                        attempts,
                        left,
                        now,
                        due,
                    )
                    &&& forall|i: int| #[trigger]
                        place(i) && i < attempts.len() ==> exists|op: &mut O|
                            {
                                &&& *op == old(self).squeue()[i].code()
                                &&& *final(op) == left[i]
                                &&& attempts[i].0 is Some ==> *final(old(self).squeue()[i].op)
                                    == left[i]
                                &&& #[trigger] call_ensures(O::operate, (op,), attempts[i].0)
                            }
                },
    {
        let output_from: usize = entries.len();
        report_cancelled(&mut self.cancelled, entries);
        let ghost reported = *self;
        let ghost reported_entries = entries@;
        self.operate_squeue(entries);
        let ghost operated = *self;
        let ghost (attempts, left) = choose|attempts: Attempts, left: Seq<O>|
            {
                &&& #[trigger] squeue_operated(
                    reported,
                    operated,
                    reported_entries,
                    entries@,
                    attempts,
                    left,
                )
                &&& forall|i: int| #[trigger]
                    place(i) && i < attempts.len() ==> exists|op: &mut O|
                        {
                            &&& *op == reported.squeue()[i].code()
                            &&& *final(op) == left[i]
                            &&& attempts[i].0 is Some ==> *final(reported.squeue()[i].op) == left[i]
                            &&& #[trigger] call_ensures(O::operate, (op,), attempts[i].0)
                        }
            };
        let has_output = entries.len() > output_from;
        proof {
            assert(squeue_operated(reported, operated, reported_entries, entries@, attempts, left));
            assert(entries@ =~= old(entries)@ + submission_output(*old(self), attempts));
        }
        // when there is something to process and there is no pending io
        // let the caller process completed operations
        if has_output && self.io_pending.len() == 0 {
            let ghost output = entries@;
            let _ = self.timers.expire_timers(entries);
            proof {
                let (now, due) = choose|now: nat, due: Seq<TimerView>| #[trigger]
                    expires(operated.timers(), now, due, self.timers()) && operated.shows(now)
                        && entries@ == output + timer_entries(due);
                assert(submitted(
                    *old(self),
                    *self,
                    old(entries)@,
                    entries@,
                    timeout,
                    Submitted::Completed,
                    attempts,
                    left,
                    now,
                    due,
                ));
            }
            return Submitted::Completed;
        }
        // either nothing is completed or there is pending io

        let limit: Option<Duration> = if has_output {
            Some(Duration::zero())
        } else {
            timeout
        };
        let wait = self.check_readiness(limit);
        proof {
            let now = choose|now: nat|
                operated.shows(now) && #[trigger] cut_short(
                    operated.timers(),
                    now,
                    limit,
                    wait.timeout,
                );
            assert(submitted(
                *old(self),
                *self,
                old(entries)@,
                entries@,
                timeout,
                Submitted::Wait(wait),
                attempts,
                left,
                now,
                Seq::empty(),
            ));
        }
        Submitted::Wait(wait)
    }

    /// Takes the kernel's answer to a wait: reports the timers that have fallen due, and then the operations
    /// that have completed. On any error there are no ready events.
    pub fn complete_submit(
        &mut self,
        wait: Wait,
        answer: IoResult<Vec<Event>>,
        entries: &mut Vec<Entry>,
    ) -> (r: IoResult<()>)
        requires
            old(self).wf(),
            wait.scanned_till <= old(self).pending().len(),
            answer is Ok ==> events_of_pending(old(self).pending(), answer->Ok_0@),
        ensures
            final(self).wf(),
            r == match answer {
                Ok(_) => Ok(()),
                Err(error) => Err(error),
            },
            exists|now: nat, due: Seq<TimerView>, operated: Seq<Operated>, stages: Seq<Seq<O>>|
                {
                    &&& #[trigger] waited(
                        *old(self),
                        *final(self),
                        old(entries)@,
                        final(entries)@,
                        wait.scanned_till as nat,
                        answer,
                        now,
                        due,
                        operated,
                        stages,
                    )
                    &&& forall|i: int| #[trigger]
                        place(i) && i < operated.len() && !answer->Ok_0@[i].flags.error ==> exists|
                            op: &mut O,
                        |
                            {
                                &&& *op == stages[i][answer->Ok_0@[i].udata as int]
                                &&& *final(op) == stages[i + 1][answer->Ok_0@[i].udata as int]
                                &&& #[trigger] call_ensures(O::operate, (op,), operated[i])
                            }
                    &&& answer is Ok ==> forall|i: int| #[trigger]
                        place(i) && i < wait.scanned_till && completed_places(
                            answer->Ok_0@,
                            operated,
                        ).contains(i as usize) ==> *final(old(self).pending()[i].op) == stages.last()[i]
                },
    {
        let _ = self.timers.expire_timers(entries);
        let ghost expired = *self;
        let ghost expired_entries = entries@;
        let ghost (now, due) = choose|now: nat, due: Seq<TimerView>| #[trigger]
            expires(old(self).timers(), now, due, self.timers()) && old(self).shows(now) && entries@
                == old(entries)@ + timer_entries(due);
        assert(expires(old(self).timers(), now, due, self.timers()));
        match answer {
            Ok(ref events) => {
                self.operate_completed_and_requeue(events, wait.scanned_till, entries);
                proof {
                    let (operated, stages) = choose|operated: Seq<Operated>, stages: Seq<Seq<O>>|
                        {
                            &&& #[trigger] ready_operated(
                                expired,
                                *self,
                                expired_entries,
                                entries@,
                                events@,
                                wait.scanned_till as nat,
                                operated,
                                stages,
                            )
                            &&& forall|i: int| #[trigger]
                                place(i) && i < operated.len() && !events@[i].flags.error ==> exists|
                                    op: &mut O,
                                |
                                    {
                                        &&& *op == stages[i][events@[i].udata as int]
                                        &&& *final(op) == stages[i + 1][events@[i].udata as int]
                                        &&& #[trigger] call_ensures(O::operate, (op,), operated[i])
                                    }
                            &&& forall|i: int| #[trigger]
                                place(i) && i < wait.scanned_till && completed_places(
                                    events@,
                                    operated,
                                ).contains(i as usize) ==> *final(expired.pending()[i].op)
                                    == stages.last()[i]
                        };
                    assert(ready_operated(
                        expired,
                        *self,
                        expired_entries,
                        entries@,
                        events@,
                        wait.scanned_till as nat,
                        operated,
                        stages,
                    ));
                    assert(waited(
                        *old(self),
                        *self,
                        old(entries)@,
                        entries@,
                        wait.scanned_till as nat,
                        answer,
                        now,
                        due,
                        operated,
                        stages,
                    ));
                }
                Ok(())
            },
            Err(error) => {
                assert(waited(
                    *old(self),
                    *self,
                    old(entries)@,
                    entries@,
                    wait.scanned_till as nat,
                    answer,
                    now,
                    due,
                    Seq::empty(),
                    Seq::empty(),
                ));
                Err(error)
            },
        }
    }
}

impl<'arena, O: OpCode> CompleteIo<'arena, O> for Driver<'arena, O> {
    open spec fn inv(&self) -> bool {
        self.wf()
    }

    open spec fn capacity(&self) -> nat {
        self.limit()
    }

    open spec fn queued(&self) -> Seq<u64> {
        user_datas(self.squeue())
    }

    open spec fn accepts(_code: O) -> bool {
        true
    }

    open spec fn owes(&self, user_data: usize) -> bool {
        ||| has_key(self.squeue(), user_data)
        ||| has_key(self.pending(), user_data)
        ||| timer_runs(self.timers(), user_data)
        ||| self.cancelled().contains(user_data)
    }

    fn try_cancel(&mut self, user_data: usize) -> (r: Result<(), ()>)
        ensures
            final(self).timers() == old(self).timers(),
            final(self).clock() == old(self).clock(),
            final(self).changes() == old(self).changes(),
            r is Ok ==> cancellation_taken(*old(self), *final(self), user_data),
            r is Ok ==> forall|i: int| #[trigger]
                is_first(old(self).squeue(), user_data, i) ==> *final(old(self).squeue()[i].op)
                    == old(self).squeue()[i].code(),
            r is Ok ==> forall|i: int| #[trigger]
                is_first(old(self).pending(), user_data, i) ==> *final(old(self).pending()[i].op)
                    == old(self).pending()[i].code(),
    {
        if self.squeue.len() == self.entries {
            return Err(());
        }
        // we assume cancellations are rare
        if remove_first(&mut self.squeue, user_data) {
            self.cancelled.push(user_data);
        }
        if remove_first(&mut self.io_pending, user_data) {
            self.cancelled.push(user_data);
        }
        proof {
            lemma_without(old(self).squeue(), user_data);
            lemma_without(old(self).pending(), user_data);
            let more = cancellations(old(self).squeue(), old(self).pending(), user_data);
            assert(self.cancelled() =~= old(self).cancelled() + more);
            lemma_cancelled_add(old(self).cancelled(), more);
            if more.len() > 0 {
                assert(more[0] == user_data);
            }
        }
        Ok(())
    }

    fn try_push(&mut self, op: Operation<'arena, O>) -> (r: Result<(), Operation<'arena, O>>)
        ensures
            final(self).pending() == old(self).pending(),
            final(self).timers() == old(self).timers(),
            final(self).clock() == old(self).clock(),
            final(self).changes() == old(self).changes(),
            final(self).cancelled() == old(self).cancelled(),
            r is Ok ==> {
                &&& final(self).squeue().len() == old(self).squeue().len() + 1
                &&& final(self).squeue().drop_last() == old(self).squeue()
                &&& final(self).squeue().last().code() == op.code()
                &&& final(self).squeue().last().user_data == op.user_data
                &&& *final(final(self).squeue().last().op) == *final(op.op)
            },
    {
        if self.capacity_left() > 0 {
            let object = OpObject::from(op);
            self.squeue.push_back(object);
            proof {
                assert(user_datas(self.squeue()) =~= user_datas(old(self).squeue()).push(
                    op.user_data as u64,
                ));
                assert(self.squeue() =~= old(self).squeue().push(object));
                assert(self.squeue().drop_last() =~= old(self).squeue());
                lemma_has_key_push(old(self).squeue(), object);
            }
            Ok(())
        } else {
            Err(op)
        }
    }

    fn try_push_dyn(&mut self, op: OpObject<'arena, O>) -> (r: Result<(), OpObject<'arena, O>>)
        ensures
            final(self).pending() == old(self).pending(),
            final(self).timers() == old(self).timers(),
            final(self).clock() == old(self).clock(),
            final(self).changes() == old(self).changes(),
            final(self).cancelled() == old(self).cancelled(),
            r is Ok ==> final(self).squeue() == old(self).squeue().push(op),
    {
        if self.capacity_left() > 0 {
            self.squeue.push_back(op);
            proof {
                assert(user_datas(self.squeue()) =~= user_datas(old(self).squeue()).push(
                    op.user_data as u64,
                ));
                lemma_has_key_push(old(self).squeue(), op);
            }
            Ok(())
        } else {
            Err(op)
        }
    }

    fn push_queue(&mut self, ops_queue: &mut VecDeque<OpObject<'arena, O>>)
        ensures
            final(self).pending() == old(self).pending(),
            final(self).timers() == old(self).timers(),
            final(self).clock() == old(self).clock(),
            final(self).changes() == old(self).changes(),
            final(self).cancelled() == old(self).cancelled(),
            final(self).squeue() + final(ops_queue)@ == old(self).squeue() + old(ops_queue)@,
    {
        let left: usize = self.capacity_left();
        let till: usize = if left < ops_queue.len() {
            left
        } else {
            ops_queue.len()
        };
        move_front(ops_queue, &mut self.squeue, till);
        proof {
            assert(user_datas(self.squeue()) =~= user_datas(old(self).squeue()) + user_datas(
                old(ops_queue)@.take(till as int),
            ));
            assert(self.squeue() + ops_queue@ =~= old(self).squeue() + old(ops_queue)@);
            lemma_has_key_add(old(self).squeue(), old(ops_queue)@.take(till as int));
        }
    }

    fn capacity_left(&self) -> (left: usize) {
        self.entries - self.squeue.len()
    }
}

} // verus!
