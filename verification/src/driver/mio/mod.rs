//! The driver for systems where readiness is polled for.
//!
//! Before it is submitted, an operation decides whether it is completed or has to wait. What waits is
//! registered with the poll, under its user data, and asked again when an event arrives.
pub mod laws;
pub mod model;
pub mod op;

use vstd::multiset::Multiset;
use vstd::prelude::*;

use std::collections::{HashMap, HashSet, VecDeque};
use std::ops::ControlFlow;

use crate::driver::attempts::{
    cancelled_entries, lemma_cancelled_add, place, report_cancelled, OpView, TIMER_PENDING,
};
use crate::driver::mio::laws::{moves, Move};
use crate::driver::mio::model::{
    advance, advance_all, decided_on_time, event_result, lemma_advance_push, op_views, registers, Decisions,
    Progress,
};
use crate::driver::queue::{lemma_has_key_add, lemma_has_key_push, move_front};
use crate::driver::time::{cut_short, expires, timer_entries, timer_runs, TimerView, TimerWheel};
use crate::driver::unix::RawFd;
use crate::driver::{has_key, user_datas, CompleteIo, Entry, OpObject, Operation};
use crate::error::{CallError, ErrorKind, IoError, IoResult};
use crate::time::{Clock, Duration, Moment};

verus! {

/// Invalid file descriptor value could be used as an initial value of uninitialized file descriptor.
pub const INVALID_FD: RawFd = -1;

/// What an operation waits for.
#[derive(Clone, Copy, Debug, PartialEq, Eq, Structural)]
pub enum Interest {
    /// The descriptor can be read from.
    Readable,
    /// The descriptor can be written to.
    Writable,
}

/// An event that the poll reports.
#[derive(Clone, Copy, Debug, PartialEq, Eq, Structural)]
pub struct Event {
    /// The token that the descriptor was registered under: the user data of the operation.
    pub token: usize,
    /// The descriptor can be read from.
    pub readable: bool,
    /// The descriptor can be written to.
    pub writable: bool,
}

/// Meta of an operation that waits.
#[derive(Clone, Copy, Debug, PartialEq, Eq, Structural)]
pub struct WaitArg {
    /// The descriptor.
    pub fd: RawFd,
    /// What is waited for.
    pub interest: Interest,
}

/// Result of [`OpCode::pre_submit`].
#[derive(Clone, Copy, Debug, PartialEq, Eq, Structural)]
pub enum Decision {
    /// Instant operation, no need to submit.
    Completed(usize),
    /// Async operation, needs to submit.
    Wait(WaitArg),
}

impl Decision {
    /// Decides to wait for the given fd with the given interest.
    pub fn wait_for(fd: RawFd, interest: Interest) -> (decision: Self)
        ensures
            decision == Decision::Wait(WaitArg { fd, interest }),
    {
        Decision::Wait(WaitArg { fd, interest })
    }

    /// Decides to wait for the given fd to be readable.
    pub fn wait_readable(fd: RawFd) -> (decision: Self)
        ensures
            decision == Decision::Wait(WaitArg { fd, interest: Interest::Readable }),
    {
        Self::wait_for(fd, Interest::Readable)
    }

    /// Decides to wait for the given fd to be writable.
    pub fn wait_writable(fd: RawFd) -> (decision: Self)
        ensures
            decision == Decision::Wait(WaitArg { fd, interest: Interest::Writable }),
    {
        Self::wait_for(fd, Interest::Writable)
    }
}

/// The decision asks for a timer.
pub open spec fn wants_timer(decision: IoResult<Decision>) -> bool {
    decision == Ok::<Decision, IoError>(Decision::Completed(TIMER_PENDING))
}

/// Abstraction of operations.
pub trait OpCode: Sized {
    /// The delay that the operation is about, if it is a timer.
    open spec fn delay(&self) -> Option<Duration> {
        arbitrary()
    }

    /// Performs the operation before submit, and returns a [`Decision`] to indicate whether submitting the
    /// operation to the poll is required.
    fn pre_submit(&mut self) -> (decision: IoResult<Decision>)
        ensures
            final(self).delay() == old(self).delay(),
            wants_timer(decision) ==> old(self).delay() is Some,
    ;

    /// Performs the operation after its event was received.
    fn on_event(&mut self, event: &Event) -> IoResult<ControlFlow<usize>>;

    /// The delay. Only timers have one.
    fn timer_delay(&self) -> (delay: Duration)
        requires
            self.delay() is Some,
        ensures
            delay == self.delay()->0,
    ;
}

/// Entry waiting for events.
pub struct WaitEntry<'arena, O> {
    /// The operation.
    pub op: &'arena mut O,
    /// What it waits for.
    pub arg: WaitArg,
    /// Its user data.
    pub user_data: usize,
}

impl<'arena, O> WaitEntry<'arena, O> {
    /// Makes an entry.
    pub fn new(op: &'arena mut O, user_data: usize, arg: WaitArg) -> (entry: Self)
        ensures
            *entry.op == *old(op),
            *final(entry.op) == *final(op),
            entry.arg == arg,
            entry.user_data == user_data,
    {
        WaitEntry { op, arg, user_data }
    }
}

/// A descriptor to register with the poll.
#[derive(Clone, Copy, Debug, PartialEq, Eq, Structural)]
pub struct Registration {
    /// The token to register under.
    pub token: usize,
    /// What to register.
    pub arg: WaitArg,
}

/// What comes next in a submission.
#[derive(Clone, Copy, Debug, PartialEq, Eq, Structural)]
pub enum SubmitStep {
    /// Register the descriptor, and hand the outcome to [`Driver::registered`].
    Register(Registration),
    /// At least one operation has completed: return without polling.
    Return,
    /// Nothing has completed: poll.
    Poll,
}

/// What comes after a poll.
#[derive(Clone, Copy, Debug, PartialEq, Eq, Structural)]
pub enum PollStep {
    /// The poll was interrupted: poll again.
    Retry,
    /// Process the events.
    Process,
    /// The poll failed.
    Fail(IoError),
}

/// A waiting operation that has come to a result and is to be deregistered.
#[derive(Clone, Copy, Debug)]
pub struct Finished {
    /// The token that its descriptor is registered under.
    pub token: usize,
    /// The result.
    pub result: IoResult<usize>,
}

/// Low-level driver of a readiness poll.
pub struct Driver<'arena, O: OpCode> {
    /// How many operations the submission queue takes.
    entries: usize,
    squeue: VecDeque<OpObject<'arena, O>>,
    timers: TimerWheel,
    waiting: HashMap<usize, WaitEntry<'arena, O>>,
    cancelled: HashSet<usize>,
    /// Descriptors of cancelled operations, to be deregistered.
    to_deregister: Vec<RawFd>,
    /// Operations that were cancelled while they waited, to be output by the next submission.
    to_report: Vec<usize>,
    /// An operation of the current submission has completed.
    at_least_one_completion: bool,
    /// The operation whose descriptor is being registered.
    registering: Option<WaitEntry<'arena, O>>,
    /// The operation whose descriptor is being deregistered.
    finished: Option<Finished>,
}

impl<'arena, O: OpCode> Driver<'arena, O> {
    /// The submission queue.
    pub closed spec fn squeue(&self) -> Seq<OpObject<'arena, O>> {
        self.squeue@
    }

    /// The timers that run.
    pub closed spec fn timers(&self) -> Multiset<TimerView> {
        self.timers@
    }

    /// What the operations that wait wait for, by their user data.
    pub closed spec fn waits(&self) -> Map<usize, WaitArg> {
        self.waiting@.map_values(|entry: WaitEntry<'arena, O>| entry.arg)
    }

    /// Where the operations are that wait, by their user data.
    pub closed spec fn waiting_refs(&self) -> Map<usize, &'arena mut O> {
        self.waiting@.map_values(|entry: WaitEntry<'arena, O>| entry.op)
    }

    /// The operations that wait, by their user data.
    pub closed spec fn waiting_ops(&self) -> Map<usize, O> {
        self.waiting@.map_values(|entry: WaitEntry<'arena, O>| *entry.op)
    }

    /// The user data of operations that were cancelled before they were submitted.
    pub closed spec fn cancelled(&self) -> Set<usize> {
        self.cancelled@
    }

    /// The descriptors of cancelled operations that are still registered.
    pub closed spec fn deregistrations(&self) -> Seq<RawFd> {
        self.to_deregister@
    }

    /// The clock that the timers run on.
    pub closed spec fn clock(&self) -> Clock {
        self.timers.clock()
    }

    /// The clock can show the time `now`.
    pub open spec fn shows(&self, now: nat) -> bool {
        self.clock().shows(now)
    }

    /// The user data of the operations that were cancelled while they waited and that the next submission
    /// outputs.
    pub closed spec fn to_report(&self) -> Seq<usize> {
        self.to_report@
    }

    /// An operation of the current submission has completed.
    pub closed spec fn has_completion(&self) -> bool {
        self.at_least_one_completion
    }

    /// The descriptor that is being registered, if any.
    pub closed spec fn registration(&self) -> Option<Registration> {
        match self.registering {
            Some(entry) => Some(Registration { token: entry.user_data, arg: entry.arg }),
            None => None,
        }
    }

    /// Where the operation is whose descriptor is being registered, if any.
    pub closed spec fn registering_ref(&self) -> Option<&'arena mut O> {
        match self.registering {
            Some(entry) => Some(entry.op),
            None => None,
        }
    }

    /// The operation whose descriptor is being registered, if any.
    pub closed spec fn registering_op(&self) -> Option<O> {
        match self.registering {
            Some(entry) => Some(*entry.op),
            None => None,
        }
    }

    /// The waiting operation that has come to a result and is being deregistered, if any.
    pub closed spec fn finishing(&self) -> Option<Finished> {
        self.finished
    }

    /// How many operations the submission queue takes.
    pub closed spec fn limit(&self) -> nat {
        self.entries as nat
    }

    /// What holds of the driver at any time.
    pub closed spec fn wf(&self) -> bool {
        &&& self.squeue@.len() <= self.entries
        &&& self.timers.wf()
        &&& forall|token: usize| #[trigger]
            self.waiting@.contains_key(token) ==> self.waiting@[token].user_data == token
        &&& self.finished is Some ==> self.waiting@.contains_key(self.finished->0.token)
    }

    /// No submission is under way.
    pub open spec fn idle(&self) -> bool {
        &&& self.registration() is None
        &&& self.finishing() is None
        &&& !self.has_completion()
    }

    /// How far the current submission has come.
    pub open spec fn progress(&self, entries: Seq<Entry>) -> Progress {
        Progress {
            timers: self.timers(),
            cancelled: self.cancelled(),
            entries,
            completed: self.has_completion(),
        }
    }

    /// Creates a driver with 1024 entries.
    pub fn new() -> (driver: Self)
        ensures
            driver.wf(),
            driver.idle(),
            driver.limit() == 1024,
            driver.squeue().len() == 0,
            driver.waits() == Map::<usize, WaitArg>::empty(),
            driver.waiting_ops() == Map::<usize, O>::empty(),
            driver.cancelled() == Set::<usize>::empty(),
            driver.deregistrations().len() == 0,
            driver.timers() == Multiset::<TimerView>::empty(),
            driver.clock().is_started(),
            driver.to_report().len() == 0,
    {
        Self::with_entries(1024)
    }

    /// Creates a driver with the given number of entries.
    pub fn with_entries(entries: u32) -> (driver: Self)
        ensures
            driver.wf(),
            driver.idle(),
            driver.limit() == entries,
            driver.squeue().len() == 0,
            driver.waits() == Map::<usize, WaitArg>::empty(),
            driver.waiting_ops() == Map::<usize, O>::empty(),
            driver.cancelled() == Set::<usize>::empty(),
            driver.deregistrations().len() == 0,
            driver.timers() == Multiset::<TimerView>::empty(),
            driver.clock().is_started(),
            driver.to_report().len() == 0,
    {
        let entries: usize = entries as usize;
        let driver = Driver {
            entries,
            squeue: VecDeque::with_capacity(entries),
            timers: TimerWheel::with_capacity(16),
            waiting: HashMap::new(),
            cancelled: HashSet::new(),
            to_deregister: Vec::new(),
            to_report: Vec::new(),
            at_least_one_completion: false,
            registering: None,
            finished: None,
        };
        proof {
            assert(driver.waits() =~= Map::<usize, WaitArg>::empty());
            assert(driver.waiting_ops() =~= Map::<usize, O>::empty());
        }
        driver
    }

    /// Attaches an fd to the driver. There is nothing to be done for it.
    pub fn attach(&mut self, _fd: RawFd) -> (r: IoResult<()>)
        ensures
            *final(self) == *old(self),
            r is Ok,
    {
        Ok(())
    }

    /// Files an operation by what it decided at `now`: its timer is set if it asks for one, its entry is
    /// returned if it has completed or failed, and if it has to wait, its descriptor is put up for
    /// registration, unless the operation was cancelled: then its entry says so.
    pub fn settle(
        &mut self,
        op: OpObject<'arena, O>,
        decision: IoResult<Decision>,
        now: Moment,
    ) -> (entry: Option<Entry>)
        requires
            old(self).wf(),
            old(self).registration() is None,
            wants_timer(decision) ==> op.code().delay() is Some,
        ensures
            final(self).wf(),
            final(self).limit() == old(self).limit(),
            final(self).clock() == old(self).clock(),
            final(self).to_report() == old(self).to_report(),
            final(self).squeue() == old(self).squeue(),
            final(self).waits() == old(self).waits(),
            final(self).waiting_ops() == old(self).waiting_ops(),
            final(self).waiting_refs() == old(self).waiting_refs(),
            final(self).deregistrations() == old(self).deregistrations(),
            final(self).finishing() == old(self).finishing(),
            forall|entries: Seq<Entry>|
                final(self).progress(
                    match entry {
                        Some(entry) => entries.push(entry),
                        None => entries,
                    },
                ) == advance(
                    #[trigger] old(self).progress(entries),
                    (op.user_data, op.code().delay()),
                    decision,
                    now@,
                ),
            final(self).registration() == match decision {
                Ok(Decision::Wait(arg)) if !old(self).cancelled().contains(op.user_data) => Some(
                    Registration { token: op.user_data, arg },
                ),
                _ => None,
            },
            final(self).registering_op() == match final(self).registration() {
                Some(_) => Some(op.code()),
                None => None,
            },
            final(self).registration() is None ==> *final(op.op) == op.code(),
            final(self).registration() is Some ==> final(self).registering_ref() is Some
                && *final(final(self).registering_ref()->0) == *final(op.op),
    {
        let user_data: usize = op.user_data();
        match decision {
            Ok(Decision::Wait(arg)) => {
                if self.cancelled.remove(&user_data) {
                    self.at_least_one_completion = true;
                    assert(self.cancelled() =~= old(self).cancelled().remove(user_data));
                    Some(Entry::new(user_data, Err(IoError::Cancelled)))
                } else {
                    self.registering = Some(WaitEntry::new(op.op, user_data, arg));
                    assert(self.cancelled() =~= old(self).cancelled());
                    None
                }
            },
            Ok(Decision::Completed(transferred)) => {
                if transferred == TIMER_PENDING {
                    let delay = op.opcode_ref().timer_delay();
                    self.timers.insert_at(now, user_data, delay);
                    None
                } else {
                    self.at_least_one_completion = true;
                    Some(Entry::new(user_data, Ok(transferred)))
                }
            },
            Err(error) => {
                self.at_least_one_completion = true;
                Some(Entry::new(user_data, Err(error)))
            },
        }
    }
}

/// Where a step of a submission starts: the operations that were cancelled while they waited are output.
pub open spec fn step_start<'arena, O: OpCode>(before: Driver<'arena, O>, entries: Seq<Entry>) -> Progress {
    Progress {
        entries: entries + cancelled_entries(before.to_report()),
        completed: before.has_completion() || before.to_report().len() > 0,
        ..before.progress(entries)
    }
}

/// What a step of a submission makes of a driver and of the entries, where the operations that it took from the
/// queue decided `decisions` and were left as `left`: all of them but the one to be registered, if there is one,
/// are dealt with.
pub open spec fn stepped<'arena, O: OpCode>(
    before: Driver<'arena, O>,
    after: Driver<'arena, O>,
    entries_before: Seq<Entry>,
    entries_after: Seq<Entry>,
    step: SubmitStep,
    decisions: Decisions,
    left: Seq<O>,
) -> bool {
    let ops = op_views(before.squeue());
    let taken = decisions.len() as int;
    let start = step_start(before, entries_before);
    let reached = advance_all(start, ops.take(taken), decisions);
    &&& taken <= ops.len()
    &&& left.len() == taken
    &&& decided_on_time(before.clock(), decisions)
    &&& after.squeue() == before.squeue().skip(taken)
    &&& after.limit() == before.limit()
    &&& after.clock() == before.clock()
    &&& after.to_report().len() == 0
    &&& after.waits() == before.waits()
    &&& after.waiting_ops() == before.waiting_ops()
    &&& after.waiting_refs() == before.waiting_refs()
    &&& after.deregistrations() == before.deregistrations()
    &&& after.finishing() is None
    &&& match step {
        SubmitStep::Register(registration) => {
            let last = taken - 1;
            &&& 0 < taken
            &&& dealt_with(start, ops, decisions, last)
            &&& registers(
                advance_all(start, ops.take(last), decisions.take(last)),
                ops[last],
                decisions[last].0,
            )
            &&& decisions[last].0 == Ok::<Decision, IoError>(Decision::Wait(registration.arg))
            &&& registration.token == ops[last].0
            &&& after.registration() == Some(registration)
            &&& after.registering_op() == Some(left[last])
            &&& after.progress(entries_after) == reached
        },
        SubmitStep::Return => {
            &&& taken == ops.len()
            &&& dealt_with(start, ops, decisions, taken)
            &&& reached.completed
            &&& after.registration() is None
            &&& after.progress(entries_after) == (Progress { completed: false, ..reached })
        },
        SubmitStep::Poll => {
            &&& taken == ops.len()
            &&& dealt_with(start, ops, decisions, taken)
            &&& !reached.completed
            &&& after.registration() is None
            &&& after.progress(entries_after) == reached
        },
    }
}

/// None of the first `count` operations puts its descriptor up for registration.
pub open spec fn dealt_with(
    start: Progress,
    ops: Seq<OpView>,
    decisions: Decisions,
    count: int,
) -> bool {
    forall|i: int|
        0 <= i < count ==> !registers(
            advance_all(start, ops.take(i), decisions.take(i)),
            ops[i],
            #[trigger] decisions[i].0,
        )
}

/// One more operation is dealt with.
proof fn lemma_dealt_with_push(
    start: Progress,
    ops: Seq<OpView>,
    decisions: Decisions,
    decision: (IoResult<Decision>, nat),
)
    requires
        decisions.len() < ops.len(),
        dealt_with(start, ops, decisions, decisions.len() as int),
    ensures
        ({
            let done = decisions.len() as int;
            let next = decisions.push(decision);
            let reached = advance_all(start, ops.take(done), decisions);
            &&& dealt_with(start, ops, next, done)
            &&& advance_all(start, ops.take(done), next.take(done)) == reached
            &&& advance_all(start, ops.take(done + 1), next) == advance(
                reached,
                ops[done],
                decision.0,
                decision.1,
            )
            &&& !registers(reached, ops[done], decision.0) ==> dealt_with(start, ops, next, done + 1)
        }),
{
    let done = decisions.len() as int;
    let next = decisions.push(decision);
    assert(next.take(done) =~= decisions);
    assert(ops.take(done + 1) =~= ops.take(done).push(ops[done]));
    lemma_advance_push(start, ops.take(done), decisions, ops[done], decision);
    assert forall|i: int| 0 <= i < done implies !registers(
        advance_all(start, ops.take(i), next.take(i)),
        ops[i],
        #[trigger] next[i].0,
    ) by {
        assert(next.take(i) =~= decisions.take(i));
        assert(next[i] == decisions[i]);
    }
}

impl<'arena, O: OpCode> Driver<'arena, O> {
    /// Takes the operation at the front of the submission queue, lets it decide and files it. Returns the
    /// decision, when it was made, and how it left the operation.
    fn submit_front(&mut self, entries: &mut Vec<Entry>) -> (r: (IoResult<Decision>, Moment, Ghost<O>))
        requires
            old(self).wf(),
            old(self).registration() is None,
            old(self).squeue().len() > 0,
        ensures
            final(self).wf(),
            final(self).limit() == old(self).limit(),
            final(self).clock() == old(self).clock(),
            final(self).to_report() == old(self).to_report(),
            final(self).squeue() == old(self).squeue().skip(1),
            final(self).waits() == old(self).waits(),
            final(self).waiting_ops() == old(self).waiting_ops(),
            final(self).waiting_refs() == old(self).waiting_refs(),
            final(self).deregistrations() == old(self).deregistrations(),
            final(self).finishing() == old(self).finishing(),
            wants_timer(r.0) ==> old(self).shows(r.1@),
            final(self).progress(final(entries)@) == advance(
                old(self).progress(old(entries)@),
                op_views(old(self).squeue())[0],
                r.0,
                r.1@,
            ),
            final(self).registration() == match r.0 {
                Ok(Decision::Wait(arg)) if !old(self).cancelled().contains(
                    old(self).squeue()[0].user_data,
                ) => Some(Registration { token: old(self).squeue()[0].user_data, arg }),
                _ => None,
            },
            final(self).registration() is Some ==> final(self).registering_op() == Some(r.2@),
            final(self).registration() is None ==> *final(old(self).squeue()[0].op) == r.2@,
            final(self).registration() is Some ==> *final(final(self).registering_ref()->0)
                == *final(old(self).squeue()[0].op),
            exists|op: &mut O|
                {
                    &&& *op == old(self).squeue()[0].code()
                    &&& *final(op) == r.2@
                    &&& #[trigger] call_ensures(O::pre_submit, (op,), r.0)
                },
    {
        let mut op = self.squeue.pop_front().unwrap();
        let ghost view = (op.user_data, op.code().delay());
        let ghost code = op.code();
        // io buffers are Unpin so no need to pin
        let decision = op.opcode().pre_submit();
        let ghost left = op.code();
        assert(exists|o: &mut O|
            {
                &&& *o == code
                &&& *final(o) == left
                &&& #[trigger] call_ensures(O::pre_submit, (o,), decision)
            });
        // only a timer has to know when it starts
        let now = if matches!(decision, Ok(Decision::Completed(TIMER_PENDING))) {
            self.timers.now()
        } else {
            Moment::since_start(Duration::zero())
        };
        proof {
            assert(op_views(old(self).squeue())[0] == view);
            assert((op.user_data, op.code().delay()) == view);
            assert(self.squeue() =~= old(self).squeue().skip(1));
            assert(self.progress(entries@) == old(self).progress(entries@));
        }
        match self.settle(op, decision, now) {
            Some(entry) => {
                entries.push(entry);
            },
            None => {},
        }
        (decision, now, Ghost(left))
    }

    /// Takes operations from the submission queue until the descriptor of one has to be registered or the
    /// queue is empty. A submission begins with this call and goes on with it after each registration. Each
    /// decision is what [`OpCode::pre_submit`] of that operation came to. Operations that were cancelled while
    /// they waited are output first.
    pub fn submit_next(&mut self, entries: &mut Vec<Entry>) -> (step: SubmitStep)
        requires
            old(self).wf(),
            old(self).registration() is None,
            old(self).finishing() is None,
            old(self).deregistrations().len() == 0,
        ensures
            final(self).wf(),
            exists|decisions: Decisions, left: Seq<O>|
                {
                    &&& #[trigger] stepped(
                        *old(self),
                        *final(self),
                        old(entries)@,
                        final(entries)@,
                        step,
                        decisions,
                        left,
                    )
                    &&& forall|i: int| #[trigger]
                        place(i) && i < decisions.len() ==> exists|op: &mut O|
                            {
                                &&& *op == old(self).squeue()[i].code()
                                &&& *final(op) == left[i]
                                &&& i < decisions.len() - 1 || !(step is Register)
                                    ==> *final(old(self).squeue()[i].op) == left[i]
                                &&& #[trigger] call_ensures(O::pre_submit, (op,), decisions[i].0)
                            }
                    &&& step is Register ==> *final(final(self).registering_ref()->0)
                        == *final(old(self).squeue()[decisions.len() - 1].op)
                },
    {
        let ghost queue = self.squeue();
        let ghost all = op_views(queue);
        let ghost start = step_start(*self, entries@);
        let ghost mut decisions: Decisions = Seq::empty();
        let ghost mut left: Seq<O> = Seq::empty();
        let ghost mut done: int = 0;
        if self.to_report.len() > 0 {
            self.at_least_one_completion = true;
        }
        report_cancelled(&mut self.to_report, entries);
        proof {
            assert(queue.skip(0) =~= queue);
            assert(all.take(0) =~= Seq::empty());
            assert(decisions.take(0) =~= decisions);
            assert(old(self).to_report().len() == 0 ==> cancelled_entries(old(self).to_report())
                =~= Seq::empty());
            assert(self.progress(entries@) == start);
        }
        while self.squeue.len() > 0
            invariant
                self.wf(),
                self.registration() is None,
                self.finishing() is None,
                self.deregistrations() == old(self).deregistrations(),
                self.limit() == old(self).limit(),
                self.clock() == old(self).clock(),
                self.to_report().len() == 0,
                self.waits() == old(self).waits(),
                self.waiting_ops() == old(self).waiting_ops(),
                self.waiting_refs() == old(self).waiting_refs(),
                queue == old(self).squeue(),
                all == op_views(queue),
                start == step_start(*old(self), old(entries)@),
                0 <= done <= queue.len(),
                decisions.len() == done,
                left.len() == done,
                self.squeue() == queue.skip(done),
                decided_on_time(old(self).clock(), decisions),
                self.progress(entries@) == advance_all(start, all.take(done), decisions),
                dealt_with(start, all, decisions, done),
                forall|i: int| #[trigger]
                    place(i) && i < done ==> exists|op: &mut O|
                        {
                            &&& *op == queue[i].code()
                            &&& *final(op) == left[i]
                            &&& *final(queue[i].op) == left[i]
                            &&& #[trigger] call_ensures(O::pre_submit, (op,), decisions[i].0)
                        },
            decreases self.squeue@.len(),
        {
            let ghost (decisions_before, left_before) = (decisions, left);
            let ghost before = *self;
            let (decision, now, Ghost(op_left)) = self.submit_front(entries);
            proof {
                assert(before.squeue()[0] == queue[done]);
                assert(op_views(before.squeue())[0] == all[done]);
                assert(self.squeue() =~= queue.skip(done + 1));
                lemma_dealt_with_push(start, all, decisions, (decision, now@));
                decisions = decisions.push((decision, now@));
                left = left.push(op_left);
                assert forall|i: int| #[trigger] place(i) && i < done + 1 implies exists|op: &mut O|
                    {
                        &&& *op == queue[i].code()
                        &&& *final(op) == left[i]
                        &&& i < done || self.registration() is None ==> *final(queue[i].op) == left[i]
                        &&& #[trigger] call_ensures(O::pre_submit, (op,), decisions[i].0)
                    } by {
                    if i < done {
                        assert(left[i] == left_before[i] && decisions[i] == decisions_before[i]);
                    } else {
                        assert(left[i] == op_left && decisions[i].0 == decision);
                    }
                }
                done = done + 1;
            }
            if let Some(ref entry) = self.registering {
                let registration = Registration { token: entry.user_data, arg: entry.arg };
                assert(stepped(
                    *old(self),
                    *self,
                    old(entries)@,
                    entries@,
                    SubmitStep::Register(registration),
                    decisions,
                    left,
                ));
                return SubmitStep::Register(registration);
            }
        }
        proof {
            assert(all.take(done) =~= all);
        }
        if self.at_least_one_completion {
            self.at_least_one_completion = false;
            assert(stepped(
                *old(self),
                *self,
                old(entries)@,
                entries@,
                SubmitStep::Return,
                decisions,
                left,
            ));
            SubmitStep::Return
        } else {
            assert(stepped(
                *old(self),
                *self,
                old(entries)@,
                entries@,
                SubmitStep::Poll,
                decisions,
                left,
            ));
            SubmitStep::Poll
        }
    }

    /// Takes the outcome of a registration. Only an operation that was registered successfully waits; the
    /// others are reported.
    pub fn registered(&mut self, outcome: IoResult<()>, entries: &mut Vec<Entry>)
        requires
            old(self).wf(),
            old(self).registration() is Some,
            old(self).finishing() is None,
        ensures
            final(self).wf(),
            final(self).registration() is None,
            final(self).finishing() is None,
            final(self).limit() == old(self).limit(),
            final(self).clock() == old(self).clock(),
            final(self).to_report() == old(self).to_report(),
            final(self).squeue() == old(self).squeue(),
            final(self).timers() == old(self).timers(),
            final(self).cancelled() == old(self).cancelled(),
            final(self).deregistrations() == old(self).deregistrations(),
            ({
                let registration = old(self).registration()->0;
                match outcome {
                    Ok(()) => {
                        &&& final(self).waits() == old(self).waits().insert(
                            registration.token,
                            registration.arg,
                        )
                        &&& final(self).waiting_ops() == old(self).waiting_ops().insert(
                            registration.token,
                            old(self).registering_op()->0,
                        )
                        &&& final(self).waiting_refs() == old(self).waiting_refs().insert(
                            registration.token,
                            old(self).registering_ref()->0,
                        )
                        &&& final(self).has_completion() == old(self).has_completion()
                        &&& final(entries)@ == old(entries)@
                    },
                    Err(error) => {
                        &&& final(self).waits() == old(self).waits()
                        &&& final(self).waiting_ops() == old(self).waiting_ops()
                        &&& final(self).waiting_refs() == old(self).waiting_refs()
                        &&& final(self).has_completion()
                        &&& final(entries)@ == old(entries)@.push(
                            Entry { user_data: registration.token, result: Err(error) },
                        )
                    },
                }
            }),
            moves(
                *old(self),
                *final(self),
                old(entries)@,
                final(entries)@,
                match outcome {
                    Ok(()) => Move::Registers,
                    Err(error) => Move::RegistrationFails(error),
                },
            ),
    {
        match self.registering.take() {
            Some(entry) => {
                let user_data: usize = entry.user_data;
                match outcome {
                    Ok(()) => {
                        let _ = self.waiting.insert(user_data, entry);
                        assert(self.waits() =~= old(self).waits().insert(user_data, entry.arg));
                        assert(self.waiting_ops() =~= old(self).waiting_ops().insert(user_data, *entry.op));
                        assert(self.waiting_refs() =~= old(self).waiting_refs().insert(user_data, entry.op));
                    },
                    Err(error) => {
                        self.at_least_one_completion = true;
                        entries.push(Entry::new(user_data, Err(error)));
                    },
                }
            },
            None => {},
        }
    }

    /// How long to poll at most: until the timeout is over or the first timer falls due.
    pub fn poll_timeout(&self, timeout: Option<Duration>) -> (wait: Option<Duration>)
        requires
            self.wf(),
        ensures
            exists|now: nat|
                self.shows(now) && #[trigger] cut_short(self.timers(), now, timeout, wait),
    {
        assert(self.timers() == self.timers@ && self.clock() == self.timers.clock());
        self.timers.till_next_timer_or_timeout(timeout)
    }

    /// Takes the outcome of a poll. An interrupted poll is made again; after a successful one the timers that
    /// have fallen due are reported.
    pub fn polled(&mut self, outcome: Result<(), CallError>, entries: &mut Vec<Entry>) -> (step: PollStep)
        requires
            old(self).wf(),
            old(self).idle(),
        ensures
            final(self).wf(),
            final(self).idle(),
            final(self).limit() == old(self).limit(),
            final(self).clock() == old(self).clock(),
            final(self).to_report() == old(self).to_report(),
            final(self).squeue() == old(self).squeue(),
            final(self).waits() == old(self).waits(),
            final(self).waiting_ops() == old(self).waiting_ops(),
            final(self).waiting_refs() == old(self).waiting_refs(),
            final(self).cancelled() == old(self).cancelled(),
            final(self).deregistrations() == old(self).deregistrations(),
            step == match outcome {
                Ok(()) => PollStep::Process,
                Err(error) => if error.kind == ErrorKind::Interrupted {
                    PollStep::Retry
                } else {
                    PollStep::Fail(IoError::Os(error.code))
                },
            },
            outcome is Err ==> *final(self) == *old(self) && final(entries)@ == old(entries)@,
            outcome is Ok ==> exists|now: nat, due: Seq<TimerView>| #[trigger]
                expires(old(self).timers(), now, due, final(self).timers()) && old(self).shows(now)
                    && final(entries)@ == old(entries)@ + timer_entries(due) && moves(
                    *old(self),
                    *final(self),
                    old(entries)@,
                    final(entries)@,
                    Move::Expires(now, due),
                ),
    {
        match outcome {
            Ok(()) => {
                let _ = self.timers.expire_timers(entries);
                assert(self.timers() == self.timers@ && old(self).timers() == old(self).timers@);
                assert(old(self).clock() == old(self).timers.clock());
                PollStep::Process
            },
            Err(error) => {
                if error.kind == ErrorKind::Interrupted {
                    PollStep::Retry
                } else {
                    PollStep::Fail(IoError::Os(error.code))
                }
            },
        }
    }

    /// Whether an operation waits under the token.
    pub fn is_waiting(&self, token: usize) -> (waiting: bool)
        ensures
            waiting == self.waits().contains_key(token),
    {
        self.waiting.contains_key(&token)
    }

    /// Takes note of what a waiting operation made of its event. If it has come to a result, its descriptor
    /// is returned, to be deregistered.
    pub fn settle_event(&mut self, token: usize, flow: IoResult<ControlFlow<usize>>) -> (fd: Option<RawFd>)
        requires
            old(self).wf(),
            old(self).idle(),
            old(self).waits().contains_key(token),
        ensures
            final(self).wf(),
            final(self).limit() == old(self).limit(),
            final(self).clock() == old(self).clock(),
            final(self).to_report() == old(self).to_report(),
            final(self).squeue() == old(self).squeue(),
            final(self).timers() == old(self).timers(),
            final(self).waits() == old(self).waits(),
            final(self).waiting_ops() == old(self).waiting_ops(),
            final(self).waiting_refs() == old(self).waiting_refs(),
            final(self).cancelled() == old(self).cancelled(),
            final(self).deregistrations() == old(self).deregistrations(),
            final(self).registration() is None,
            !final(self).has_completion(),
            final(self).finishing() == match event_result(flow) {
                Some(result) => Some(Finished { token, result }),
                None => None,
            },
            fd == match event_result(flow) {
                Some(_) => Some(old(self).waits()[token].fd),
                None => None,
            },
    {
        let fd: RawFd = match self.waiting.get(&token) {
            Some(entry) => entry.arg.fd,
            None => INVALID_FD,
        };
        let result: IoResult<usize> = match flow {
            Ok(ControlFlow::Continue(_)) => {
                return None;
            },
            Ok(ControlFlow::Break(transferred)) => Ok(transferred),
            Err(error) => Err(error),
        };
        self.finished = Some(Finished { token, result });
        Some(fd)
    }

    /// Lets a waiting operation process its event. What comes of it is what [`OpCode::on_event`] of that
    /// operation returned for that event: if it has come to a result, its descriptor is returned, to be
    /// deregistered; the outcome goes to [`Driver::deregistered`].
    pub fn on_event(&mut self, event: &Event) -> (fd: Option<RawFd>)
        requires
            old(self).wf(),
            old(self).idle(),
            old(self).waits().contains_key(event.token),
        ensures
            final(self).wf(),
            final(self).limit() == old(self).limit(),
            final(self).clock() == old(self).clock(),
            final(self).to_report() == old(self).to_report(),
            final(self).squeue() == old(self).squeue(),
            final(self).timers() == old(self).timers(),
            final(self).waits() == old(self).waits(),
            final(self).cancelled() == old(self).cancelled(),
            final(self).deregistrations() == old(self).deregistrations(),
            final(self).registration() is None,
            !final(self).has_completion(),
            forall|entries: Seq<Entry>| #[trigger]
                moves(*old(self), *final(self), entries, entries, Move::Stays),
            final(self).waiting_refs().remove(event.token) == old(self).waiting_refs().remove(event.token),
            *final(final(self).waiting_refs()[event.token]) == *final(
                old(self).waiting_refs()[event.token]),
            exists|op: &mut O, flow: IoResult<ControlFlow<usize>>|
                {
                    &&& *op == old(self).waiting_ops()[event.token]
                    &&& #[trigger] call_ensures(O::on_event, (op, event), flow)
                    &&& final(self).waiting_ops() == old(self).waiting_ops().insert(
                        event.token,
                        *final(op),
                    )
                    &&& final(self).finishing() == match event_result(flow) {
                        Some(result) => Some(Finished { token: event.token, result }),
                        None => None,
                    }
                    &&& fd == match event_result(flow) {
                        Some(_) => Some(old(self).waits()[event.token].fd),
                        None => None,
                    }
                },
    {
        match self.waiting.remove(&event.token) {
            Some(mut entry) => {
                let flow = entry.op.on_event(event);
                let _ = self.waiting.insert(event.token, entry);
                assert(self.waits() =~= old(self).waits());
                assert(self.waiting_ops() =~= old(self).waiting_ops().insert(event.token, *entry.op));
                assert(self.waiting_refs().remove(event.token) =~= old(self).waiting_refs().remove(
                    event.token,
                ));
                self.settle_event(event.token, flow)
            },
            None => None,
        }
    }

    /// Takes the outcome of a deregistration. The operation waits no more, and is reported with its result,
    /// or with the error if its descriptor could not be deregistered.
    pub fn deregistered(&mut self, outcome: IoResult<()>, entries: &mut Vec<Entry>)
        requires
            old(self).wf(),
            old(self).finishing() is Some,
            old(self).registration() is None,
            !old(self).has_completion(),
        ensures
            final(self).wf(),
            final(self).idle(),
            final(self).limit() == old(self).limit(),
            final(self).clock() == old(self).clock(),
            final(self).to_report() == old(self).to_report(),
            final(self).squeue() == old(self).squeue(),
            final(self).timers() == old(self).timers(),
            final(self).cancelled() == old(self).cancelled(),
            final(self).deregistrations() == old(self).deregistrations(),
            final(self).waits() == old(self).waits().remove(old(self).finishing()->0.token),
            final(self).waiting_ops() == old(self).waiting_ops().remove(
                old(self).finishing()->0.token,
            ),
            final(self).waiting_refs() == old(self).waiting_refs().remove(
                old(self).finishing()->0.token,
            ),
            *final(old(self).waiting_refs()[old(self).finishing()->0.token]) == old(
                self,
            ).waiting_ops()[old(self).finishing()->0.token],
            final(entries)@ == old(entries)@.push(
                Entry {
                    user_data: old(self).finishing()->0.token,
                    result: match outcome {
                        Ok(()) => old(self).finishing()->0.result,
                        Err(error) => Err(error),
                    },
                },
            ),
            moves(
                *old(self),
                *final(self),
                old(entries)@,
                final(entries)@,
                Move::Finishes(
                    old(self).finishing()->0.token,
                    match outcome {
                        Ok(()) => old(self).finishing()->0.result,
                        Err(error) => Err(error),
                    },
                ),
            ),
    {
        match self.finished.take() {
            Some(finished) => {
                let result = match outcome {
                    Ok(()) => finished.result,
                    Err(error) => Err(error),
                };
                let _ = self.waiting.remove(&finished.token);
                assert(self.waits() =~= old(self).waits().remove(finished.token));
                assert(self.waiting_ops() =~= old(self).waiting_ops().remove(finished.token));
                assert(self.waiting_refs() =~= old(self).waiting_refs().remove(finished.token));
                entries.push(Entry::new(finished.token, result));
            },
            None => {},
        }
    }

    /// Hands out the descriptors of cancelled operations, to be deregistered. It does not matter whether that
    /// succeeds.
    pub fn take_deregistrations(&mut self) -> (fds: Vec<RawFd>)
        requires
            old(self).wf(),
            old(self).idle(),
        ensures
            final(self).wf(),
            final(self).idle(),
            final(self).limit() == old(self).limit(),
            final(self).clock() == old(self).clock(),
            final(self).to_report() == old(self).to_report(),
            final(self).squeue() == old(self).squeue(),
            final(self).timers() == old(self).timers(),
            final(self).waits() == old(self).waits(),
            final(self).waiting_ops() == old(self).waiting_ops(),
            final(self).waiting_refs() == old(self).waiting_refs(),
            final(self).cancelled() == old(self).cancelled(),
            final(self).deregistrations().len() == 0,
            fds@ == old(self).deregistrations(),
    {
        let mut fds: Vec<RawFd> = Vec::new();
        std::mem::swap(&mut fds, &mut self.to_deregister);
        fds
    }
}

impl<'arena, O: OpCode> CompleteIo<'arena, O> for Driver<'arena, O> {
    open spec fn inv(&self) -> bool {
        self.wf() && self.idle()
    }

    open spec fn capacity(&self) -> nat {
        self.limit()
    }

    open spec fn queued(&self) -> Seq<u64> {
        user_datas(self.squeue())
    }

    open spec fn accepts(_code: O) -> bool {
        true
    }

    open spec fn owes(&self, user_data: usize) -> bool {
        ||| has_key(self.squeue(), user_data)
        ||| self.waits().contains_key(user_data)
        ||| timer_runs(self.timers(), user_data)
        ||| self.to_report().contains(user_data)
    }

    fn try_cancel(&mut self, user_data: usize) -> (r: Result<(), ()>)
        ensures
            final(self).squeue() == old(self).squeue(),
            final(self).timers() == old(self).timers(),
            final(self).clock() == old(self).clock(),
            r is Ok && old(self).waits().contains_key(user_data) ==> {
                &&& final(self).waits() == old(self).waits().remove(user_data)
                &&& final(self).waiting_ops() == old(self).waiting_ops().remove(user_data)
                &&& final(self).waiting_refs() == old(self).waiting_refs().remove(user_data)
                &&& *final(old(self).waiting_refs()[user_data]) == old(self).waiting_ops()[user_data]
                &&& final(self).deregistrations() == old(self).deregistrations().push(
                    old(self).waits()[user_data].fd,
                )
                &&& final(self).to_report() == old(self).to_report().push(user_data)
                &&& final(self).cancelled() == old(self).cancelled()
            },
            r is Ok && !old(self).waits().contains_key(user_data) ==> {
                &&& final(self).waits() == old(self).waits()
                &&& final(self).waiting_ops() == old(self).waiting_ops()
                &&& final(self).waiting_refs() == old(self).waiting_refs()
                &&& final(self).deregistrations() == old(self).deregistrations()
                &&& final(self).to_report() == old(self).to_report()
                &&& final(self).cancelled() == old(self).cancelled().insert(user_data)
            },
            r is Ok && old(self).waits().contains_key(user_data) ==> forall|entries: Seq<Entry>| #[trigger]
                moves(*old(self), *final(self), entries, entries, Move::Cancels(user_data)),
            r is Err || !old(self).waits().contains_key(user_data) ==> forall|entries: Seq<Entry>| #[trigger]
                moves(*old(self), *final(self), entries, entries, Move::Stays),
    {
        if self.squeue.len() == self.entries {
            return Err(());
        }
        match self.waiting.remove(&user_data) {
            Some(entry) => {
                self.to_deregister.push(entry.arg.fd);
                self.to_report.push(user_data);
                proof {
                    assert(self.waits() =~= old(self).waits().remove(user_data));
                    assert(self.waiting_ops() =~= old(self).waiting_ops().remove(user_data));
                    assert(self.waiting_refs() =~= old(self).waiting_refs().remove(user_data));
                    lemma_cancelled_add(old(self).to_report(), seq![user_data]);
                    assert(seq![user_data][0] == user_data);
                    assert(self.to_report() =~= old(self).to_report() + seq![user_data]);
                }
            },
            None => {
                let _ = self.cancelled.insert(user_data);
                assert(self.waits() =~= old(self).waits());
                assert(self.waiting_ops() =~= old(self).waiting_ops());
                assert(self.waiting_refs() =~= old(self).waiting_refs());
            },
        }
        Ok(())
    }

    fn try_push(&mut self, op: Operation<'arena, O>) -> (r: Result<(), Operation<'arena, O>>)
        ensures
            final(self).waits() == old(self).waits(),
            final(self).waiting_ops() == old(self).waiting_ops(),
            final(self).waiting_refs() == old(self).waiting_refs(),
            final(self).cancelled() == old(self).cancelled(),
            final(self).deregistrations() == old(self).deregistrations(),
            final(self).timers() == old(self).timers(),
            final(self).clock() == old(self).clock(),
            final(self).to_report() == old(self).to_report(),
            r is Ok ==> {
                &&& final(self).squeue().len() == old(self).squeue().len() + 1
                &&& final(self).squeue().drop_last() == old(self).squeue()
                &&& final(self).squeue().last().code() == op.code()
                &&& final(self).squeue().last().user_data == op.user_data
                &&& *final(final(self).squeue().last().op) == *final(op.op)
            },
    {
        if self.capacity_left() > 0 {
            let object = OpObject::from(op);
            self.squeue.push_back(object);
            proof {
                assert(user_datas(self.squeue()) =~= user_datas(old(self).squeue()).push(
                    op.user_data as u64,
                ));
                assert(self.squeue() =~= old(self).squeue().push(object));
                assert(self.squeue().drop_last() =~= old(self).squeue());
                lemma_has_key_push(old(self).squeue(), object);
            }
            Ok(())
        } else {
            Err(op)
        }
    }

    fn try_push_dyn(&mut self, op: OpObject<'arena, O>) -> (r: Result<(), OpObject<'arena, O>>)
        ensures
            final(self).waits() == old(self).waits(),
            final(self).waiting_ops() == old(self).waiting_ops(),
            final(self).waiting_refs() == old(self).waiting_refs(),
            final(self).cancelled() == old(self).cancelled(),
            final(self).deregistrations() == old(self).deregistrations(),
            final(self).timers() == old(self).timers(),
            final(self).clock() == old(self).clock(),
            final(self).to_report() == old(self).to_report(),
            r is Ok ==> final(self).squeue() == old(self).squeue().push(op),
    {
        if self.capacity_left() > 0 {
            self.squeue.push_back(op);
            proof {
                assert(user_datas(self.squeue()) =~= user_datas(old(self).squeue()).push(
                    op.user_data as u64,
                ));
                lemma_has_key_push(old(self).squeue(), op);
            }
            Ok(())
        } else {
            Err(op)
        }
    }

    fn push_queue(&mut self, ops_queue: &mut VecDeque<OpObject<'arena, O>>)
        ensures
            final(self).waits() == old(self).waits(),
            final(self).waiting_ops() == old(self).waiting_ops(),
            final(self).waiting_refs() == old(self).waiting_refs(),
            final(self).cancelled() == old(self).cancelled(),
            final(self).deregistrations() == old(self).deregistrations(),
            final(self).timers() == old(self).timers(),
            final(self).clock() == old(self).clock(),
            final(self).to_report() == old(self).to_report(),
            final(self).squeue() + final(ops_queue)@ == old(self).squeue() + old(ops_queue)@,
    {
        let left: usize = self.capacity_left();
        let till: usize = if left < ops_queue.len() {
            left
        } else {
            ops_queue.len()
        };
        move_front(ops_queue, &mut self.squeue, till);
        proof {
            assert(user_datas(self.squeue()) =~= user_datas(old(self).squeue()) + user_datas(
                old(ops_queue)@.take(till as int),
            ));
            assert(self.squeue() + ops_queue@ =~= old(self).squeue() + old(ops_queue)@);
            lemma_has_key_add(old(self).squeue(), old(ops_queue)@.take(till as int));
        }
    }

    fn capacity_left(&self) -> (left: usize) {
        self.entries - self.squeue.len()
    }
}

} // verus!
