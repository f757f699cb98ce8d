//! The bookkeeping of a runtime: what is to run, what is to be submitted, and what was to be cancelled.
use vstd::prelude::*;

use std::collections::VecDeque;

use crate::driver::attempts::place;
use crate::driver::{least, user_datas, CompleteIo, Entry, OpObject};
use crate::error::{CallError, ErrorKind, IoError, IoResult};
use crate::key::Key;
use crate::poll::Poll;
use crate::task::op::{
    all_delivered, deliveries, polled, Delivered, OpFuture, OpRuntime,
};
use crate::task::slots::{fresh, OpToken, Ops, RegisteredOp, WakerToken};
use crate::time::Duration;

verus! {

/// What to do next to bring a task to its end.
#[derive(Debug)]
pub enum Step<R> {
    /// Run this.
    Run(R),
    /// The task is over: return its result.
    Return,
    /// Nothing can run: poll the driver.
    Poll,
}

/// What the outcome of a submission means for the runtime.
#[derive(Clone, Copy, Debug, PartialEq, Eq, Structural)]
pub enum Polled {
    /// All went well.
    Done,
    /// It took too long; that is worth a note.
    TimedOut,
    /// The runtime cannot go on.
    Fatal(IoError),
}

/// A runtime on top of a driver.
pub struct Runtime<'arena, O, D: CompleteIo<'arena, O>, R> {
    driver: D,
    runnables: VecDeque<R>,
    unqueued_operations: VecDeque<OpObject<'arena, O>>,
    unqueued_cancels: VecDeque<usize>,
    op_runtime: OpRuntime,
}

impl<'arena, O, D: CompleteIo<'arena, O>, R> Runtime<'arena, O, D, R> {
    /// The driver.
    pub closed spec fn driver(&self) -> D {
        self.driver
    }

    /// What is to run, in its order.
    pub closed spec fn runnables(&self) -> Seq<R> {
        self.runnables@
    }

    /// The operations that did not fit into the driver's submission queue, in their order.
    pub closed spec fn unqueued(&self) -> Seq<OpObject<'arena, O>> {
        self.unqueued_operations@
    }

    /// The user data of the operations whose cancellation the driver could not take yet.
    pub closed spec fn cancels(&self) -> Seq<usize> {
        self.unqueued_cancels@
    }

    /// The operations that are under way.
    pub closed spec fn ops(&self) -> Ops {
        self.op_runtime@
    }

    /// What holds of the runtime between two calls.
    pub open spec fn wf(&self) -> bool {
        &&& self.driver().inv()
        &&& all_accepted::<O, D>(self.unqueued())
    }

    /// Creates a runtime on top of a driver.
    pub fn new(driver: D) -> (runtime: Self)
        requires
            driver.inv(),
        ensures
            runtime.wf(),
            runtime.driver() == driver,
            runtime.runnables().len() == 0,
            runtime.unqueued().len() == 0,
            runtime.cancels().len() == 0,
            runtime.ops() == Ops::empty(),
    {
        Runtime {
            driver,
            runnables: VecDeque::new(),
            unqueued_operations: VecDeque::new(),
            unqueued_cancels: VecDeque::new(),
            op_runtime: OpRuntime::new(),
        }
    }

    /// The driver, to submit what it has queued.
    pub fn driver_mut(&mut self) -> (driver: &mut D)
        ensures
            *driver == old(self).driver(),
            final(self).driver() == *final(driver),
            final(self).runnables() == old(self).runnables(),
            final(self).unqueued() == old(self).unqueued(),
            final(self).cancels() == old(self).cancels(),
            final(self).ops() == old(self).ops(),
    {
        &mut self.driver
    }

    /// Schedules something to run after all that is scheduled already.
    pub fn schedule(&mut self, runnable: R)
        requires
            old(self).wf(),
        ensures
            final(self).wf(),
            final(self).driver() == old(self).driver(),
            final(self).runnables() == old(self).runnables().push(runnable),
            final(self).unqueued() == old(self).unqueued(),
            final(self).cancels() == old(self).cancels(),
            final(self).ops() == old(self).ops(),
    {
        self.runnables.push_back(runnable);
    }

    /// What to do next to bring a task to its end: everything that can run runs first, in its order. Then the
    /// task is over, if its result is there, and otherwise the driver is polled.
    pub fn block_on(&mut self, has_result: bool) -> (step: Step<R>)
        requires
            old(self).wf(),
        ensures
            final(self).wf(),
            final(self).driver() == old(self).driver(),
            final(self).unqueued() == old(self).unqueued(),
            final(self).cancels() == old(self).cancels(),
            final(self).ops() == old(self).ops(),
            old(self).runnables().len() > 0 ==> {
                &&& step == Step::Run(old(self).runnables()[0])
                &&& final(self).runnables() == old(self).runnables().skip(1)
            },
            old(self).runnables().len() == 0 ==> {
                &&& final(self).runnables() == old(self).runnables()
                &&& step == if has_result {
                    Step::<R>::Return
                } else {
                    Step::<R>::Poll
                }
            },
    {
        match self.runnables.pop_front() {
            Some(task) => {
                assert(self.runnables() =~= old(self).runnables().skip(1));
                Step::Run(task)
            },
            None => {
                if has_result {
                    Step::Return
                } else {
                    Step::Poll
                }
            },
        }
    }

    /// Submits an operation. It waits for its turn if it does not fit into the driver's submission queue.
    pub fn submit(&mut self, op: &'arena mut O, token: OpToken) -> (future: OpFuture<O>)
        requires
            old(self).wf(),
            D::accepts(*old(op)),
        ensures
            final(self).wf(),
            !future.completed(),
            !old(self).ops().contains_key(future.data()),
            final(self).ops() == old(self).ops().insert(future.data(), fresh(Some(token))),
            final(self).runnables() == old(self).runnables(),
            final(self).cancels() == old(self).cancels(),
            final(self).driver().capacity() == old(self).driver().capacity(),
            old(self).driver().queued().len() < old(self).driver().capacity() ==> {
                &&& final(self).driver().queued() == old(self).driver().queued().push(
                    future.data() as u64,
                )
                &&& final(self).unqueued() == old(self).unqueued()
                &&& exists|
                        driver: &mut D,
                        object: OpObject<'arena, O>,
                        pushed: Result<(), OpObject<'arena, O>>,
                    |
                    {
                        &&& *driver == old(self).driver()
                        &&& *final(driver) == final(self).driver()
                        &&& object.code() == *old(op)
                        &&& object.user_data == future.data()
                        &&& *final(object.op) == *final(op)
                        &&& pushed is Ok
                        &&& #[trigger] call_ensures(D::try_push_dyn, (driver, object), pushed)
                    }
            },
            old(self).driver().queued().len() >= old(self).driver().capacity() ==> {
                &&& final(self).driver() == old(self).driver()
                &&& final(self).unqueued().len() == old(self).unqueued().len() + 1
                &&& final(self).unqueued().drop_last() == old(self).unqueued()
                &&& final(self).unqueued().last().user_data == future.data()
                &&& final(self).unqueued().last().code() == *old(op)
                &&& *final(final(self).unqueued().last().op) == *final(op)
            },
    {
        let key: Key<O> = self.op_runtime.insert(token);
        let op_object = OpObject::new(op, key.user_data());
        let pushed = self.driver.try_push_dyn(op_object);
        match pushed {
            Ok(()) => {},
            Err(op_object) => {
                self.unqueued_operations.push_back(op_object);
                assert(self.unqueued().drop_last() =~= old(self).unqueued());
            },
        }
        OpFuture::new(key)
    }

    /// Registers a result to wait for that no operation stands behind.
    pub fn submit_dummy(&mut self) -> (key: Key<()>)
        requires
            old(self).wf(),
        ensures
            final(self).wf(),
            !old(self).ops().contains_key(key.data()),
            final(self).ops() == old(self).ops().insert(key.data(), fresh(None)),
            final(self).driver() == old(self).driver(),
            final(self).runnables() == old(self).runnables(),
            final(self).unqueued() == old(self).unqueued(),
            final(self).cancels() == old(self).cancels(),
    {
        self.op_runtime.insert_dummy()
    }

    /// Cancels an operation. If the driver cannot take the cancellation yet, it is kept for later.
    pub fn cancel_op<T>(&mut self, user_data: &Key<T>)
        requires
            old(self).wf(),
        ensures
            final(self).wf(),
            final(self).runnables() == old(self).runnables(),
            final(self).unqueued() == old(self).unqueued(),
            final(self).driver().capacity() == old(self).driver().capacity(),
            old(self).driver().queued().len() < old(self).driver().capacity() ==> {
                &&& exists|driver: &mut D, outcome: Result<(), ()>|
                    {
                        &&& *driver == old(self).driver()
                        &&& *final(driver) == final(self).driver()
                        &&& outcome is Ok
                        &&& #[trigger] call_ensures(
                            D::try_cancel,
                            (driver, user_data.data()),
                            outcome,
                        )
                    }
                &&& final(self).cancels() == old(self).cancels()
                &&& final(self).ops() == if old(self).ops().contains_key(user_data.data()) {
                    old(self).ops().insert(
                        user_data.data(),
                        RegisteredOp { cancelled: true, ..old(self).ops()[user_data.data()] },
                    )
                } else {
                    old(self).ops()
                }
            },
            old(self).driver().queued().len() >= old(self).driver().capacity() ==> {
                &&& final(self).driver() == old(self).driver()
                &&& final(self).cancels() == old(self).cancels().push(user_data.data())
                &&& final(self).ops() == old(self).ops()
            },
    {
        let taken = self.driver.try_cancel(user_data.user_data());
        match taken {
            Err(_) => {
                self.unqueued_cancels.push_back(user_data.user_data());
            },
            Ok(()) => {
                self.op_runtime.cancel(user_data);
            },
        }
    }

    /// The result of an operation and the operation, if the result is there. Otherwise the waker is set.
    pub fn poll_task<T>(&mut self, user_data: &Key<T>, waker: WakerToken) -> (r: Poll<
        (IoResult<usize>, OpToken),
    >)
        requires
            old(self).wf(),
            old(self).ops().contains_key(user_data.data()) && old(
                self,
            ).ops()[user_data.data()].result is Some ==> old(self).ops()[user_data.data()].op is Some,
        ensures
            final(self).wf(),
            final(self).driver() == old(self).driver(),
            final(self).runnables() == old(self).runnables(),
            final(self).unqueued() == old(self).unqueued(),
            final(self).cancels() == old(self).cancels(),
            polled(old(self).ops(), final(self).ops(), user_data.data(), waker, r is Ready),
            r matches Poll::Ready((result, op)) ==> {
                &&& old(self).ops()[user_data.data()].result == Some(result)
                &&& old(self).ops()[user_data.data()].op == Some(op)
            },
    {
        self.op_runtime.poll_task(user_data, waker)
    }

    /// Lets a future ask for its result and its operation.
    pub fn poll_future<T>(&mut self, future: &mut OpFuture<T>, waker: WakerToken) -> (r: Poll<
        (IoResult<usize>, OpToken),
    >)
        requires
            old(self).wf(),
            old(self).ops().contains_key(old(future).data()) && old(
                self,
            ).ops()[old(future).data()].result is Some ==> old(self).ops()[old(
                future,
            ).data()].op is Some,
        ensures
            final(self).wf(),
            final(self).driver() == old(self).driver(),
            final(self).runnables() == old(self).runnables(),
            final(self).unqueued() == old(self).unqueued(),
            final(self).cancels() == old(self).cancels(),
            final(future).data() == old(future).data(),
            final(future).completed() == (old(future).completed() || r is Ready),
            polled(old(self).ops(), final(self).ops(), old(future).data(), waker, r is Ready),
            r matches Poll::Ready((result, op)) ==> {
                &&& old(self).ops()[old(future).data()].result == Some(result)
                &&& old(self).ops()[old(future).data()].op == Some(op)
            },
    {
        future.poll(&mut self.op_runtime, waker)
    }

    /// The result that was waited for, if it is there. Otherwise the waker is set.
    pub fn poll_dummy(&mut self, user_data: &Key<()>, waker: WakerToken) -> (r: Poll<IoResult<usize>>)
        requires
            old(self).wf(),
        ensures
            final(self).wf(),
            final(self).driver() == old(self).driver(),
            final(self).runnables() == old(self).runnables(),
            final(self).unqueued() == old(self).unqueued(),
            final(self).cancels() == old(self).cancels(),
            polled(old(self).ops(), final(self).ops(), user_data.data(), waker, r is Ready),
            r matches Poll::Ready(result) ==> old(self).ops()[user_data.data()].result == Some(result),
    {
        self.op_runtime.poll_dummy(user_data, waker)
    }

    /// Hands the cancellations that were kept to the driver, in their order, until it cannot take one.
    fn retry_cancels(&mut self)
        requires
            old(self).wf(),
        ensures
            final(self).wf(),
            final(self).runnables() == old(self).runnables(),
            final(self).unqueued() == old(self).unqueued(),
            final(self).ops() == old(self).ops(),
            exists|drivers: Seq<D>|
                {
                    &&& #[trigger] cancels_retried(
                        old(self).driver(),
                        final(self).driver(),
                        old(self).cancels(),
                        final(self).cancels(),
                        drivers,
                    )
                    &&& forall|i: int| #[trigger]
                        place(i) && i < drivers.len() - 1 ==> exists|driver: &mut D, outcome: Result<(), ()>|
                            {
                                &&& *driver == drivers[i]
                                &&& *final(driver) == drivers[i + 1]
                                &&& outcome is Ok
                                &&& #[trigger] call_ensures(
                                    D::try_cancel,
                                    (driver, old(self).cancels()[i]),
                                    outcome,
                                )
                            }
                },
    {
        let ghost all = self.cancels();
        let ghost mut taken: int = 0;
        let ghost mut drivers: Seq<D> = seq![self.driver()];
        proof {
            assert(all.skip(0) =~= all);
        }
        loop
            invariant
                self.wf(),
                self.runnables() == old(self).runnables(),
                self.unqueued() == old(self).unqueued(),
                self.ops() == old(self).ops(),
                self.driver().capacity() == old(self).driver().capacity(),
                all == old(self).cancels(),
                0 <= taken <= all.len(),
                self.cancels() == all.skip(taken),
                drivers.len() == taken + 1,
                drivers[0] == old(self).driver(),
                drivers[taken] == self.driver(),
                forall|i: int| #[trigger]
                    place(i) && i < taken ==> exists|driver: &mut D, outcome: Result<(), ()>|
                        {
                            &&& *driver == drivers[i]
                            &&& *final(driver) == drivers[i + 1]
                            &&& outcome is Ok
                            &&& #[trigger] call_ensures(D::try_cancel, (driver, all[i]), outcome)
                        },
            ensures
                cancels_retried(
                    old(self).driver(),
                    self.driver(),
                    all,
                    self.cancels(),
                    drivers,
                ),
            decreases self.unqueued_cancels@.len(),
        {
            match self.unqueued_cancels.pop_front() {
                Some(user_data) => {
                    assert(user_data == all[taken]);
                    let ghost before = self.driver();
                    let ghost drivers_before = drivers;
                    let outcome = self.driver.try_cancel(user_data);
                    match outcome {
                        Err(_) => {
                            self.unqueued_cancels.push_front(user_data);
                            assert(self.cancels() =~= all.skip(taken));
                            break;
                        },
                        Ok(()) => {
                            proof {
                                assert(exists|driver: &mut D, outcome: Result<(), ()>|
                                    {
                                        &&& *driver == before
                                        &&& *final(driver) == self.driver()
                                        &&& outcome is Ok
                                        &&& #[trigger] call_ensures(
                                            D::try_cancel,
                                            (driver, user_data),
                                            outcome,
                                        )
                                    });
                                drivers = drivers.push(self.driver());
                                assert forall|i: int| #[trigger]
                                    place(i) && i < taken + 1 implies exists|
                                    driver: &mut D,
                                    outcome: Result<(), ()>,
                                |
                                    {
                                        &&& *driver == drivers[i]
                                        &&& *final(driver) == drivers[i + 1]
                                        &&& outcome is Ok
                                        &&& #[trigger] call_ensures(
                                            D::try_cancel,
                                            (driver, all[i]),
                                            outcome,
                                        )
                                    } by {
                                    if i < taken {
                                        assert(drivers[i] == drivers_before[i] && drivers[i + 1]
                                            == drivers_before[i + 1]);
                                    } else {
                                        assert(drivers[i] == before && drivers[i + 1] == self.driver());
                                    }
                                }
                                taken = taken + 1;
                                assert(self.cancels() =~= all.skip(taken));
                            }
                        },
                    }
                },
                None => {
                    break;
                },
            }
        }
    }

    /// Prepares a poll of the driver: hands it the cancellations and the operations that were kept, as far as it
    /// takes them, and says how long to wait. If operations are left, there is no waiting, so that they get
    /// their turn soon; otherwise the wait is as long as `idle_timeout` says.
    ///
    /// The driver goes from one state to the next by [`CompleteIo::try_cancel`], once for each cancellation that
    /// it takes, and then by [`CompleteIo::push_queue`].
    pub fn poll(&mut self, idle_timeout: Option<Duration>) -> (timeout: Option<Duration>)
        requires
            old(self).wf(),
        ensures
            final(self).wf(),
            final(self).runnables() == old(self).runnables(),
            final(self).ops() == old(self).ops(),
            final(self).driver().capacity() == old(self).driver().capacity(),
            exists|mid: D, drivers: Seq<D>|
                {
                    &&& #[trigger] cancels_retried(
                        old(self).driver(),
                        mid,
                        old(self).cancels(),
                        final(self).cancels(),
                        drivers,
                    )
                    &&& forall|i: int| #[trigger]
                        place(i) && i < drivers.len() - 1 ==> exists|driver: &mut D, outcome: Result<(), ()>|
                            {
                                &&& *driver == drivers[i]
                                &&& *final(driver) == drivers[i + 1]
                                &&& outcome is Ok
                                &&& #[trigger] call_ensures(
                                    D::try_cancel,
                                    (driver, old(self).cancels()[i]),
                                    outcome,
                                )
                            }
                    &&& operations_pushed(
                        mid,
                        final(self).driver(),
                        old(self).unqueued(),
                        final(self).unqueued(),
                    )
                    &&& exists|driver: &mut D, ops: &mut VecDeque<OpObject<'arena, O>>|
                        {
                            &&& *driver == mid
                            &&& *final(driver) == final(self).driver()
                            &&& ops@ == old(self).unqueued()
                            &&& final(ops)@ == final(self).unqueued()
                            &&& #[trigger] call_ensures(D::push_queue, (driver, ops), ())
                        }
                },
            final(self).unqueued().len() > 0 ==> timeout is Some && timeout->0@ == 0,
            final(self).unqueued().len() == 0 ==> timeout == idle_timeout,
    {
        self.retry_cancels();
        let ghost mid = self.driver();
        self.driver.push_queue(&mut self.unqueued_operations);
        proof {
            let drivers = choose|drivers: Seq<D>|
                {
                    &&& #[trigger] cancels_retried(
                        old(self).driver(),
                        mid,
                        old(self).cancels(),
                        self.cancels(),
                        drivers,
                    )
                    &&& forall|i: int| #[trigger]
                        place(i) && i < drivers.len() - 1 ==> exists|driver: &mut D, outcome: Result<(), ()>|
                            {
                                &&& *driver == drivers[i]
                                &&& *final(driver) == drivers[i + 1]
                                &&& outcome is Ok
                                &&& #[trigger] call_ensures(
                                    D::try_cancel,
                                    (driver, old(self).cancels()[i]),
                                    outcome,
                                )
                            }
                };
            assert(cancels_retried(
                old(self).driver(),
                mid,
                old(self).cancels(),
                self.cancels(),
                drivers,
            ));
            assert(operations_pushed(mid, self.driver(), old(self).unqueued(), self.unqueued()));
        }
        if self.unqueued_operations.len() > 0 {
            // busy loop to push outstanding work
            Some(Duration::zero())
        } else {
            idle_timeout
        }
    }

    /// Takes the results that a poll of the driver has brought.
    pub fn complete(&mut self, entries: &Vec<Entry>) -> (all: Vec<Delivered>)
        requires
            old(self).wf(),
        ensures
            final(self).wf(),
            final(self).driver() == old(self).driver(),
            final(self).runnables() == old(self).runnables(),
            final(self).unqueued() == old(self).unqueued(),
            final(self).cancels() == old(self).cancels(),
            final(self).ops() == all_delivered(old(self).ops(), entries@),
            all@ == deliveries(old(self).ops(), entries@),
    {
        self.op_runtime.extend(entries)
    }

    /// What the outcome of a poll of the driver means.
    pub fn poll_result(outcome: Result<(), CallError>) -> (r: Polled)
        ensures
            r == match outcome {
                Ok(()) => Polled::Done,
                Err(error) => if error.kind == ErrorKind::TimedOut {
                    Polled::TimedOut
                } else {
                    Polled::Fatal(IoError::Os(error.code))
                },
            },
    {
        match outcome {
            Ok(()) => Polled::Done,
            Err(error) => {
                if error.kind == ErrorKind::TimedOut {
                    Polled::TimedOut
                } else {
                    Polled::Fatal(IoError::Os(error.code))
                }
            },
        }
    }
}

/// The driver accepts all the operations.
pub open spec fn all_accepted<'arena, O, D: CompleteIo<'arena, O>>(
    ops: Seq<OpObject<'arena, O>>,
) -> bool {
    forall|i: int| 0 <= i < ops.len() ==> D::accepts((#[trigger] ops[i]).code())
}

/// Cancellations were handed to the driver in their order, which took it through `drivers`, and those that are
/// left were left because its submission queue was full.
pub open spec fn cancels_retried<'arena, O, D: CompleteIo<'arena, O>>(
    driver_before: D,
    driver_after: D,
    before: Seq<usize>,
    after: Seq<usize>,
    drivers: Seq<D>,
) -> bool {
    &&& after.len() <= before.len()
    &&& after == before.skip(before.len() - after.len())
    &&& drivers.len() == before.len() - after.len() + 1
    &&& drivers[0] == driver_before
    &&& drivers.last() == driver_after
    &&& driver_after.capacity() == driver_before.capacity()
    &&& after.len() > 0 ==> driver_after.queued().len() >= driver_after.capacity()
}

/// Operations were handed to the driver in their order, as many as its submission queue took.
pub open spec fn operations_pushed<'arena, O, D: CompleteIo<'arena, O>>(
    before: D,
    after: D,
    unqueued_before: Seq<OpObject<'arena, O>>,
    unqueued_after: Seq<OpObject<'arena, O>>,
) -> bool {
    let till = least((before.capacity() - before.queued().len()) as nat, unqueued_before.len()) as int;
    &&& after.queued() == before.queued() + user_datas(unqueued_before.take(till))
    &&& unqueued_after == unqueued_before.skip(till)
}

} // verus!
