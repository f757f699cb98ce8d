//! The platform-specific drivers and what they have in common.
pub mod attempts;
pub mod bits;
pub mod iocp;
pub mod iour;
pub mod kqueue;
pub mod mio;
pub mod queue;
pub mod tally;
pub mod time;
pub mod unix;

use vstd::prelude::*;

use std::collections::VecDeque;

use crate::error::IoResult;

verus! {

/// The smaller of two numbers.
pub open spec fn least(a: nat, b: nat) -> nat {
    if a < b {
        a
    } else {
        b
    }
}

/// The user data of queued operations, the front of the queue first.
pub open spec fn user_datas<'arena, O>(ops: Seq<OpObject<'arena, O>>) -> Seq<u64> {
    ops.map_values(|op: OpObject<'arena, O>| op.user_data as u64)
}

/// One of the operations has this user data.
pub open spec fn has_key<'arena, O>(ops: Seq<OpObject<'arena, O>>, user_data: usize) -> bool {
    exists|i: int| 0 <= i < ops.len() && (#[trigger] ops[i]).user_data == user_data
}

/// The operations as they stand, the front of the queue first.
pub open spec fn codes<'arena, O>(ops: Seq<OpObject<'arena, O>>) -> Seq<O> {
    ops.map_values(|op: OpObject<'arena, O>| op.code())
}

/// An abstract of the drivers: the submission side of completion-based I/O.
///
/// A driver has a submission queue of fixed size. The driver could hold references into I/O buffers. Their
/// lifetime is `'arena`.
pub trait CompleteIo<'arena, O>: Sized {
    /// What holds of a driver between two calls.
    spec fn inv(&self) -> bool;

    /// How many submissions the queue holds when it is full.
    spec fn capacity(&self) -> nat;

    /// The user data of the queued submissions, the front of the queue first.
    spec fn queued(&self) -> Seq<u64>;

    /// What an operation has to be like to be pushed.
    spec fn accepts(code: O) -> bool;

    /// The driver holds something under this user data that it is still to output. What was handed over to the
    /// system is the system's to report.
    spec fn owes(&self, user_data: usize) -> bool;

    /// Tries to cancel an operation with the pushed user-defined data.
    ///
    /// If the submission queue is full the error is returned. The caller should queue the cancelation request
    /// or submit queued entries first.
    ///
    /// If the cancellation is not possible the operation will run till completed.
    ///
    /// When an operation is cancelled or completed successfully `submit` will output it: a cancellation loses
    /// no operation.
    fn try_cancel(&mut self, user_data: usize) -> (r: Result<(), ()>)
        requires
            old(self).inv(),
        ensures
            final(self).inv(),
            final(self).capacity() == old(self).capacity(),
            r is Err <==> old(self).queued().len() >= old(self).capacity(),
            r is Err ==> *final(self) == *old(self),
            forall|u: usize| old(self).owes(u) ==> #[trigger] final(self).owes(u),
    ;

    /// Tries to push an operation into the submission queue.
    ///
    /// If the queue is full the submitted operation is returned as an error. The caller could use an external
    /// queue to keep unqueued operations.
    fn try_push(&mut self, op: Operation<'arena, O>) -> (r: Result<(), Operation<'arena, O>>)
        requires
            old(self).inv(),
            Self::accepts(op.code()),
        ensures
            final(self).inv(),
            final(self).capacity() == old(self).capacity(),
            old(self).queued().len() < old(self).capacity() ==> r is Ok && final(self).queued() == old(
                self,
            ).queued().push(op.user_data as u64),
            old(self).queued().len() >= old(self).capacity() ==> r == Err::<(), _>(op) && *final(self)
                == *old(self),
            r is Ok ==> forall|u: usize|
                old(self).owes(u) || u == op.user_data ==> #[trigger] final(self).owes(u),
    ;

    /// Tries to push an operation object into the submission queue.
    fn try_push_dyn(&mut self, op: OpObject<'arena, O>) -> (r: Result<(), OpObject<'arena, O>>)
        requires
            old(self).inv(),
            Self::accepts(op.code()),
        ensures
            final(self).inv(),
            final(self).capacity() == old(self).capacity(),
            old(self).queued().len() < old(self).capacity() ==> r is Ok && final(self).queued() == old(
                self,
            ).queued().push(op.user_data as u64),
            old(self).queued().len() >= old(self).capacity() ==> r == Err::<(), _>(op) && *final(self)
                == *old(self),
            r is Ok ==> forall|u: usize|
                old(self).owes(u) || u == op.user_data ==> #[trigger] final(self).owes(u),
    ;

    /// Pushes multiple operations into the submission queue from an external queue.
    ///
    /// After the push the external queue holds the operations that didn't fit into the submission queue.
    fn push_queue(&mut self, ops_queue: &mut VecDeque<OpObject<'arena, O>>)
        requires
            old(self).inv(),
            forall|i: int|
                0 <= i < old(ops_queue)@.len() ==> Self::accepts((#[trigger] old(ops_queue)@[i]).code()),
        ensures
            final(self).inv(),
            final(self).capacity() == old(self).capacity(),
            ({
                let till = least(
                    (old(self).capacity() - old(self).queued().len()) as nat,
                    old(ops_queue)@.len(),
                ) as int;
                &&& final(self).queued() == old(self).queued() + user_datas(old(ops_queue)@.take(till))
                &&& final(ops_queue)@ == old(ops_queue)@.skip(till)
                &&& forall|u: usize|
                    old(self).owes(u) || has_key(old(ops_queue)@.take(till), u)
                        ==> #[trigger] final(self).owes(u)
            }),
    ;

    /// Returns the submission queue capacity left for pushing.
    fn capacity_left(&self) -> (left: usize)
        requires
            self.inv(),
        ensures
            self.queued().len() <= self.capacity(),
            left == self.capacity() - self.queued().len(),
    ;
}

/// Pushing from an external queue loses no operation and changes no order: what the submission queue then holds,
/// followed by what is left outside, is what both held before. The submission queue never overflows, and
/// something is left outside only when it is full.
pub proof fn law_push_queue_loses_nothing<'arena, O>(
    queued: Seq<u64>,
    capacity: nat,
    ops: Seq<OpObject<'arena, O>>,
)
    requires
        queued.len() <= capacity,
    ensures
        ({
            let till = least((capacity - queued.len()) as nat, ops.len()) as int;
            let pushed = queued + user_datas(ops.take(till));
            &&& pushed + user_datas(ops.skip(till)) == queued + user_datas(ops)
            &&& pushed.len() <= capacity
            &&& ops.skip(till).len() > 0 ==> pushed.len() == capacity
        }),
{
    let till = least((capacity - queued.len()) as nat, ops.len()) as int;
    assert(queued + user_datas(ops.take(till)) + user_datas(ops.skip(till)) =~= queued + user_datas(
        ops,
    ));
}

/// An operation with a unique user-defined data.
pub struct Operation<'a, O> {
    /// The operation.
    pub op: &'a mut O,
    /// The user-defined data.
    pub user_data: usize,
}

impl<'a, O> Operation<'a, O> {
    /// The operation as it stands.
    pub open spec fn code(&self) -> O {
        *self.op
    }

    /// Creates an [`Operation`].
    pub fn new(op: &'a mut O, user_data: usize) -> (r: Self)
        ensures
            r.code() == *old(op),
            r.user_data == user_data,
            *final(op) == *final(r.op),
    {
        Operation { op, user_data }
    }

    /// Gets the opcode.
    pub fn opcode(&mut self) -> (op: &mut O)
        ensures
            *op == old(self).code(),
            final(self).code() == *final(op),
            final(self).user_data == old(self).user_data,
            *final(final(self).op) == *final(old(self).op),
    {
        self.op
    }

    /// Gets the user-defined data.
    pub fn user_data(&self) -> (user_data: usize)
        ensures
            user_data == self.user_data,
    {
        self.user_data
    }
}

/// An operation object with a unique user-defined data, the form in which a driver queues it.
pub struct OpObject<'a, O> {
    /// The operation.
    pub op: &'a mut O,
    /// The user-defined data.
    pub user_data: usize,
}

impl<'a, O> OpObject<'a, O> {
    /// The operation as it stands.
    pub open spec fn code(&self) -> O {
        *self.op
    }

    /// Creates an [`OpObject`].
    pub fn new(op: &'a mut O, user_data: usize) -> (r: Self)
        ensures
            r.code() == *old(op),
            r.user_data == user_data,
            *final(op) == *final(r.op),
    {
        OpObject { op, user_data }
    }

    /// Gets the opcode to change it.
    pub fn opcode(&mut self) -> (op: &mut O)
        ensures
            *op == old(self).code(),
            final(self).code() == *final(op),
            final(self).user_data == old(self).user_data,
            *final(final(self).op) == *final(old(self).op),
    {
        self.op
    }

    /// Gets the opcode to look at it.
    pub fn opcode_ref(&self) -> (op: &O)
        ensures
            *op == self.code(),
    {
        self.op
    }

    /// Gets the user-defined data.
    pub fn user_data(&self) -> (user_data: usize)
        ensures
            user_data == self.user_data,
    {
        self.user_data
    }
}

impl<'a, O> From<(&'a mut O, usize)> for Operation<'a, O> {
    fn from(other: (&'a mut O, usize)) -> (r: Self)
        ensures
            r.user_data == other.1,
            r.code() == *old(other.0),
            *final(r.op) == *final(other.0),
    {
        Operation::new(other.0, other.1)
    }
}

impl<'a, O> vstd::std_specs::convert::FromSpecImpl<(&'a mut O, usize)> for Operation<'a, O> {
    open spec fn obeys_from_spec() -> bool {
        false
    }

    open spec fn from_spec(other: (&'a mut O, usize)) -> Self {
        arbitrary()
    }
}

impl<'a, O> From<(&'a mut O, usize)> for OpObject<'a, O> {
    fn from(other: (&'a mut O, usize)) -> (r: Self)
        ensures
            r.user_data == other.1,
            r.code() == *old(other.0),
            *final(r.op) == *final(other.0),
    {
        OpObject::new(other.0, other.1)
    }
}

impl<'a, O> vstd::std_specs::convert::FromSpecImpl<(&'a mut O, usize)> for OpObject<'a, O> {
    open spec fn obeys_from_spec() -> bool {
        false
    }

    open spec fn from_spec(other: (&'a mut O, usize)) -> Self {
        arbitrary()
    }
}

impl<'a, O> From<Operation<'a, O>> for (&'a mut O, usize) {
    fn from(other: Operation<'a, O>) -> (r: Self)
        ensures
            r.1 == other.user_data,
            *r.0 == other.code(),
            *final(r.0) == *final(other.op),
    {
        (other.op, other.user_data)
    }
}

impl<'a, O> vstd::std_specs::convert::FromSpecImpl<Operation<'a, O>> for (&'a mut O, usize) {
    open spec fn obeys_from_spec() -> bool {
        false
    }

    open spec fn from_spec(other: Operation<'a, O>) -> Self {
        arbitrary()
    }
}

impl<'a, O> From<Operation<'a, O>> for OpObject<'a, O> {
    fn from(other: Operation<'a, O>) -> (r: Self)
        ensures
            r.user_data == other.user_data,
            r.code() == other.code(),
            *final(r.op) == *final(other.op),
    {
        OpObject::new(other.op, other.user_data)
    }
}

impl<'a, O> vstd::std_specs::convert::FromSpecImpl<Operation<'a, O>> for OpObject<'a, O> {
    open spec fn obeys_from_spec() -> bool {
        false
    }

    open spec fn from_spec(other: Operation<'a, O>) -> Self {
        arbitrary()
    }
}

impl<'a, O> From<OpObject<'a, O>> for (&'a mut O, usize) {
    fn from(other: OpObject<'a, O>) -> (r: Self)
        ensures
            r.1 == other.user_data,
            *r.0 == other.code(),
            *final(r.0) == *final(other.op),
    {
        (other.op, other.user_data)
    }
}

impl<'a, O> vstd::std_specs::convert::FromSpecImpl<OpObject<'a, O>> for (&'a mut O, usize) {
    open spec fn obeys_from_spec() -> bool {
        false
    }

    open spec fn from_spec(other: OpObject<'a, O>) -> Self {
        arbitrary()
    }
}

/// A completed entry returned from the kernel.
#[derive(Clone, Copy, Debug)]
pub struct Entry {
    /// The user-defined data of the operation.
    pub user_data: usize,
    /// What the operation came to.
    pub result: IoResult<usize>,
}

impl Entry {
    /// Creates an entry for an operation that has come to a result.
    pub fn new(user_data: usize, result: IoResult<usize>) -> (e: Self)
        ensures
            e == (Entry { user_data, result }),
    {
        Entry { user_data, result }
    }

    /// The user-defined data passed to [`Operation`].
    pub fn user_data(&self) -> (user_data: usize)
        ensures
            user_data == self.user_data,
    {
        self.user_data
    }

    /// The result of the operation.
    pub fn into_result(self) -> (result: IoResult<usize>)
        ensures
            result == self.result,
    {
        self.result
    }
}

/// An operation is pushed to the back of the submission queue, under its user data, and what was queued before stays in
/// front of it. It is handed back, and nothing changes, exactly if the queue is full.
pub proof fn law_push_goes_to_the_back<'arena, O, D: CompleteIo<'arena, O>>(
    before: D,
    op: Operation<'arena, O>,
    object: OpObject<'arena, O>,
)
    requires
        before.inv(),
        D::accepts(op.code()),
        D::accepts(object.code()),
    ensures
        forall|driver: &mut D, r: Result<(), Operation<'arena, O>>|
            *driver == before && #[trigger] call_ensures(D::try_push, (driver, op), r) ==> {
                &&& r is Ok <==> before.queued().len() < before.capacity()
                &&& r is Ok ==> {
                    &&& final(driver).queued().len() == before.queued().len() + 1
                    &&& final(driver).queued().last() == op.user_data
                    &&& forall|i: int|
                        0 <= i < before.queued().len() ==> #[trigger] final(driver).queued()[i]
                            == before.queued()[i]
                    &&& final(driver).owes(op.user_data)
                }
                &&& r matches Err(back) ==> back == op && *final(driver) == before
                &&& final(driver).capacity() == before.capacity()
            },
        forall|driver: &mut D, r: Result<(), OpObject<'arena, O>>|
            *driver == before && #[trigger] call_ensures(D::try_push_dyn, (driver, object), r) ==> {
                &&& r is Ok <==> before.queued().len() < before.capacity()
                &&& r is Ok ==> {
                    &&& final(driver).queued().len() == before.queued().len() + 1
                    &&& final(driver).queued().last() == object.user_data
                    &&& forall|i: int|
                        0 <= i < before.queued().len() ==> #[trigger] final(driver).queued()[i]
                            == before.queued()[i]
                    &&& final(driver).owes(object.user_data)
                }
                &&& r matches Err(back) ==> back == object && *final(driver) == before
                &&& final(driver).capacity() == before.capacity()
            },
{
}

/// A driver says exactly how many more operations it takes: that many can be pushed, and not one more.
pub proof fn law_capacity_left_is_what_can_be_pushed<'arena, O, D: CompleteIo<'arena, O>>(driver: D, left: usize)
    requires
        driver.inv(),
        call_ensures(D::capacity_left, (&driver,), left),
    ensures
        left + driver.queued().len() == driver.capacity(),
        left == 0 <==> driver.queued().len() >= driver.capacity(),
{
}

/// A cancellation is refused exactly if the submission queue is full, and then nothing changes. No cancellation makes a
/// driver forget what it is still to output.
pub proof fn law_cancellation_is_refused_by_a_full_queue<'arena, O, D: CompleteIo<'arena, O>>(
    before: D,
    user_data: usize,
    owed: usize,
)
    requires
        before.inv(),
    ensures
        forall|driver: &mut D, r: Result<(), ()>|
            *driver == before && #[trigger] call_ensures(D::try_cancel, (driver, user_data), r) ==> {
                &&& r is Err <==> before.queued().len() >= before.capacity()
                &&& r is Err ==> *final(driver) == before
                &&& before.owes(owed) ==> final(driver).owes(owed)
                &&& final(driver).capacity() == before.capacity()
            },
{
}

/// As many operations as fit are taken from the front of an external queue, in its order, and put at the back of the
/// submission queue; the rest stays outside.
pub proof fn law_external_queue_is_taken_from_the_front<'arena, O, D: CompleteIo<'arena, O>>(
    before: D,
    outside: Seq<OpObject<'arena, O>>,
)
    requires
        before.inv(),
        before.queued().len() <= before.capacity(),
        forall|i: int| 0 <= i < outside.len() ==> D::accepts((#[trigger] outside[i]).code()),
    ensures
        forall|driver: &mut D, ops: &mut VecDeque<OpObject<'arena, O>>|
            *driver == before && ops@ == outside && #[trigger] call_ensures(D::push_queue, (driver, ops), ()) ==> {
                let taken = final(driver).queued().len() - before.queued().len();
                &&& 0 <= taken <= outside.len()
                &&& final(driver).queued().len() <= before.capacity()
                &&& taken == outside.len() || final(driver).queued().len() == before.capacity()
                &&& final(ops)@ == outside.skip(taken)
                &&& forall|i: int|
                    0 <= i < before.queued().len() ==> #[trigger] final(driver).queued()[i] == before.queued()[i]
                &&& forall|i: int|
                    0 <= i < taken ==> #[trigger] final(driver).queued()[before.queued().len() + i]
                        == outside[i].user_data
            },
{
}

/// An entry says what it was made with, and so does an operation, however it is turned around.
pub proof fn law_entries_and_operations_say_what_they_were_made_with(
    user_data: usize,
    result: IoResult<usize>,
    entry: Entry,
    key: usize,
    outcome: IoResult<usize>,
)
    requires
        call_ensures(Entry::new, (user_data, result), entry),
        call_ensures(Entry::user_data, (&entry,), key),
        call_ensures(Entry::into_result, (entry,), outcome),
    ensures
        key == user_data,
        outcome == result,
        entry.user_data == user_data,
        entry.result == result,
{
}

/// An operation object is the operation that it was made of, under the same user data.
pub proof fn law_operation_objects<'a, O>(op: Operation<'a, O>, object: OpObject<'a, O>)
    requires
        call_ensures(<OpObject<'a, O> as From<Operation<'a, O>>>::from, (op,), object),
    ensures
        object.user_data == op.user_data,
        object.code() == op.code(),
        forall|key: usize| #[trigger]
            call_ensures(OpObject::<'a, O>::user_data, (&object,), key) ==> key == op.user_data,
        forall|key: usize| #[trigger]
            call_ensures(Operation::<'a, O>::user_data, (&op,), key) ==> key == op.user_data,
{
}

/// An operation is put together with its user data and taken apart again without being changed.
pub proof fn law_operations_are_put_together<'a, O>(user_data: usize)
    ensures
        forall|op: &'a mut O, made: Operation<'a, O>| #[trigger]
            call_ensures(Operation::<'a, O>::new, (op, user_data), made) ==> made.user_data == user_data && made.code()
                == *op && *final(made.op) == *final(op),
        forall|op: &'a mut O, made: OpObject<'a, O>| #[trigger]
            call_ensures(OpObject::<'a, O>::new, (op, user_data), made) ==> made.user_data == user_data && made.code()
                == *op && *final(made.op) == *final(op),
        forall|object: OpObject<'a, O>, code: &O| #[trigger]
            call_ensures(OpObject::<'a, O>::opcode_ref, (&object,), code) ==> *code == object.code(),
        forall|object: OpObject<'a, O>, parts: (&'a mut O, usize)| #[trigger]
            call_ensures(<(&'a mut O, usize) as From<OpObject<'a, O>>>::from, (object,), parts) ==> parts.1
                == object.user_data && *parts.0 == object.code(),
        forall|op: Operation<'a, O>, parts: (&'a mut O, usize)| #[trigger]
            call_ensures(<(&'a mut O, usize) as From<Operation<'a, O>>>::from, (op,), parts) ==> parts.1
                == op.user_data && *parts.0 == op.code(),
{
}

} // verus!
