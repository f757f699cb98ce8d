//! The results of operations, and the futures that wait for them.
use vstd::prelude::*;

use slab::Slab;

use crate::driver::Entry;
use crate::error::IoResult;
use crate::key::Key;
use crate::poll::Poll;
use crate::task::slots::{
    fresh, slab_get_mut, slab_insert, slab_new, slab_remove, slots, OpToken, Ops, RegisteredOp, WakerToken,
};

verus! {

/// What the arrival of a result asks for.
#[derive(Clone, Copy, Debug, PartialEq, Eq, Structural)]
pub struct Delivered {
    /// Wake this waker.
    pub woken: Option<WakerToken>,
    /// Drop this operation: nobody waits for it.
    pub dropped: Option<OpToken>,
}

/// The operations after a result has arrived: it is kept for whoever waits for it, unless nobody does.
pub open spec fn delivered(ops: Ops, entry: Entry) -> Ops {
    if !ops.contains_key(entry.user_data) {
        ops
    } else if ops[entry.user_data].cancelled {
        ops.remove(entry.user_data)
    } else {
        ops.insert(
            entry.user_data,
            RegisteredOp {
                waker: None,
                result: Some(entry.result),
                ..ops[entry.user_data]
            },
        )
    }
}

/// What the arrival of a result asks for.
pub open spec fn delivery(ops: Ops, user_data: usize) -> Delivered {
    if !ops.contains_key(user_data) {
        Delivered { woken: None, dropped: None }
    } else {
        Delivered {
            woken: ops[user_data].waker,
            dropped: if ops[user_data].cancelled {
                ops[user_data].op
            } else {
                None
            },
        }
    }
}

/// The operations after results have arrived, one after the other.
pub open spec fn all_delivered(ops: Ops, entries: Seq<Entry>) -> Ops
    decreases entries.len(),
{
    if entries.len() == 0 {
        ops
    } else {
        delivered(all_delivered(ops, entries.drop_last()), entries.last())
    }
}

/// What the arrival of results, one after the other, asks for.
pub open spec fn deliveries(ops: Ops, entries: Seq<Entry>) -> Seq<Delivered> {
    Seq::new(
        entries.len(),
        |i: int| delivery(all_delivered(ops, entries.take(i)), entries[i].user_data),
    )
}

/// The operations that are under way, and their results.
pub struct OpRuntime {
    ops: Slab<RegisteredOp>,
}

impl View for OpRuntime {
    type V = Ops;

    closed spec fn view(&self) -> Ops {
        slots(self.ops)
    }
}

impl OpRuntime {
    /// There are no operations.
    pub fn new() -> (runtime: Self)
        ensures
            runtime@ == Ops::empty(),
    {
        OpRuntime { ops: slab_new() }
    }

    /// Registers an operation.
    pub fn insert<T>(&mut self, op: OpToken) -> (key: Key<T>)
        ensures
            !old(self)@.contains_key(key.data()),
            final(self)@ == old(self)@.insert(key.data(), fresh(Some(op))),
    {
        Key::new(slab_insert(&mut self.ops, RegisteredOp::new(Some(op))))
    }

    /// Registers a result to wait for that no operation stands behind.
    pub fn insert_dummy(&mut self) -> (key: Key<()>)
        ensures
            !old(self)@.contains_key(key.data()),
            final(self)@ == old(self)@.insert(key.data(), fresh(None)),
    {
        Key::new_dummy(slab_insert(&mut self.ops, RegisteredOp::new(None)))
    }

    /// Sets the waker to be woken when the result is there, and returns the one that it takes the place of.
    /// The waker is handed back if there is no such operation.
    pub fn update_waker<T>(&mut self, key: &Key<T>, waker: WakerToken) -> (replaced: Option<WakerToken>)
        ensures
            old(self)@.contains_key(key.data()) ==> {
                &&& final(self)@ == old(self)@.insert(
                    key.data(),
                    RegisteredOp { waker: Some(waker), ..old(self)@[key.data()] },
                )
                &&& replaced == old(self)@[key.data()].waker
            },
            !old(self)@.contains_key(key.data()) ==> final(self)@ == old(self)@ && replaced == Some(waker),
    {
        match slab_get_mut(&mut self.ops, key.user_data()) {
            Some(op) => {
                let replaced = op.waker;
                op.waker = Some(waker);
                replaced
            },
            None => Some(waker),
        }
    }

    /// Takes the result of an operation. It is kept for whoever waits for it; if nobody does, the operation is
    /// over.
    pub fn update_result<T>(&mut self, key: &Key<T>, result: IoResult<usize>) -> (delivered_to: Delivered)
        ensures
            final(self)@ == delivered(old(self)@, (Entry { user_data: key.data(), result })),
            delivered_to == delivery(old(self)@, key.data()),
    {
        let mut woken: Option<WakerToken> = None;
        let mut cancelled = false;
        match slab_get_mut(&mut self.ops, key.user_data()) {
            Some(op) => {
                woken = op.waker;
                op.waker = None;
                op.result = Some(result);
                cancelled = op.cancelled;
            },
            None => {},
        }
        let mut dropped: Option<OpToken> = None;
        if cancelled {
            let (_, op) = self.remove(key);
            dropped = op;
        }
        assert(self@ =~= delivered(old(self)@, (Entry { user_data: key.data(), result })));
        Delivered { woken, dropped }
    }

    /// Whether the result of an operation is there.
    pub fn has_result<T>(&mut self, key: &Key<T>) -> (there: bool)
        ensures
            final(self)@ == old(self)@,
            there == (old(self)@.contains_key(key.data()) && old(self)@[key.data()].result is Some),
    {
        match slab_get_mut(&mut self.ops, key.user_data()) {
            Some(op) => {
                let there = op.result.is_some();
                assert(old(self)@.insert(key.data(), old(self)@[key.data()]) =~= old(self)@);
                there
            },
            None => false,
        }
    }

    /// Takes note that nobody waits for the result any more.
    pub fn cancel<T>(&mut self, key: &Key<T>)
        ensures
            final(self)@ == if old(self)@.contains_key(key.data()) {
                old(self)@.insert(
                    key.data(),
                    RegisteredOp { cancelled: true, ..old(self)@[key.data()] },
                )
            } else {
                old(self)@
            },
    {
        match slab_get_mut(&mut self.ops, key.user_data()) {
            Some(op) => {
                op.cancelled = true;
            },
            None => {},
        }
    }

    /// Takes out an operation, with its result if that is there.
    pub fn remove<T>(&mut self, key: &Key<T>) -> (r: (Option<IoResult<usize>>, Option<OpToken>))
        requires
            old(self)@.contains_key(key.data()),
        ensures
            final(self)@ == old(self)@.remove(key.data()),
            r == (old(self)@[key.data()].result, old(self)@[key.data()].op),
    {
        let registered_op = slab_remove(&mut self.ops, key.user_data());
        (registered_op.result, registered_op.op)
    }

    /// Takes the results of operations, one after the other.
    pub fn extend(&mut self, entries: &Vec<Entry>) -> (all: Vec<Delivered>)
        ensures
            final(self)@ == all_delivered(old(self)@, entries@),
            all@ == deliveries(old(self)@, entries@),
    {
        let mut all: Vec<Delivered> = Vec::new();
        let mut i: usize = 0;
        proof {
            assert(entries@.take(0) =~= Seq::empty());
        }
        while i < entries.len()
            invariant
                i <= entries.len(),
                self@ == all_delivered(old(self)@, entries@.take(i as int)),
                all@.len() == i,
                forall|j: int| 0 <= j < i ==> #[trigger] all@[j] == deliveries(old(self)@, entries@)[j],
            decreases entries.len() - i,
        {
            let entry = entries[i];
            let key = Key::new_dummy(entry.user_data());
            let to = self.update_result(&key, entry.into_result());
            all.push(to);
            proof {
                assert(entries@.take(i + 1).drop_last() =~= entries@.take(i as int));
                assert(entries@.take(i + 1).last() == entry);
            }
            i += 1;
        }
        proof {
            assert(entries@.take(i as int) =~= entries@);
            assert(all@ =~= deliveries(old(self)@, entries@));
        }
        all
    }

    /// The result of an operation and the operation, if the result is there. Otherwise the waker is set.
    pub fn poll_task<T>(&mut self, key: &Key<T>, waker: WakerToken) -> (r: Poll<
        (IoResult<usize>, OpToken),
    >)
        requires
            old(self)@.contains_key(key.data()) && old(self)@[key.data()].result is Some ==> old(
                self,
            )@[key.data()].op is Some,
        ensures
            polled(old(self)@, final(self)@, key.data(), waker, r is Ready),
            r matches Poll::Ready((result, op)) ==> {
                &&& old(self)@[key.data()].result == Some(result)
                &&& old(self)@[key.data()].op == Some(op)
            },
    {
        if self.has_result(key) {
            let (maybe_result, maybe_op) = self.remove(key);
            Poll::Ready((maybe_result.unwrap(), maybe_op.unwrap()))
        } else {
            let _ = self.update_waker(key, waker);
            Poll::Pending
        }
    }

    /// The result that was waited for, if it is there. Otherwise the waker is set.
    pub fn poll_dummy(&mut self, key: &Key<()>, waker: WakerToken) -> (r: Poll<IoResult<usize>>)
        ensures
            polled(old(self)@, final(self)@, key.data(), waker, r is Ready),
            r matches Poll::Ready(result) ==> old(self)@[key.data()].result == Some(result),
    {
        if self.has_result(key) {
            let (maybe_result, _) = self.remove(key);
            Poll::Ready(maybe_result.unwrap())
        } else {
            let _ = self.update_waker(key, waker);
            Poll::Pending
        }
    }
}

/// What asking for a result makes of the operations: the result is taken out if it is there, and the waker is
/// set if it is not.
pub open spec fn polled(before: Ops, after: Ops, user_data: usize, waker: WakerToken, ready: bool) -> bool {
    if before.contains_key(user_data) && before[user_data].result is Some {
        ready && after == before.remove(user_data)
    } else if before.contains_key(user_data) {
        !ready && after == before.insert(
            user_data,
            RegisteredOp { waker: Some(waker), ..before[user_data] },
        )
    } else {
        !ready && after == before
    }
}

/// A future of the result of an operation.
#[derive(Debug)]
pub struct OpFuture<T> {
    user_data: Key<T>,
    completed: bool,
}

impl<T> OpFuture<T> {
    /// The user data of the operation.
    pub closed spec fn data(&self) -> usize {
        self.user_data.data()
    }

    /// The result was handed out.
    pub closed spec fn completed(&self) -> bool {
        self.completed
    }

    /// Creates a future of the result of the operation.
    pub fn new(user_data: Key<T>) -> (future: Self)
        ensures
            future.data() == user_data.data(),
            !future.completed(),
    {
        OpFuture { user_data, completed: false }
    }

    /// The key of the operation.
    pub fn key(&self) -> (key: &Key<T>)
        ensures
            key.data() == self.data(),
    {
        &self.user_data
    }

    /// Asks for the result and the operation.
    pub fn poll(&mut self, runtime: &mut OpRuntime, waker: WakerToken) -> (r: Poll<
        (IoResult<usize>, OpToken),
    >)
        requires
            old(runtime)@.contains_key(old(self).data()) && old(runtime)@[old(self).data()].result is Some
                ==> old(runtime)@[old(self).data()].op is Some,
        ensures
            final(self).data() == old(self).data(),
            final(self).completed() == (old(self).completed() || r is Ready),
            polled(old(runtime)@, final(runtime)@, old(self).data(), waker, r is Ready),
            r matches Poll::Ready((result, op)) ==> {
                &&& old(runtime)@[old(self).data()].result == Some(result)
                &&& old(runtime)@[old(self).data()].op == Some(op)
            },
    {
        let r = runtime.poll_task(&self.user_data, waker);
        if let Poll::Ready(_) = r {
            self.completed = true;
        }
        r
    }

    /// Whether the operation is to be cancelled when the future is dropped: it is, unless its result was handed
    /// out.
    pub fn cancels_on_drop(&self) -> (cancels: bool)
        ensures
            cancels == !self.completed(),
    {
        !self.completed
    }
}

impl OpFuture<()> {
    /// Asks for the result that was waited for.
    pub fn poll_dummy(&mut self, runtime: &mut OpRuntime, waker: WakerToken) -> (r: Poll<IoResult<usize>>)
        ensures
            final(self).data() == old(self).data(),
            final(self).completed() == (old(self).completed() || r is Ready),
            polled(old(runtime)@, final(runtime)@, old(self).data(), waker, r is Ready),
            r matches Poll::Ready(result) ==> old(runtime)@[old(self).data()].result == Some(result),
    {
        let r = runtime.poll_dummy(&self.user_data, waker);
        if let Poll::Ready(_) = r {
            self.completed = true;
        }
        r
    }
}

} // verus!
