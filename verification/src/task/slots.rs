//! The table of the operations that are under way.
use vstd::prelude::*;

use slab::Slab;

use crate::error::IoResult;

verus! {

/// What stands for an operation that its owner has put away until it is over.
pub type OpToken = usize;

/// What stands for a waker that its owner has put away.
pub type WakerToken = usize;

/// An operation that is under way.
#[derive(Clone, Copy, Debug)]
pub struct RegisteredOp {
    /// The operation; there is none behind a dummy.
    pub op: Option<OpToken>,
    /// Who is to be woken when the result is there.
    pub waker: Option<WakerToken>,
    /// The result, once it is there.
    pub result: Option<IoResult<usize>>,
    /// Nobody waits for the result any more.
    pub cancelled: bool,
}

/// Operations that are under way, by their keys.
pub type Ops = Map<usize, RegisteredOp>;

/// An operation of which nothing is known yet.
pub open spec fn fresh(op: Option<OpToken>) -> RegisteredOp {
    RegisteredOp { op, waker: None, result: None, cancelled: false }
}

impl RegisteredOp {
    /// Registers an operation.
    pub fn new(op: Option<OpToken>) -> (registered: Self)
        ensures
            registered == fresh(op),
    {
        RegisteredOp { op, waker: None, result: None, cancelled: false }
    }
}

#[verifier::external_type_specification]
#[verifier::external_body]
#[verifier::reject_recursive_types(T)]
pub struct ExSlab<T>(slab::Slab<T>);

/// The operations that a slab holds, by their keys.
pub uninterp spec fn slots(slab: Slab<RegisteredOp>) -> Ops;

/// An empty slab, made by `Slab::new`.
#[verifier::external_body]
pub(crate) fn slab_new() -> (table: Slab<RegisteredOp>)
    ensures
        slots(table) == Ops::empty(),
{
    Slab::new()
}

/// Stores an operation by `Slab::insert`, under a key that the slab picks among those that are not in use.
#[verifier::external_body]
pub(crate) fn slab_insert(table: &mut Slab<RegisteredOp>, op: RegisteredOp) -> (key: usize)
    ensures
        !slots(*old(table)).contains_key(key),
        slots(*final(table)) == slots(*old(table)).insert(key, op),
{
    table.insert(op)
}

/// The operation under a key, to be changed, by `Slab::get_mut`: what it becomes is what the slab then holds
/// under the key. There is none if the key is not in use, and the slab stays as it is.
#[verifier::external_body]
pub(crate) fn slab_get_mut(table: &mut Slab<RegisteredOp>, key: usize) -> (op: Option<&mut RegisteredOp>)
    ensures
        match op {
            Some(op) => {
                &&& slots(*old(table)).contains_key(key)
                &&& *op == slots(*old(table))[key]
                &&& slots(*final(table)) == slots(*old(table)).insert(key, *final(op))
            },
            None => !slots(*old(table)).contains_key(key) && slots(*final(table)) == slots(*old(table)),
        },
{
    table.get_mut(key)
}

/// Takes out the operation under a key by `Slab::remove`. That call panics if the key is not in use.
#[verifier::external_body]
pub(crate) fn slab_remove(table: &mut Slab<RegisteredOp>, key: usize) -> (op: RegisteredOp)
    requires
        slots(*old(table)).contains_key(key),
    ensures
        op == slots(*old(table))[key],
        slots(*final(table)) == slots(*old(table)).remove(key),
{
    table.remove(key)
}

} // verus!
