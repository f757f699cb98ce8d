//! Attaching a handle to a driver just once.
use vstd::prelude::*;

use once_cell::sync::OnceCell;

use crate::error::{IoError, IoResult};

verus! {

/// A descriptor or handle, whichever the platform has.
pub type AnyFd = isize;

#[verifier::external_type_specification]
#[verifier::external_body]
#[verifier::reject_recursive_types(T)]
pub struct ExOnceCell<T>(once_cell::sync::OnceCell<T>);

/// What a cell holds: nothing, or the value that it was set to.
pub uninterp spec fn held(cell: OnceCell<AnyFd>) -> Seq<AnyFd>;

/// An empty cell, made by `OnceCell::new`.
#[verifier::external_body]
fn cell_new() -> (cell: OnceCell<AnyFd>)
    ensures
        held(cell) == Seq::<AnyFd>::empty(),
{
    OnceCell::new()
}

/// What the cell holds, read by `OnceCell::get`.
#[verifier::external_body]
fn cell_get(cell: &OnceCell<AnyFd>) -> (value: Option<AnyFd>)
    ensures
        value is None <==> held(*cell).len() == 0,
        value is Some ==> held(*cell) == Seq::<AnyFd>::empty().push(value->0),
{
    cell.get().copied()
}

/// Sets an empty cell by `OnceCell::get_or_try_init`, if the attempt at a value succeeded. A cell that holds a
/// value keeps it, and the attempt is disregarded.
#[verifier::external_body]
fn cell_get_or_try_init(cell: &mut OnceCell<AnyFd>, attempt: IoResult<AnyFd>) -> (r: IoResult<AnyFd>)
    ensures
        held(*old(cell)).len() == 0 ==> r == attempt && held(*final(cell)) == match attempt {
            Ok(value) => Seq::<AnyFd>::empty().push(value),
            Err(_) => Seq::<AnyFd>::empty(),
        },
        held(*old(cell)).len() > 0 ==> r == Ok::<AnyFd, IoError>(held(*old(cell))[0]) && held(
            *final(cell),
        ) == held(*old(cell)),
{
    cell.get_or_try_init(|| attempt).map(|value| *value)
}

/// What an attempt to attach a handle comes to.
pub open spec fn attach_result(attached: Seq<AnyFd>, attempt: IoResult<AnyFd>) -> IoResult<AnyFd> {
    if attached.len() == 0 {
        attempt
    } else {
        Ok(attached[0])
    }
}

/// The attached descriptor, if the handle is attached, after an attempt to attach it.
pub open spec fn after_attach(attached: Seq<AnyFd>, attempt: IoResult<AnyFd>) -> Seq<AnyFd> {
    if attached.len() > 0 {
        attached
    } else {
        match attempt {
            Ok(fd) => seq![fd],
            Err(_) => Seq::empty(),
        }
    }
}

/// Attaches a handle to the driver of the current thread.
///
/// A handle can and only can attach once to one driver.
#[derive(Debug)]
pub struct Attacher {
    once: OnceCell<AnyFd>,
}

impl View for Attacher {
    type V = Seq<AnyFd>;

    /// The attached descriptor, if the handle is attached.
    closed spec fn view(&self) -> Seq<AnyFd> {
        held(self.once)
    }
}

impl Attacher {
    /// The handle is not attached.
    pub fn new() -> (attacher: Self)
        ensures
            attacher@ == Seq::<AnyFd>::empty(),
    {
        Attacher { once: cell_new() }
    }

    /// The attached descriptor, if the handle is attached. Otherwise it has to be attached to the driver, and
    /// what that came to goes to [`Attacher::attach`].
    pub fn attached(&self) -> (fd: Option<AnyFd>)
        ensures
            fd == if self@.len() == 0 {
                None::<AnyFd>
            } else {
                Some(self@[0])
            },
    {
        cell_get(&self.once)
    }

    /// Takes what attaching the handle to the driver came to, unless the handle is attached already.
    pub fn attach(&mut self, attempt: IoResult<AnyFd>) -> (r: IoResult<AnyFd>)
        ensures
            r == attach_result(old(self)@, attempt),
            final(self)@ == after_attach(old(self)@, attempt),
    {
        cell_get_or_try_init(&mut self.once, attempt)
    }
}

/// Once a handle is attached, it stays attached to the same descriptor, whatever comes of later attempts, and
/// an attempt that fails does not keep a later one from succeeding.
pub proof fn law_attached_once(before: Seq<AnyFd>, first: IoResult<AnyFd>, second: IoResult<AnyFd>)
    ensures
        ({
            let between = after_attach(before, first);
            let r = attach_result(before, first);
            &&& r is Ok ==> attach_result(between, second) == r && after_attach(between, second)
                == between
            &&& r is Err ==> attach_result(between, second) == second
        }),
{
}

/// A new handle is not attached. The first attempt that succeeds attaches it to what it came to, and from then on every
/// attempt comes to that, whatever it says. An attempt that fails is reported, and leaves the handle as it is.
pub proof fn law_first_success_stays(before: Attacher, attempt: IoResult<AnyFd>, shown: Option<AnyFd>)
    requires
        call_ensures(Attacher::attached, (&before,), shown),
    ensures
        forall|made: Attacher, fd: Option<AnyFd>| #[trigger]
            call_ensures(Attacher::new, (), made) && #[trigger] call_ensures(Attacher::attached, (&made,), fd)
                ==> fd is None,
        forall|attacher: &mut Attacher, r: IoResult<AnyFd>|
            *attacher == before && #[trigger] call_ensures(Attacher::attach, (attacher, attempt), r) ==> {
                &&& shown is Some ==> r is Ok && r->Ok_0 == shown->0 && final(attacher)@ == before@
                &&& shown is None ==> r == attempt
                &&& shown is None && attempt is Err ==> final(attacher)@.len() == 0
                &&& shown is None && attempt is Ok ==> final(attacher)@.len() == 1 && final(attacher)@[0]
                    == attempt->Ok_0
            },
        forall|fd: Option<AnyFd>| #[trigger]
            call_ensures(Attacher::attached, (&before,), fd) ==> (fd is None <==> before@.len() == 0) && (fd is Some
                ==> fd->0 == before@[0]),
{
}

} // verus!
