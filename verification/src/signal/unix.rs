//! Who is to be notified of which signal.
use vstd::prelude::*;

use std::collections::HashMap;

use crate::driver::unix::RawFd;
use crate::error::{IoError, IoResult};

verus! {

/// The handles to notify, by signal and by the descriptor that the notified wait on.
pub struct Handlers<H> {
    table: HashMap<i32, HashMap<RawFd, H>>,
}

impl<H> View for Handlers<H> {
    type V = Map<i32, Map<RawFd, H>>;

    closed spec fn view(&self) -> Map<i32, Map<RawFd, H>> {
        self.table@.map_values(|fds: HashMap<RawFd, H>| fds@)
    }
}

/// The handles of a signal.
pub open spec fn handles<H>(table: Map<i32, Map<RawFd, H>>, sig: i32) -> Map<RawFd, H> {
    if table.contains_key(sig) {
        table[sig]
    } else {
        Map::empty()
    }
}

impl<H> Handlers<H> {
    /// Nobody is to be notified.
    pub fn new() -> (handlers: Self)
        ensures
            handlers@ == Map::<i32, Map<RawFd, H>>::empty(),
    {
        let handlers = Handlers { table: HashMap::new() };
        assert(handlers@ =~= Map::<i32, Map<RawFd, H>>::empty());
        handlers
    }

    /// Takes the handles of a signal out of the table; none if there is no entry for it.
    fn take(&mut self, sig: i32) -> (fds: Option<HashMap<RawFd, H>>)
        ensures
            final(self)@ == old(self)@.remove(sig),
            fds is Some <==> old(self)@.contains_key(sig),
            fds is Some ==> fds->0@ == old(self)@[sig],
    {
        let fds = self.table.remove(&sig);
        assert(self@ =~= old(self)@.remove(sig));
        fds
    }

    /// Puts the handles of a signal into the table.
    fn put(&mut self, sig: i32, fds: HashMap<RawFd, H>)
        ensures
            final(self)@ == old(self)@.insert(sig, fds@),
    {
        let _ = self.table.insert(sig, fds);
        assert(self@ =~= old(self)@.insert(sig, fds@));
    }

    /// Takes the handle that is to be notified of a signal for those who wait on `fd`, if there is one to be
    /// had.
    pub fn register(&mut self, sig: i32, fd: RawFd, handle: IoResult<H>) -> (r: IoResult<()>)
        ensures
            match handle {
                Err(error) => r == Err::<(), IoError>(error) && final(self)@ == old(self)@,
                Ok(handle) => r is Ok && final(self)@ == old(self)@.insert(
                    sig,
                    handles(old(self)@, sig).insert(fd, handle),
                ),
            },
    {
        match handle {
            Err(error) => Err(error),
            Ok(handle) => {
                let mut fds = match self.take(sig) {
                    Some(fds) => fds,
                    None => HashMap::new(),
                };
                let _ = fds.insert(fd, handle);
                self.put(sig, fds);
                assert(self@ =~= old(self)@.insert(
                    sig,
                    handles(old(self)@, sig).insert(fd, handle),
                ));
                Ok(())
            },
        }
    }

    /// Takes note that nobody waits on `fd` for a signal any more, and tells whether nobody waits for the
    /// signal at all, so that its default action is to be restored.
    pub fn unregister(&mut self, sig: i32, fd: RawFd) -> (need_uninit: bool)
        ensures
            final(self)@ == if old(self)@.contains_key(sig) {
                old(self)@.insert(sig, old(self)@[sig].remove(fd))
            } else {
                old(self)@
            },
            need_uninit == (handles(final(self)@, sig) == Map::<RawFd, H>::empty()),
    {
        match self.take(sig) {
            Some(mut fds) => {
                let _ = fds.remove(&fd);
                let need_uninit = fds.is_empty();
                proof {
                    assert(fds@ =~= old(self)@[sig].remove(fd));
                    assert(need_uninit == (fds@ == Map::<RawFd, H>::empty())) by {
                        if need_uninit {
                            assert(fds@ =~= Map::<RawFd, H>::empty());
                        }
                    }
                }
                self.put(sig, fds);
                assert(self@ =~= old(self)@.insert(sig, old(self)@[sig].remove(fd)));
                need_uninit
            },
            None => {
                assert(self@ =~= old(self)@);
                true
            },
        }
    }

    /// Takes out the handles of a signal that has arrived: each of them is to be notified, in no particular
    /// order, and none of them again.
    pub fn arrived(&mut self, sig: i32) -> (notified: HashMap<RawFd, H>)
        ensures
            notified@ == handles(old(self)@, sig),
            final(self)@ == if old(self)@.contains_key(sig) {
                old(self)@.insert(sig, Map::<RawFd, H>::empty())
            } else {
                old(self)@
            },
    {
        match self.take(sig) {
            Some(fds) => {
                let none: HashMap<RawFd, H> = HashMap::new();
                self.put(sig, none);
                assert(self@ =~= old(self)@.insert(sig, Map::<RawFd, H>::empty()));
                fds
            },
            None => {
                assert(self@ =~= old(self)@);
                HashMap::new()
            },
        }
    }
}

/// Unregistering undoes registering: who was registered last is not notified, and everybody else is as before.
pub proof fn law_unregister_undoes_register<H>(
    table: Map<i32, Map<RawFd, H>>,
    sig: i32,
    fd: RawFd,
    handle: H,
    other: i32,
)
    requires
        !handles(table, sig).contains_key(fd),
    ensures
        handles(
            table.insert(sig, handles(table, sig).insert(fd, handle)).insert(
                sig,
                handles(table, sig).insert(fd, handle).remove(fd),
            ),
            other,
        ) == handles(table, other),
{
    assert(handles(table, sig).insert(fd, handle).remove(fd) =~= handles(table, sig));
}

/// Who registers for a signal is notified of it by the handle that they gave, in place of an earlier one on the same
/// descriptor. Nobody else is touched, and without a handle nobody is.
pub proof fn law_registered_for_a_signal<H>(
    before: Handlers<H>,
    sig: i32,
    fd: RawFd,
    handle: IoResult<H>,
    other_sig: i32,
    other_fd: RawFd,
)
    ensures
        forall|handlers: &mut Handlers<H>, r: IoResult<()>|
            *handlers == before && #[trigger] call_ensures(
                Handlers::<H>::register,
                (handlers, sig, fd, handle),
                r,
            ) ==> {
                let after = final(handlers)@;
                &&& r is Ok <==> handle is Ok
                &&& handle matches Err(error) ==> r->Err_0 == error && after == before@
                &&& handle matches Ok(handle) ==> after.contains_key(sig) && after[sig].contains_key(fd)
                    && after[sig][fd] == handle
                &&& other_sig != sig ==> after.contains_key(other_sig) == before@.contains_key(other_sig) && (
                before@.contains_key(other_sig) ==> after[other_sig] == before@[other_sig])
                &&& other_fd != fd && before@.contains_key(sig) ==> after[sig].contains_key(other_fd)
                    == before@[sig].contains_key(other_fd)
                &&& other_fd != fd && before@.contains_key(sig) && before@[sig].contains_key(other_fd)
                    ==> after[sig][other_fd] == before@[sig][other_fd]
                &&& other_fd != fd && handle is Ok && !before@.contains_key(sig) ==> !after[sig].contains_key(other_fd)
            },
        forall|made: Handlers<H>| #[trigger]
            call_ensures(Handlers::<H>::new, (), made) ==> !made@.contains_key(sig),
{
}

/// Who unregisters is not notified of the signal any more, and everybody else is. The default action is to be restored
/// exactly if nobody is left.
pub proof fn law_unregistered_from_a_signal<H>(
    before: Handlers<H>,
    sig: i32,
    fd: RawFd,
    other_sig: i32,
    other_fd: RawFd,
)
    ensures
        forall|handlers: &mut Handlers<H>, need_uninit: bool|
            *handlers == before && #[trigger] call_ensures(
                Handlers::<H>::unregister,
                (handlers, sig, fd),
                need_uninit,
            ) ==> {
                let after = final(handlers)@;
                &&& after.contains_key(sig) == before@.contains_key(sig)
                &&& before@.contains_key(sig) ==> !after[sig].contains_key(fd)
                &&& before@.contains_key(sig) && other_fd != fd ==> after[sig].contains_key(other_fd)
                    == before@[sig].contains_key(other_fd)
                &&& before@.contains_key(sig) && other_fd != fd && before@[sig].contains_key(other_fd)
                    ==> after[sig][other_fd] == before@[sig][other_fd] && !need_uninit
                &&& !need_uninit ==> before@.contains_key(sig) && exists|left: RawFd|
                    left != fd && #[trigger] before@[sig].contains_key(left)
                &&& !before@.contains_key(sig) ==> need_uninit
                &&& other_sig != sig ==> after.contains_key(other_sig) == before@.contains_key(other_sig) && (
                before@.contains_key(other_sig) ==> after[other_sig] == before@[other_sig])
            },
{
    assert forall|handlers: &mut Handlers<H>, need_uninit: bool|
        *handlers == before && #[trigger] call_ensures(
            Handlers::<H>::unregister,
            (handlers, sig, fd),
            need_uninit,
        ) implies {
        &&& need_uninit <==> handles(final(handlers)@, sig) == Map::<RawFd, H>::empty()
        &&& before@.contains_key(sig) && other_fd != fd && before@[sig].contains_key(other_fd) ==> !need_uninit
        &&& !need_uninit ==> before@.contains_key(sig) && exists|left: RawFd|
            left != fd && #[trigger] before@[sig].contains_key(left)
    } by {
        let left = handles(final(handlers)@, sig);
        if before@.contains_key(sig) && other_fd != fd && before@[sig].contains_key(other_fd) {
            assert(left.contains_key(other_fd));
        }
        if !need_uninit {
            if forall|l: RawFd| !(#[trigger] left.contains_key(l)) {
                assert(left =~= Map::<RawFd, H>::empty());
            }
            let l = choose|l: RawFd| #[trigger] left.contains_key(l);
            assert(before@[sig].contains_key(l));
        }
    }
}

/// When a signal arrives, exactly those who are registered for it are notified, by their handles, and once: they have
/// to register again for the next one. Other signals are not touched.
pub proof fn law_arrived_signal_is_notified_once<H>(before: Handlers<H>, sig: i32, fd: RawFd, other_sig: i32)
    ensures
        forall|handlers: &mut Handlers<H>, notified: HashMap<RawFd, H>|
            *handlers == before && #[trigger] call_ensures(
                Handlers::<H>::arrived,
                (handlers, sig),
                notified,
            ) ==> {
                let after = final(handlers)@;
                &&& notified@.contains_key(fd) <==> before@.contains_key(sig) && before@[sig].contains_key(fd)
                &&& notified@.contains_key(fd) ==> notified@[fd] == before@[sig][fd]
                &&& after.contains_key(sig) ==> !after[sig].contains_key(fd)
                &&& other_sig != sig ==> after.contains_key(other_sig) == before@.contains_key(other_sig) && (
                before@.contains_key(other_sig) ==> after[other_sig] == before@[other_sig])
            },
{
}

} // verus!
