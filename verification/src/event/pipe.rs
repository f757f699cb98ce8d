//! Events by a pipe: what is written at one end wakes who reads at the other.
use vstd::prelude::*;

use crate::driver::unix::RawFd;
use crate::error::{IoError, IoResult};

verus! {

/// The two ends of a pipe.
#[derive(Clone, Copy, Debug, PartialEq, Eq, Structural)]
pub struct PipeFds {
    /// The end to read from.
    pub receiver: RawFd,
    /// The end to write to.
    pub sender: RawFd,
}

/// What to do next to set up a pipe.
#[derive(Clone, Copy, Debug, PartialEq, Eq, Structural)]
pub enum PipeStep {
    /// Create the pipe, nonblocking and not to be inherited, in one call.
    Pipe2,
    /// Create the pipe.
    Pipe,
    /// Make this end nonblocking.
    SetNonblocking(RawFd),
    /// Keep this end from being inherited.
    SetCloexec(RawFd),
    /// Close both ends, in this order, whatever comes of it, and fail with the error.
    Abandon { first: RawFd, second: RawFd, error: IoError },
    /// The pipe is set up.
    Done(PipeFds),
    /// The pipe could not be created.
    Fail(IoError),
}

/// How far the setup of a pipe has come.
#[derive(Clone, Copy, Debug, PartialEq, Eq, Structural)]
pub struct PipeSetup {
    /// The platform creates a pipe with its flags in one call.
    pub has_pipe2: bool,
    /// The two ends, once there are any.
    pub fds: PipeFds,
    /// How many of the four flags are set.
    pub flags_set: usize,
}

/// The steps that set the flags: first both flags of the receiving end, then both of the sending end.
pub open spec fn flag_step(fds: PipeFds, flags_set: nat) -> PipeStep {
    if flags_set == 0 {
        PipeStep::SetNonblocking(fds.receiver)
    } else if flags_set == 1 {
        PipeStep::SetCloexec(fds.receiver)
    } else if flags_set == 2 {
        PipeStep::SetNonblocking(fds.sender)
    } else if flags_set == 3 {
        PipeStep::SetCloexec(fds.sender)
    } else {
        PipeStep::Done(fds)
    }
}

impl PipeSetup {
    /// Starts to set up a pipe.
    pub fn start(has_pipe2: bool) -> (r: (Self, PipeStep))
        ensures
            r.0.has_pipe2 == has_pipe2,
            r.0.flags_set == 0,
            r.1 == if has_pipe2 {
                PipeStep::Pipe2
            } else {
                PipeStep::Pipe
            },
    {
        let setup = PipeSetup {
            has_pipe2,
            fds: PipeFds { receiver: -1, sender: -1 },
            flags_set: 0,
        };
        (
            setup,
            if has_pipe2 {
                PipeStep::Pipe2
            } else {
                PipeStep::Pipe
            },
        )
    }

    /// Takes what creating the pipe came to: its two ends, or the error code.
    pub fn created(&mut self, outcome: Result<PipeFds, i32>) -> (step: PipeStep)
        requires
            old(self).flags_set == 0,
        ensures
            final(self).has_pipe2 == old(self).has_pipe2,
            final(self).flags_set == 0,
            final(self).fds == match outcome {
                Ok(fds) => fds,
                Err(_) => old(self).fds,
            },
            step == match outcome {
                Err(code) => PipeStep::Fail(IoError::Os(code)),
                Ok(fds) => if old(self).has_pipe2 {
                    PipeStep::Done(fds)
                } else {
                    flag_step(fds, 0)
                },
            },
    {
        match outcome {
            Err(code) => PipeStep::Fail(IoError::Os(code)),
            Ok(fds) => {
                self.fds = fds;
                if self.has_pipe2 {
                    PipeStep::Done(fds)
                } else {
                    PipeStep::SetNonblocking(fds.receiver)
                }
            },
        }
    }

    /// Takes what setting a flag came to. If it failed, both ends are closed, so that they don't leak.
    pub fn flag_set(&mut self, outcome: Result<(), i32>) -> (step: PipeStep)
        requires
            old(self).flags_set < 4,
        ensures
            final(self).has_pipe2 == old(self).has_pipe2,
            final(self).fds == old(self).fds,
            final(self).flags_set == match outcome {
                Ok(()) => old(self).flags_set + 1,
                Err(_) => old(self).flags_set as int,
            },
            step == match outcome {
                Err(code) => PipeStep::Abandon {
                    first: old(self).fds.receiver,
                    second: old(self).fds.sender,
                    error: IoError::Os(code),
                },
                Ok(()) => flag_step(old(self).fds, old(self).flags_set as nat + 1),
            },
    {
        match outcome {
            Err(code) => PipeStep::Abandon {
                first: self.fds.receiver,
                second: self.fds.sender,
                error: IoError::Os(code),
            },
            Ok(()) => {
                self.flags_set += 1;
                if self.flags_set == 1 {
                    PipeStep::SetCloexec(self.fds.receiver)
                } else if self.flags_set == 2 {
                    PipeStep::SetNonblocking(self.fds.sender)
                } else if self.flags_set == 3 {
                    PipeStep::SetCloexec(self.fds.sender)
                } else {
                    PipeStep::Done(self.fds)
                }
            },
        }
    }
}

/// What a run of the flag-setting steps, with the given outcomes, leads to. The outcomes after a failure, and
/// those after the fourth, are disregarded.
pub open spec fn flags_run(fds: PipeFds, flags_set: nat, outcomes: Seq<Result<(), i32>>) -> PipeStep
    decreases outcomes.len(),
{
    if flags_set >= 4 || outcomes.len() == 0 {
        flag_step(fds, flags_set)
    } else {
        match outcomes[0] {
            Err(code) => PipeStep::Abandon {
                first: fds.receiver,
                second: fds.sender,
                error: IoError::Os(code),
            },
            Ok(()) => flags_run(fds, flags_set + 1, outcomes.skip(1)),
        }
    }
}

/// A pipe that was created is set up if all four flags could be set, and otherwise both its ends are closed and
/// the first error is reported.
pub proof fn law_no_end_leaks(fds: PipeFds, flags_set: nat, outcomes: Seq<Result<(), i32>>)
    requires
        flags_set + outcomes.len() == 4,
    ensures
        (forall|i: int| 0 <= i < outcomes.len() ==> #[trigger] outcomes[i] is Ok) ==> flags_run(
            fds,
            flags_set,
            outcomes,
        ) == PipeStep::Done(fds),
        forall|i: int|
            0 <= i < outcomes.len() && #[trigger] outcomes[i] is Err && (forall|j: int|
                0 <= j < i ==> #[trigger] outcomes[j] is Ok) ==> flags_run(fds, flags_set, outcomes)
                == (PipeStep::Abandon {
                first: fds.receiver,
                second: fds.sender,
                error: IoError::Os(outcomes[i]->Err_0),
            }),
    decreases outcomes.len(),
{
    if outcomes.len() > 0 {
        let rest = outcomes.skip(1);
        law_no_end_leaks(fds, flags_set + 1, rest);
        assert forall|i: int| 0 <= i < rest.len() implies rest[i] == outcomes[i + 1] by {}
        if outcomes[0] is Ok {
            if forall|i: int| 0 <= i < outcomes.len() ==> #[trigger] outcomes[i] is Ok {
                assert forall|i: int| 0 <= i < rest.len() implies #[trigger] rest[i] is Ok by {
                    assert(outcomes[i + 1] is Ok);
                }
            }
            assert forall|i: int|
                0 <= i < outcomes.len() && #[trigger] outcomes[i] is Err && (forall|j: int|
                    0 <= j < i ==> #[trigger] outcomes[j] is Ok) implies flags_run(
                fds,
                flags_set,
                outcomes,
            ) == (PipeStep::Abandon {
                first: fds.receiver,
                second: fds.sender,
                error: IoError::Os(outcomes[i]->Err_0),
            }) by {
                assert(rest[i - 1] is Err);
                assert forall|j: int| 0 <= j < i - 1 implies #[trigger] rest[j] is Ok by {
                    assert(outcomes[j + 1] is Ok);
                }
            }
        } else {
            assert forall|i: int|
                0 <= i < outcomes.len() && #[trigger] outcomes[i] is Err && (forall|j: int|
                    0 <= j < i ==> #[trigger] outcomes[j] is Ok) implies i == 0 by {
                if i > 0 {
                    assert(outcomes[0] is Ok);
                }
            }
        }
    }
}

/// An event that won't wake until it is notified successfully.
#[derive(Debug)]
pub struct Event {
    /// The ends of its pipe.
    pub fds: PipeFds,
}

impl Event {
    /// Creates an event from a pipe. The sending end has to block again; `blocking` is what making it so came
    /// to.
    pub fn new(pipe: IoResult<PipeFds>, blocking: IoResult<()>) -> (r: IoResult<Self>)
        ensures
            r == match pipe {
                Err(error) => Err(error),
                Ok(fds) => match blocking {
                    Err(error) => Err(error),
                    Ok(()) => Ok(Event { fds }),
                },
            },
    {
        match pipe {
            Err(error) => Err(error),
            Ok(fds) => match blocking {
                Err(error) => Err(error),
                Ok(()) => Ok(Event { fds }),
            },
        }
    }

    /// The end that is waited on.
    pub fn as_raw_fd(&self) -> (fd: RawFd)
        ensures
            fd == self.fds.receiver,
    {
        self.fds.receiver
    }

    /// Gets a notify handle, where the sending end could be duplicated.
    pub fn handle(&self, duplicated: IoResult<RawFd>) -> (r: IoResult<EventHandle>)
        ensures
            r == match duplicated {
                Ok(fd) => Ok(EventHandle { fd }),
                Err(error) => Err(error),
            },
    {
        match duplicated {
            Ok(fd) => Ok(EventHandle::new(fd)),
            Err(error) => Err(error),
        }
    }

    /// What waiting for a notification came to. How much was received does not matter.
    pub fn wait(&self, received: IoResult<usize>) -> (r: IoResult<()>)
        ensures
            r == match received {
                Ok(_) => Ok(()),
                Err(error) => Err(error),
            },
    {
        match received {
            Ok(_) => Ok(()),
            Err(error) => Err(error),
        }
    }
}

/// A handle to [`Event`].
#[derive(Debug)]
pub struct EventHandle {
    /// A duplicate of the sending end.
    pub fd: RawFd,
}

impl EventHandle {
    /// Wraps a duplicate of the sending end.
    pub fn new(fd: RawFd) -> (handle: Self)
        ensures
            handle.fd == fd,
    {
        EventHandle { fd }
    }

    /// What notifying the event came to. How much was written does not matter.
    pub fn notify(&self, written: IoResult<usize>) -> (r: IoResult<()>)
        ensures
            r == match written {
                Ok(_) => Ok(()),
                Err(error) => Err(error),
            },
    {
        match written {
            Ok(_) => Ok(()),
            Err(error) => Err(error),
        }
    }
}

/// What switching a descriptor into or out of nonblocking mode came to: `ret` is what the call returned, and
/// `last_error` the error of the thread.
pub fn set_nonblocking(ret: i32, last_error: i32) -> (r: IoResult<()>)
    ensures
        r == if ret == -1 {
            Err::<(), IoError>(IoError::Os(last_error))
        } else {
            Ok::<(), IoError>(())
        },
{
    if ret == -1 {
        Err(IoError::Os(last_error))
    } else {
        Ok(())
    }
}

/// A pipe is created in one call where the platform can set its flags with it, and is then set up; elsewhere its flags
/// have to be set first. A pipe that cannot be created is reported with the error code.
pub proof fn law_pipe_is_created_first(has_pipe2: bool, started: (PipeSetup, PipeStep), outcome: Result<PipeFds, i32>)
    requires
        call_ensures(PipeSetup::start, (has_pipe2,), started),
    ensures
        started.1 is Pipe2 <==> has_pipe2,
        started.1 is Pipe <==> !has_pipe2,
        forall|setup: &mut PipeSetup, step: PipeStep|
            *setup == started.0 && #[trigger] call_ensures(PipeSetup::created, (setup, outcome), step) ==> {
                &&& outcome matches Err(code) ==> step == PipeStep::Fail(IoError::Os(code))
                &&& outcome matches Ok(fds) ==> {
                    &&& has_pipe2 ==> step == PipeStep::Done(fds)
                    &&& !has_pipe2 ==> step == PipeStep::SetNonblocking(fds.receiver)
                    &&& final(setup).fds == fds
                }
                &&& final(setup).flags_set == 0
            },
{
}

/// Each end is made nonblocking and then kept from being inherited, the receiving end first, and the pipe is set up
/// only after that. As soon as a flag cannot be set, both ends are closed and the error is reported.
pub proof fn law_both_ends_get_both_flags(before: PipeSetup, outcome: Result<(), i32>)
    requires
        before.flags_set < 4,
    ensures
        forall|setup: &mut PipeSetup, step: PipeStep|
            *setup == before && #[trigger] call_ensures(PipeSetup::flag_set, (setup, outcome), step) ==> {
                &&& outcome matches Err(code) ==> step == (PipeStep::Abandon {
                    first: before.fds.receiver,
                    second: before.fds.sender,
                    error: IoError::Os(code),
                })
                &&& outcome is Ok ==> {
                    &&& before.flags_set == 0 ==> step == PipeStep::SetCloexec(before.fds.receiver)
                    &&& before.flags_set == 1 ==> step == PipeStep::SetNonblocking(before.fds.sender)
                    &&& before.flags_set == 2 ==> step == PipeStep::SetCloexec(before.fds.sender)
                    &&& before.flags_set == 3 ==> step == PipeStep::Done(before.fds)
                    &&& final(setup).flags_set == before.flags_set + 1
                }
                &&& final(setup).fds == before.fds
            },
{
}

/// An event is waited on at the receiving end of its pipe, and is there only if the pipe could be created and its
/// sending end made blocking; otherwise the first error is reported. A handle notifies by the descriptor that it was
/// given.
pub proof fn law_event_ends(
    pipe: IoResult<PipeFds>,
    blocking: IoResult<()>,
    made: IoResult<Event>,
    duplicated: IoResult<RawFd>,
)
    requires
        call_ensures(Event::new, (pipe, blocking), made),
    ensures
        made is Ok <==> pipe is Ok && blocking is Ok,
        pipe matches Err(error) ==> made is Err && made->Err_0 == error,
        pipe is Ok && blocking is Err ==> made is Err && made->Err_0 == blocking->Err_0,
        made is Ok ==> forall|fd: RawFd| #[trigger]
            call_ensures(Event::as_raw_fd, (&made->Ok_0,), fd) ==> fd == pipe->Ok_0.receiver,
        made is Ok ==> made->Ok_0.fds == pipe->Ok_0,
        forall|event: Event, r: IoResult<EventHandle>| #[trigger]
            call_ensures(Event::handle, (&event, duplicated), r) ==> {
                &&& r is Ok <==> duplicated is Ok
                &&& r is Ok ==> r->Ok_0.fd == duplicated->Ok_0
                &&& r is Err ==> r->Err_0 == duplicated->Err_0
            },
        forall|fd: RawFd, handle: EventHandle| #[trigger]
            call_ensures(EventHandle::new, (fd,), handle) ==> handle.fd == fd,
{
}

/// Waiting and notifying succeed exactly if the transfer does, whatever its size, and fail with its error. Switching
/// the mode of a descriptor fails exactly if the call returned -1, with the error of the thread.
pub proof fn law_event_outcomes(
    event: Event,
    handle: EventHandle,
    outcome: IoResult<usize>,
    waited: IoResult<()>,
    notified: IoResult<()>,
    ret: i32,
    last_error: i32,
    switched: IoResult<()>,
)
    requires
        call_ensures(Event::wait, (&event, outcome), waited),
        call_ensures(EventHandle::notify, (&handle, outcome), notified),
        call_ensures(set_nonblocking, (ret, last_error), switched),
    ensures
        waited == notified,
        waited is Ok <==> outcome is Ok,
        waited is Err ==> waited->Err_0 == outcome->Err_0,
        switched is Err <==> ret == -1i32,
        switched is Err ==> switched->Err_0 == IoError::Os(last_error),
{
}

} // verus!
