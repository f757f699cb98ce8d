//! What the unix drivers have in common.
pub mod op;

use vstd::prelude::*;

verus! {

/// A file descriptor as the system numbers it.
pub type RawFd = i32;

/// A descriptor that can stand where a driver takes either a plain or a fixed one.
pub trait IntoFdOrFixed: Sized {
    /// What the driver takes.
    type Target;

    /// The descriptor as the driver takes it.
    spec fn target(self) -> Self::Target;

    /// Turns the descriptor into what the driver takes.
    fn into(self) -> (target: Self::Target)
        ensures
            target == self.target(),
    ;
}

/// Consumes an object and acquires ownership of its descriptor.
pub trait IntoRawFd: Sized {
    /// The descriptor.
    open spec fn raw_fd(&self) -> RawFd {
        arbitrary()
    }

    /// Consumes this object, returning the underlying descriptor.
    fn into_raw_fd(self) -> (raw_fd: RawFd)
        ensures
            raw_fd == self.raw_fd(),
    ;
}

} // verus!
