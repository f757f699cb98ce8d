//! Whether a value is ready.
use vstd::prelude::*;

verus! {

/// Indicates whether a value is available or has to be waited for.
#[derive(Clone, Copy, Debug, PartialEq, Eq, Structural)]
pub enum Poll<T> {
    /// The value is available.
    Ready(T),
    /// The value is not available yet.
    Pending,
}

} // verus!
