//! Signals of the system.
pub mod unix;
