//! Completion-based I/O drivers and the bookkeeping of a thread-per-core runtime on top of them.
//!
//! Every module decides; none of them performs a system call. A driver is asked what to hand to the
//! kernel, the embedding program makes the call, and what the kernel answered goes back into the driver.
pub mod addr;
pub mod attacher;
pub mod buf;
pub mod driver;
pub mod error;
pub mod event;
pub mod key;
pub mod op;
pub mod poll;
pub mod signal;
pub mod task;
pub mod time;
