//! Events that wake a task from anywhere.
pub mod pipe;
