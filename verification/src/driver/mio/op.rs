//! The timeout as an operation of the poll.
use vstd::prelude::*;

use std::ops::ControlFlow;

use crate::driver::attempts::TIMER_PENDING;
use crate::driver::mio::{Decision, Event, OpCode};
use crate::driver::time::Timeout;
use crate::error::{IoError, IoResult};
use crate::time::Duration;

verus! {

impl OpCode for Timeout {
    open spec fn delay(&self) -> Option<Duration> {
        Some(self.delay)
    }

    fn pre_submit(&mut self) -> (decision: IoResult<Decision>)
        ensures
            *final(self) == *old(self),
            decision == Ok::<Decision, IoError>(Decision::Completed(TIMER_PENDING)),
    {
        Ok(Decision::Completed(TIMER_PENDING))
    }

    /// A timer waits for no event: one that arrives all the same changes nothing.
    fn on_event(&mut self, _event: &Event) -> (flow: IoResult<ControlFlow<usize>>)
        ensures
            *final(self) == *old(self),
            flow == Ok::<ControlFlow<usize>, IoError>(ControlFlow::Continue(())),
    {
        Ok(ControlFlow::Continue(()))
    }

    fn timer_delay(&self) -> (delay: Duration) {
        self.delay
    }
}

} // verus!
