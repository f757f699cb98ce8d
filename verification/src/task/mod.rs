//! The runtime: tasks, the operations that they wait for, and the driver below.
pub mod laws;
pub mod op;
pub mod runtime;
pub mod slots;

use vstd::prelude::*;

use crate::driver::CompleteIo;
use crate::task::runtime::{Runtime, Step};

verus! {

/// Says what to do next to block on a task till it completes. The embedding program runs what is to run, polls
/// the driver when it is told to, and returns the result of the task at the end.
pub fn block_on<'arena, O, D: CompleteIo<'arena, O>, R>(
    runtime: &mut Runtime<'arena, O, D, R>,
    has_result: bool,
) -> (step: Step<R>)
    requires
        old(runtime).wf(),
    ensures
        final(runtime).wf(),
        final(runtime).driver() == old(runtime).driver(),
        final(runtime).unqueued() == old(runtime).unqueued(),
        final(runtime).cancels() == old(runtime).cancels(),
        final(runtime).ops() == old(runtime).ops(),
        old(runtime).runnables().len() > 0 ==> {
            &&& step == Step::Run(old(runtime).runnables()[0])
            &&& final(runtime).runnables() == old(runtime).runnables().skip(1)
        },
        old(runtime).runnables().len() == 0 ==> {
            &&& final(runtime).runnables() == old(runtime).runnables()
            &&& step == if has_result {
                Step::<R>::Return
            } else {
                Step::<R>::Poll
            }
        },
{
    runtime.block_on(has_result)
}

} // verus!
