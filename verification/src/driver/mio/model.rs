//! What submitting means, in terms of what the operations decide.
use vstd::multiset::Multiset;
use vstd::prelude::*;

use std::ops::ControlFlow;

use crate::driver::attempts::OpView;
use crate::driver::mio::{wants_timer, Decision, OpCode};
use crate::driver::time::TimerView;
use crate::driver::{Entry, OpObject};
use crate::error::{IoError, IoResult};
use crate::time::{after, Clock};

verus! {

/// The views of queued operations, the front of the queue first.
pub open spec fn op_views<'arena, O: OpCode>(ops: Seq<OpObject<'arena, O>>) -> Seq<OpView> {
    ops.map_values(|op: OpObject<'arena, O>| (op.user_data, op.code().delay()))
}

/// What some operations decided, and when each did.
pub type Decisions = Seq<(IoResult<Decision>, nat)>;

/// How far a submission has come.
#[verifier::ext_equal]
pub struct Progress {
    /// The timers that run.
    pub timers: Multiset<TimerView>,
    /// The user data of operations that were cancelled before they were submitted.
    pub cancelled: Set<usize>,
    /// The entries reported.
    pub entries: Seq<Entry>,
    /// An operation has completed.
    pub completed: bool,
}

/// The decision of an operation puts its descriptor up for registration.
pub open spec fn registers(progress: Progress, op: OpView, decision: IoResult<Decision>) -> bool {
    decision matches Ok(Decision::Wait(_)) && !progress.cancelled.contains(op.0)
}

/// What the decision of an operation makes of a submission: a decision to wait uses up a cancellation, and the
/// operation is then reported as cancelled; anything else but a timer completes the operation.
pub open spec fn advance(
    progress: Progress,
    op: OpView,
    decision: IoResult<Decision>,
    now: nat,
) -> Progress {
    match decision {
        Ok(Decision::Wait(_)) => if progress.cancelled.contains(op.0) {
            Progress {
                cancelled: progress.cancelled.remove(op.0),
                entries: progress.entries.push(
                    Entry { user_data: op.0, result: Err(IoError::Cancelled) },
                ),
                completed: true,
                ..progress
            }
        } else {
            progress
        },
        Ok(Decision::Completed(transferred)) => if wants_timer(decision) {
            Progress { timers: progress.timers.insert((op.0, after(now, op.1->0@))), ..progress }
        } else {
            Progress {
                entries: progress.entries.push(Entry { user_data: op.0, result: Ok(transferred) }),
                completed: true,
                ..progress
            }
        },
        Err(error) => Progress {
            entries: progress.entries.push(Entry { user_data: op.0, result: Err(error) }),
            completed: true,
            ..progress
        },
    }
}

/// The decisions that ask for a timer were made at times that the clock shows.
pub open spec fn decided_on_time(clock: Clock, decisions: Decisions) -> bool {
    forall|i: int|
        0 <= i < decisions.len() && wants_timer((#[trigger] decisions[i]).0) ==> clock.shows(
            decisions[i].1,
        )
}

/// What the decisions of operations, one after the other, make of a submission.
pub open spec fn advance_all(progress: Progress, ops: Seq<OpView>, decisions: Decisions) -> Progress
    decreases ops.len(),
{
    if ops.len() == 0 {
        progress
    } else {
        advance(
            advance_all(progress, ops.drop_last(), decisions.drop_last()),
            ops.last(),
            decisions.last().0,
            decisions.last().1,
        )
    }
}

/// What one more operation makes of a submission.
pub proof fn lemma_advance_push(
    progress: Progress,
    ops: Seq<OpView>,
    decisions: Decisions,
    op: OpView,
    decision: (IoResult<Decision>, nat),
)
    ensures
        advance_all(progress, ops.push(op), decisions.push(decision)) == advance(
            advance_all(progress, ops, decisions),
            op,
            decision.0,
            decision.1,
        ),
{
    assert(ops.push(op).drop_last() =~= ops);
    assert(decisions.push(decision).drop_last() =~= decisions);
}

/// The result that an operation has come to on an event, if any.
pub open spec fn event_result(flow: IoResult<ControlFlow<usize>>) -> Option<IoResult<usize>> {
    match flow {
        Ok(ControlFlow::Continue(_)) => None,
        Ok(ControlFlow::Break(transferred)) => Some(Ok(transferred)),
        Err(error) => Some(Err(error)),
    }
}

} // verus!
