use vstd::prelude::*;

verus! {

/// Where a task stands in its lifecycle.
///
/// A task is created `Queued` (spawning pushes it straight onto the work
/// queue).  Dequeuing it moves it to `Polling` while the executor steps its
/// computation; a wake delivered during that step only marks it `rewoken`.
/// When the step returns, the task becomes `Queued` again (if it was
/// rewoken), `Idle` (suspended until some wake arrives), or `Completed`
/// (its slot stays empty forever and every later wake is absorbed).
#[derive(Clone, Copy, PartialEq, Eq, Structural, Debug)]
pub enum TaskPhase {
    /// The task's handle sits in the work queue awaiting a poll.
    Queued,
    /// The executor is stepping the task's computation right now;
    /// `rewoken` records whether a wake arrived during the step.
    Polling { rewoken: bool },
    /// The last poll returned "not ready" and no wake has arrived since;
    /// only a wake can put the task back on the queue.
    Idle,
    /// The computation reported completion; the task is inert.
    Completed,
}

/// One unit of suspended computation, as the scheduler sees it: the phase
/// of its slot.  The stored computation itself is opaque to the scheduler;
/// whoever runs the executor holds it and steps it when told to.
pub struct Task {
    pub phase: TaskPhase,
}

} // verus!
