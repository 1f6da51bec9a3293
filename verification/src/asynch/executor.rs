use vstd::prelude::*;

use crate::asynch::channel::WorkQueue;
use crate::asynch::task::{Task, TaskPhase};

verus! {

/// Mathematical snapshot of the whole scheduler: the phase of every task
/// (indexed by task id), the contents of the work queue (task ids, oldest
/// first, popped from the back), and how many times each task has been
/// dequeued for polling.
#[verifier::ext_equal]
pub ghost struct SchedView {
    pub tasks: Seq<TaskPhase>,
    pub queue: Seq<usize>,
    pub polls: Seq<nat>,
}

impl SchedView {
    /// Whether some queue slot holds handle `i`.
    pub open spec fn in_queue(self, i: int) -> bool {
        exists|k: int| 0 <= k < self.queue.len() && self.queue[k] == i
    }

    /// Scheduler well-formedness: the task table is addressable, every
    /// queued handle names a real task, no handle is queued twice, a task
    /// is `Queued` exactly when its handle is in the queue, and a task
    /// that has never been polled is still `Queued` (spawning queues it
    /// and only a dequeue removes it).
    pub open spec fn wf(self) -> bool {
        &&& self.tasks.len() <= usize::MAX
        &&& self.polls.len() == self.tasks.len()
        &&& forall|k: int|
                0 <= k < self.queue.len() ==> (#[trigger] self.queue[k]) < self.tasks.len()
        &&& forall|k1: int, k2: int|
                0 <= k1 < k2 < self.queue.len() ==> self.queue[k1] != self.queue[k2]
        &&& forall|i: int|
                0 <= i < self.tasks.len() ==> ((#[trigger] self.tasks[i]) is Queued
                    <==> self.in_queue(i))
        &&& forall|i: int|
                0 <= i < self.tasks.len() ==> (self.polls[i] == 0 ==> (#[trigger] self.tasks[i]) is Queued)
    }
}

/// Spawning wraps a fresh computation in a task and pushes its handle:
/// the new task is `Queued` with zero polls.
pub open spec fn spawn_t(v: SchedView) -> SchedView {
    SchedView {
        tasks: v.tasks.push(TaskPhase::Queued),
        queue: v.queue.push(v.tasks.len() as usize),
        polls: v.polls.push(0),
    }
}

/// Waking task `id`: an `Idle` task is queued again; a task being polled
/// is only marked rewoken (its handle is pushed when the poll finishes);
/// a task already queued, or completed, is left exactly as it is.
pub open spec fn wake_t(v: SchedView, id: usize) -> SchedView {
    match v.tasks[id as int] {
        TaskPhase::Idle => SchedView {
            tasks: v.tasks.update(id as int, TaskPhase::Queued),
            queue: v.queue.push(id),
            polls: v.polls,
        },
        TaskPhase::Polling { rewoken: _ } => SchedView {
            tasks: v.tasks.update(id as int, TaskPhase::Polling { rewoken: true }),
            queue: v.queue,
            polls: v.polls,
        },
        _ => v,
    }
}

/// Which task the executor polls next: the most recently queued handle.
pub open spec fn next_pick(v: SchedView) -> Option<usize> {
    if v.queue.len() == 0 {
        None
    } else {
        Some(v.queue.last())
    }
}

/// Dequeuing for a poll: the popped task moves to `Polling` and its poll
/// count rises by one; an empty queue changes nothing (the executor parks).
pub open spec fn next_t(v: SchedView) -> SchedView {
    if v.queue.len() == 0 {
        v
    } else {
        let id = v.queue.last();
        SchedView {
            tasks: v.tasks.update(id as int, TaskPhase::Polling { rewoken: false }),
            queue: v.queue.drop_last(),
            polls: v.polls.update(id as int, v.polls[id as int] + 1),
        }
    }
}

/// Finishing a poll of task `id`: on completion the slot stays empty for
/// good (a wake delivered during the step is absorbed); otherwise the task
/// is queued again if it was rewoken during the step, and suspends `Idle`
/// if not.
pub open spec fn finish_t(v: SchedView, id: usize, completed: bool) -> SchedView {
    if completed {
        SchedView {
            tasks: v.tasks.update(id as int, TaskPhase::Completed),
            queue: v.queue,
            polls: v.polls,
        }
    } else {
        match v.tasks[id as int] {
            TaskPhase::Polling { rewoken: true } => SchedView {
                tasks: v.tasks.update(id as int, TaskPhase::Queued),
                queue: v.queue.push(id),
                polls: v.polls,
            },
            _ => SchedView {
                tasks: v.tasks.update(id as int, TaskPhase::Idle),
                queue: v.queue,
                polls: v.polls,
            },
        }
    }
}

pub proof fn lemma_spawn_preserves_wf(v: SchedView)
    requires
        v.wf(),
        v.tasks.len() < usize::MAX,
    ensures
        spawn_t(v).wf(),
{
    let w = spawn_t(v);
    let n = v.tasks.len() as int;
    assert(w.queue[v.queue.len() as int] == n);
    assert forall|i: int|
        0 <= i < w.tasks.len() implies ((#[trigger] w.tasks[i]) is Queued
            <==> w.in_queue(i)) by {
        if i == n {
            assert(w.queue[v.queue.len() as int] == i);
            assert(w.in_queue(i));
        } else {
            if v.in_queue(i) {
                let k = choose|k: int| 0 <= k < v.queue.len() && v.queue[k] == i;
                assert(w.queue[k] == i);
                assert(w.in_queue(i));
            }
            if w.in_queue(i) {
                let k = choose|k: int| 0 <= k < w.queue.len() && w.queue[k] == i;
                assert(k < v.queue.len());
                assert(v.queue[k] == i);
                assert(v.in_queue(i));
            }
        }
    }
}

pub proof fn lemma_wake_preserves_wf(v: SchedView, id: usize)
    requires
        v.wf(),
        id < v.tasks.len(),
    ensures
        wake_t(v, id).wf(),
{
    let w = wake_t(v, id);
    match v.tasks[id as int] {
        TaskPhase::Idle => {
            assert(!v.in_queue(id as int));
            assert forall|k1: int, k2: int|
                0 <= k1 < k2 < w.queue.len() implies w.queue[k1] != w.queue[k2] by {
                if k2 == v.queue.len() as int {
                    assert(w.queue[k1] == v.queue[k1]);
                    if v.queue[k1] == id {
                        assert(v.in_queue(id as int));
                    }
                }
            }
            assert forall|i: int|
                0 <= i < w.tasks.len() implies ((#[trigger] w.tasks[i]) is Queued
                    <==> w.in_queue(i)) by {
                if i == id {
                    assert(w.queue[v.queue.len() as int] == i);
                    assert(w.in_queue(i));
                } else {
                    if v.in_queue(i) {
                        let k = choose|k: int| 0 <= k < v.queue.len() && v.queue[k] == i;
                        assert(w.queue[k] == i);
                        assert(w.in_queue(i));
                    }
                    if w.in_queue(i) {
                        let k = choose|k: int| 0 <= k < w.queue.len() && w.queue[k] == i;
                        assert(k < v.queue.len());
                        assert(v.queue[k] == i);
                        assert(v.in_queue(i));
                    }
                }
            }
        }
        TaskPhase::Polling { rewoken: _ } => {
            assert(!v.in_queue(id as int));
            assert forall|i: int|
                0 <= i < w.tasks.len() implies ((#[trigger] w.tasks[i]) is Queued
                    <==> w.in_queue(i)) by {
                assert(w.queue == v.queue);
                if i != id {
                    assert(w.tasks[i] == v.tasks[i]);
                }
            }
        }
        _ => {
        }
    }
}

pub proof fn lemma_next_preserves_wf(v: SchedView)
    requires
        v.wf(),
    ensures
        next_t(v).wf(),
{
    if v.queue.len() > 0 {
        let w = next_t(v);
        let id = v.queue.last();
        let li = v.queue.len() - 1;
        assert(v.queue[li] == id);
        assert(v.in_queue(id as int));
        assert(v.tasks[id as int] is Queued);
        assert forall|i: int|
            0 <= i < w.tasks.len() implies ((#[trigger] w.tasks[i]) is Queued
                <==> w.in_queue(i)) by {
            if i == id {
                if w.in_queue(i) {
                    let k = choose|k: int| 0 <= k < w.queue.len() && w.queue[k] == i;
                    assert(v.queue[k] == id);
                    assert(v.queue[li] == id);
                    assert(k < li);
                    assert(false);
                }
            } else {
                if v.in_queue(i) {
                    let k = choose|k: int| 0 <= k < v.queue.len() && v.queue[k] == i;
                    assert(k != li);
                    assert(w.queue[k] == i);
                    assert(w.in_queue(i));
                }
                if w.in_queue(i) {
                    let k = choose|k: int| 0 <= k < w.queue.len() && w.queue[k] == i;
                    assert(v.queue[k] == i);
                    assert(v.in_queue(i));
                }
            }
        }
    }
}

pub proof fn lemma_finish_preserves_wf(v: SchedView, id: usize, completed: bool)
    requires
        v.wf(),
        id < v.tasks.len(),
        v.tasks[id as int] is Polling,
    ensures
        finish_t(v, id, completed).wf(),
{
    let w = finish_t(v, id, completed);
    assert(!v.in_queue(id as int));
    if !completed && (v.tasks[id as int] matches TaskPhase::Polling { rewoken: true }) {
        assert forall|k1: int, k2: int|
            0 <= k1 < k2 < w.queue.len() implies w.queue[k1] != w.queue[k2] by {
            if k2 == v.queue.len() as int {
                assert(w.queue[k1] == v.queue[k1]);
                if v.queue[k1] == id {
                    assert(v.in_queue(id as int));
                }
            }
        }
        assert forall|i: int|
            0 <= i < w.tasks.len() implies ((#[trigger] w.tasks[i]) is Queued
                <==> w.in_queue(i)) by {
            if i == id {
                assert(w.queue[v.queue.len() as int] == i);
                assert(w.in_queue(i));
            } else {
                if v.in_queue(i) {
                    let k = choose|k: int| 0 <= k < v.queue.len() && v.queue[k] == i;
                    assert(w.queue[k] == i);
                    assert(w.in_queue(i));
                }
                if w.in_queue(i) {
                    let k = choose|k: int| 0 <= k < w.queue.len() && w.queue[k] == i;
                    assert(k < v.queue.len());
                    assert(v.queue[k] == i);
                    assert(v.in_queue(i));
                }
            }
        }
    } else {
        assert forall|i: int|
            0 <= i < w.tasks.len() implies ((#[trigger] w.tasks[i]) is Queued
                <==> w.in_queue(i)) by {
            assert(w.queue == v.queue);
            if i != id {
                assert(w.tasks[i] == v.tasks[i]);
            }
        }
    }
}

/// The executor: owns the task table and the consumer side of the work
/// queue, and makes every scheduling decision.  Whoever runs it performs
/// the host-facing steps in between: parking when `next_task` returns
/// `None`, notifying the host after an operation queued work, and stepping
/// the actual computation of a task between `next_task` and `finish_poll`.
pub struct Executor {
    tasks: Vec<Task>,
    queue: WorkQueue,
    polls: Ghost<Seq<nat>>,
}

impl View for Executor {
    type V = SchedView;

    closed spec fn view(&self) -> SchedView {
        SchedView {
            tasks: self.tasks@.map_values(|t: Task| t.phase),
            queue: self.queue@,
            polls: self.polls@,
        }
    }
}

impl Executor {
    pub open spec fn inv(self) -> bool {
        self@.wf()
    }

    /// A fresh executor: no tasks, an empty queue.
    pub fn new() -> (e: Executor)
        ensures
            e.inv(),
            e@.tasks.len() == 0,
            e@.queue.len() == 0,
    {
        let e = Executor {
            tasks: Vec::new(),
            queue: WorkQueue::new(),
            polls: Ghost(Seq::empty()),
        };
        proof {
            assert(e@.tasks.len() == 0);
        }
        e
    }

    /// How many tasks have ever been spawned.
    pub fn task_count(&self) -> (n: usize)
        ensures
            n == self@.tasks.len(),
    {
        self.tasks.len()
    }

    /// How many handles sit in the work queue right now.
    pub fn queue_len(&self) -> (n: usize)
        ensures
            n == self@.queue.len(),
    {
        self.queue.len()
    }

    /// The current phase of task `id`.
    pub fn phase(&self, id: usize) -> (p: TaskPhase)
        requires
            id < self@.tasks.len(),
        ensures
            p == self@.tasks[id as int],
    {
        self.tasks[id].phase
    }

    /// Whether a queued handle is waiting; when not, the run loop parks in
    /// the host's blocking wait until new work is signalled.
    pub fn has_work(&self) -> (b: bool)
        ensures
            b == (self@.queue.len() > 0),
    {
        self.queue.len() > 0
    }

    /// Submits a new computation: wraps it in a task and queues its
    /// handle.  Returns the new task's id, which the caller binds to the
    /// stored computation.  The caller then notifies the host that work is
    /// available.
    pub fn spawn(&mut self) -> (id: usize)
        requires
            old(self).inv(),
        ensures
            final(self).inv(),
            id == old(self)@.tasks.len(),
            final(self)@ == spawn_t(old(self)@),
    {
        let id = self.tasks.len();
        self.tasks.push(Task { phase: TaskPhase::Queued });
        self.queue.push(id);
        proof {
            self.polls@ = self.polls@.push(0);
            assert(self@.tasks =~= spawn_t(old(self)@).tasks);
            assert(self@ =~= spawn_t(old(self)@));
            assert(vstd::std_specs::vec::spec_vec_len(&self.tasks) == self.tasks@.len());
            lemma_spawn_preserves_wf(old(self)@);
        }
        id
    }

    /// Signals that task `id` should be polled again.  Safe to call any
    /// number of times, from re-entrant (interrupt-like) contexts, while
    /// the task is queued, being polled, or already completed: only an
    /// `Idle` task is actually queued again.  Returns whether a handle was
    /// queued, in which case the caller notifies the host.
    pub fn wake(&mut self, id: usize) -> (enqueued: bool)
        requires
            old(self).inv(),
            id < old(self)@.tasks.len(),
        ensures
            final(self).inv(),
            final(self)@ == wake_t(old(self)@, id),
            enqueued == (old(self)@.tasks[id as int] is Idle),
    {
        let p = self.tasks[id].phase;
        match p {
            TaskPhase::Idle => {
                self.tasks[id] = Task { phase: TaskPhase::Queued };
                self.queue.push(id);
                proof {
                    assert(self@.tasks =~= wake_t(old(self)@, id).tasks);
                    assert(self@ =~= wake_t(old(self)@, id));
                    lemma_wake_preserves_wf(old(self)@, id);
                }
                true
            }
            TaskPhase::Polling { rewoken: _ } => {
                self.tasks[id] = Task { phase: TaskPhase::Polling { rewoken: true } };
                proof {
                    assert(self@.tasks =~= wake_t(old(self)@, id).tasks);
                    assert(self@ =~= wake_t(old(self)@, id));
                    lemma_wake_preserves_wf(old(self)@, id);
                }
                false
            }
            _ => {
                proof {
                    assert(self@ =~= wake_t(old(self)@, id));
                }
                false
            }
        }
    }

    /// Pops the next runnable task and marks it `Polling`, or reports that
    /// the queue is empty (the run loop then parks in the host's blocking
    /// wait).  The caller steps the returned task's computation exactly
    /// once and then calls [`Self::finish_poll`].
    pub fn next_task(&mut self) -> (r: Option<usize>)
        requires
            old(self).inv(),
        ensures
            final(self).inv(),
            final(self)@ == next_t(old(self)@),
            r == next_pick(old(self)@),
            r matches Some(id) ==> id < final(self)@.tasks.len()
                && final(self)@.tasks[id as int] == (TaskPhase::Polling { rewoken: false }),
            r is None ==> final(self)@ == old(self)@ && old(self)@.queue.len() == 0,
    {
        let popped = self.queue.pop();
        match popped {
            None => {
                proof {
                    assert(self@ =~= old(self)@);
                }
                None
            }
            Some(id) => {
                proof {
                    let li = old(self)@.queue.len() - 1;
                    assert(old(self)@.queue[li] == id);
                    assert(old(self)@.in_queue(id as int));
                    assert(old(self)@.tasks[id as int] is Queued);
                }
                self.tasks[id] = Task { phase: TaskPhase::Polling { rewoken: false } };
                proof {
                    self.polls@ = self.polls@.update(id as int, self.polls@[id as int] + 1);
                    assert(self@.tasks =~= next_t(old(self)@).tasks);
                    assert(self@ =~= next_t(old(self)@));
                    lemma_next_preserves_wf(old(self)@);
                }
                Some(id)
            }
        }
    }

    /// Records the outcome of stepping task `id`'s computation: completed,
    /// or not ready yet.  A task that was rewoken during its own step goes
    /// straight back onto the queue (the caller then notifies the host);
    /// an un-rewoken pending task suspends until some wake arrives; a
    /// completed task's slot stays empty for good.
    pub fn finish_poll(&mut self, id: usize, completed: bool) -> (requeued: bool)
        requires
            old(self).inv(),
            id < old(self)@.tasks.len(),
            old(self)@.tasks[id as int] is Polling,
        ensures
            final(self).inv(),
            final(self)@ == finish_t(old(self)@, id, completed),
            requeued == (!completed
                && old(self)@.tasks[id as int] == (TaskPhase::Polling { rewoken: true })),
    {
        if completed {
            self.tasks[id] = Task { phase: TaskPhase::Completed };
            proof {
                assert(self@.tasks =~= finish_t(old(self)@, id, true).tasks);
                assert(self@ =~= finish_t(old(self)@, id, true));
                lemma_finish_preserves_wf(old(self)@, id, true);
            }
            false
        } else {
            let p = self.tasks[id].phase;
            let rewoken = match p {
                TaskPhase::Polling { rewoken } => rewoken,
                _ => false,
            };
            if rewoken {
                self.tasks[id] = Task { phase: TaskPhase::Queued };
                self.queue.push(id);
                proof {
                    assert(self@.tasks =~= finish_t(old(self)@, id, false).tasks);
                    assert(self@ =~= finish_t(old(self)@, id, false));
                    lemma_finish_preserves_wf(old(self)@, id, false);
                }
                true
            } else {
                self.tasks[id] = Task { phase: TaskPhase::Idle };
                proof {
                    assert(self@.tasks =~= finish_t(old(self)@, id, false).tasks);
                    assert(self@ =~= finish_t(old(self)@, id, false));
                    lemma_finish_preserves_wf(old(self)@, id, false);
                }
                false
            }
        }
    }

    /// Drives a table of scripted computations to completion: computation
    /// `i` reports completion on its `steps[i]`-th poll and re-queues
    /// itself, by waking from inside its own step, after every non-final
    /// one.  The loop is the executor run loop in miniature: pop, step,
    /// record the outcome, until the queue is empty.  At that point every
    /// computation has completed and was polled exactly its scripted
    /// number of times, in strict program order.
    pub fn run_until_parked(&mut self, steps: &mut Vec<u64>)
        requires
            old(self).inv(),
            old(steps).len() == old(self)@.tasks.len(),
            forall|i: int|
                0 <= i < old(self)@.tasks.len() ==> (#[trigger] old(self)@.tasks[i]) is Queued,
            forall|i: int| 0 <= i < old(steps)@.len() ==> (#[trigger] old(steps)@[i]) >= 1,
        ensures
            final(self).inv(),
            final(self)@.tasks.len() == old(self)@.tasks.len(),
            final(self)@.queue.len() == 0,
            final(steps).len() == old(steps).len(),
            forall|i: int|
                0 <= i < final(self)@.tasks.len() ==> (#[trigger] final(self)@.tasks[i])
                    is Completed,
            forall|i: int| 0 <= i < final(steps)@.len() ==> (#[trigger] final(steps)@[i]) == 0,
            forall|i: int|
                0 <= i < final(self)@.tasks.len() ==> (#[trigger] final(self)@.polls[i])
                    == old(self)@.polls[i] + old(steps)@[i],
    {
        let ghost init_polls = self@.polls;
        let ghost init_steps = steps@;
        while self.has_work()
            invariant
                self.inv(),
                steps@.len() == self@.tasks.len(),
                self@.tasks.len() == init_steps.len(),
                init_polls.len() == init_steps.len(),
                forall|i: int|
                    0 <= i < self@.tasks.len() ==> ((#[trigger] self@.tasks[i]) is Queued
                        || self@.tasks[i] is Completed),
                forall|i: int|
                    0 <= i < self@.tasks.len() ==> ((#[trigger] self@.tasks[i]) is Queued
                        <==> steps@[i] >= 1),
                forall|i: int| 0 <= i < steps@.len() ==> (#[trigger] steps@[i]) <= init_steps[i],
                forall|i: int|
                    0 <= i < self@.tasks.len() ==> (#[trigger] self@.polls[i]) == init_polls[i]
                        + init_steps[i] - steps@[i],
            decreases total_steps(steps@),
        {
            let ghost pre_sched = self@;
            let ghost pre_steps = steps@;
            let r = self.next_task();
            match r {
                Some(id) => {
                    proof {
                        let li = pre_sched.queue.len() - 1;
                        assert(pre_sched.queue[li] == id);
                        assert(pre_sched.in_queue(id as int));
                        assert(pre_sched.tasks[id as int] is Queued);
                    }
                    let remaining = steps[id];
                    let new_remaining = remaining - 1;
                    steps[id] = new_remaining;
                    if new_remaining > 0 {
                        self.wake(id);
                    }
                    self.finish_poll(id, new_remaining == 0);
                    proof {
                        lemma_total_steps_update(pre_steps, id as int, new_remaining);
                    }
                }
                None => {
                    proof {
                        assert(false);
                    }
                }
            }
        }
        proof {
            assert forall|i: int|
                0 <= i < self@.tasks.len() implies (#[trigger] self@.tasks[i]) is Completed by {
                if self@.tasks[i] is Queued {
                    assert(self@.in_queue(i));
                    let k = choose|k: int| 0 <= k < self@.queue.len() && self@.queue[k] == i;
                    assert(false);
                }
            }
            assert forall|i: int| 0 <= i < steps@.len() implies (#[trigger] steps@[i]) == 0 by {
                assert(self@.tasks[i] is Completed);
                assert(!(self@.tasks[i] is Queued));
            }
            assert forall|i: int|
                0 <= i < self@.tasks.len() implies (#[trigger] self@.polls[i]) == init_polls[i]
                    + init_steps[i] by {
                assert(steps@[i] == 0);
            }
        }
    }
}


/// One scheduler operation, for stating laws over whole histories of
/// scheduler activity.
#[derive(Clone, Copy, Debug)]
pub enum SchedOp {
    Spawn,
    Wake(usize),
    Next,
    Finish(usize, bool),
}

/// Applies one operation exactly as the corresponding executor method
/// does; an operation whose precondition does not hold leaves the state
/// unchanged.
pub open spec fn apply_op(v: SchedView, op: SchedOp) -> SchedView {
    match op {
        SchedOp::Spawn => if v.tasks.len() < usize::MAX {
            spawn_t(v)
        } else {
            v
        },
        SchedOp::Wake(id) => if (id as int) < v.tasks.len() {
            wake_t(v, id)
        } else {
            v
        },
        SchedOp::Next => next_t(v),
        SchedOp::Finish(id, completed) => if (id as int) < v.tasks.len()
            && v.tasks[id as int] is Polling {
            finish_t(v, id, completed)
        } else {
            v
        },
    }
}

/// Applies a sequence of operations in order.
pub open spec fn apply_ops(v: SchedView, ops: Seq<SchedOp>) -> SchedView
    decreases ops.len(),
{
    if ops.len() == 0 {
        v
    } else {
        apply_ops(apply_op(v, ops[0]), ops.subrange(1, ops.len() as int))
    }
}

pub proof fn lemma_op_preserves_wf(v: SchedView, op: SchedOp)
    requires
        v.wf(),
    ensures
        apply_op(v, op).wf(),
{
    match op {
        SchedOp::Spawn => {
            if v.tasks.len() < usize::MAX {
                lemma_spawn_preserves_wf(v);
            }
        }
        SchedOp::Wake(id) => {
            if (id as int) < v.tasks.len() {
                lemma_wake_preserves_wf(v, id);
            }
        }
        SchedOp::Next => {
            lemma_next_preserves_wf(v);
        }
        SchedOp::Finish(id, completed) => {
            if (id as int) < v.tasks.len() && v.tasks[id as int] is Polling {
                lemma_finish_preserves_wf(v, id, completed);
            }
        }
    }
}

/// Law: when the executor finds the queue empty and parks for the first
/// time, every task spawned so far has been polled at least once — no
/// spawned computation is starved before the first park.
pub proof fn lemma_parked_implies_all_polled(v: SchedView)
    requires
        v.wf(),
        v.queue.len() == 0,
    ensures
        forall|i: int| 0 <= i < v.tasks.len() ==> (#[trigger] v.polls[i]) >= 1,
{
    assert forall|i: int| 0 <= i < v.tasks.len() implies (#[trigger] v.polls[i]) >= 1 by {
        if v.polls[i] == 0 {
            assert(v.tasks[i] is Queued);
            assert(v.in_queue(i));
            let k = choose|k: int| 0 <= k < v.queue.len() && v.queue[k] == i;
            assert(false);
        }
    }
}

/// Law: a task polled to "not ready" that registered no wake is never
/// polled again.  Any history of scheduler operations that does not wake
/// it leaves it `Idle` with its poll count untouched.
pub proof fn lemma_unwoken_idle_never_polled(v: SchedView, id: usize, ops: Seq<SchedOp>)
    requires
        v.wf(),
        id < v.tasks.len(),
        v.tasks[id as int] is Idle,
        forall|k: int| 0 <= k < ops.len() ==> (#[trigger] ops[k]) != SchedOp::Wake(id),
    ensures
        apply_ops(v, ops).wf(),
        apply_ops(v, ops).tasks.len() >= v.tasks.len(),
        apply_ops(v, ops).tasks[id as int] is Idle,
        apply_ops(v, ops).polls[id as int] == v.polls[id as int],
    decreases ops.len(),
{
    if ops.len() > 0 {
        let op = ops[0];
        let v1 = apply_op(v, op);
        let rest = ops.subrange(1, ops.len() as int);
        lemma_op_preserves_wf(v, op);
        match op {
            SchedOp::Spawn => {}
            SchedOp::Wake(id2) => {
                assert(ops[0] != SchedOp::Wake(id));
                assert(id2 != id);
            }
            SchedOp::Next => {
                if v.queue.len() > 0 {
                    let last = v.queue.last();
                    let li = v.queue.len() - 1;
                    assert(v.queue[li] == last);
                    assert(v.in_queue(last as int));
                    assert(v.tasks[last as int] is Queued);
                    assert(last != id);
                }
            }
            SchedOp::Finish(id2, completed) => {
                if (id2 as int) < v.tasks.len() && v.tasks[id2 as int] is Polling {
                    assert(id2 != id);
                }
            }
        }
        assert(v1.tasks[id as int] is Idle);
        assert(v1.polls[id as int] == v.polls[id as int]);
        assert forall|k: int| 0 <= k < rest.len() implies (#[trigger] rest[k]) != SchedOp::Wake(
            id,
        ) by {
            assert(rest[k] == ops[k + 1]);
        }
        lemma_unwoken_idle_never_polled(v1, id, rest);
    }
}

/// Waking one task over and over, back to back.
pub open spec fn wake_many(v: SchedView, id: usize, n: nat) -> SchedView
    decreases n,
{
    if n == 0 {
        v
    } else {
        wake_t(wake_many(v, id, (n - 1) as nat), id)
    }
}

/// Law: waking a task that is already queued, any number of times, is
/// absorbed completely — the queue does not grow, no extra poll is
/// scheduled, the scheduler state does not change at all.
pub proof fn lemma_duplicate_wakes_absorbed(v: SchedView, id: usize, n: nat)
    requires
        id < v.tasks.len(),
        v.tasks[id as int] is Queued,
    ensures
        wake_many(v, id, n) == v,
    decreases n,
{
    if n > 0 {
        lemma_duplicate_wakes_absorbed(v, id, (n - 1) as nat);
    }
}

/// Law: any number of wakes delivered while a task is being polled
/// collapse into one: the first marks the task rewoken, the rest change
/// nothing, so at most one requeue follows the poll.
pub proof fn lemma_wakes_during_poll_collapse(v: SchedView, id: usize, n: nat)
    requires
        id < v.tasks.len(),
        v.tasks[id as int] is Polling,
        n >= 1,
    ensures
        wake_many(v, id, n) == wake_t(v, id),
    decreases n,
{
    if n == 1 {
        assert(wake_many(v, id, 0) == v);
        assert(wake_many(v, id, 1) == wake_t(v, id));
    } else {
        lemma_wakes_during_poll_collapse(v, id, (n - 1) as nat);
        let w1 = wake_t(v, id);
        assert(wake_many(v, id, n) == wake_t(wake_many(v, id, (n - 1) as nat), id));
        assert(w1.tasks[id as int] == (TaskPhase::Polling { rewoken: true }));
        assert(wake_t(w1, id).tasks =~= w1.tasks);
        assert(wake_t(w1, id) =~= w1);
        assert(wake_many(v, id, n) == w1);
    }
}

/// Law: waking a task after it has reported completion, any number of
/// times, changes nothing — no handle is queued, so no poll of the empty
/// slot can follow and nothing can crash.
pub proof fn lemma_wake_after_completion_absorbed(v: SchedView, id: usize, n: nat)
    requires
        id < v.tasks.len(),
        v.tasks[id as int] is Completed,
    ensures
        wake_many(v, id, n) == v,
    decreases n,
{
    if n > 0 {
        lemma_wake_after_completion_absorbed(v, id, (n - 1) as nat);
    }
}

/// Law: the queue never holds a completed task's handle, so a dequeue
/// always reaches a stored computation — the fatal "polled after
/// completion" violation is unreachable in a well-formed scheduler.
pub proof fn lemma_no_poll_of_completed(v: SchedView)
    requires
        v.wf(),
    ensures
        forall|k: int|
            0 <= k < v.queue.len() ==> !((#[trigger] v.tasks[v.queue[k] as int]) is Completed),
        next_pick(v) matches Some(id) ==> v.tasks[id as int] is Queued,
{
    assert forall|k: int|
        0 <= k < v.queue.len() implies !((#[trigger] v.tasks[v.queue[k] as int])
        is Completed) by {
        assert(v.in_queue(v.queue[k] as int));
        assert(v.tasks[v.queue[k] as int] is Queued);
    }
    if v.queue.len() > 0 {
        let li = v.queue.len() - 1;
        assert(v.queue[li] == v.queue.last());
        assert(v.in_queue(v.queue.last() as int));
    }
}

/// Total pending polls over a table of scripted computations.
pub open spec fn total_steps(s: Seq<u64>) -> nat
    decreases s.len(),
{
    if s.len() == 0 {
        0
    } else {
        total_steps(s.drop_last()) + s.last() as nat
    }
}

proof fn lemma_total_steps_update(s: Seq<u64>, i: int, x: u64)
    requires
        0 <= i < s.len(),
    ensures
        total_steps(s.update(i, x)) == total_steps(s) - s[i] + x,
    decreases s.len(),
{
    let t = s.update(i, x);
    if i == s.len() - 1 {
        assert(t.drop_last() =~= s.drop_last());
        assert(t.last() == x);
    } else {
        assert(t.drop_last() =~= s.drop_last().update(i, x));
        lemma_total_steps_update(s.drop_last(), i, x);
        assert(t.last() == s.last());
    }
}

} // verus!
