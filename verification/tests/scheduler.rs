use xenon_rt::asynch::executor::Executor;
use xenon_rt::asynch::task::TaskPhase;

#[test]
fn fresh_executor_is_empty() {
    let mut ex = Executor::new();
    assert_eq!(ex.task_count(), 0);
    assert_eq!(ex.queue_len(), 0);
    assert!(!ex.has_work());
    assert_eq!(ex.next_task(), None);
}

#[test]
fn spawn_queues_task() {
    let mut ex = Executor::new();
    let id = ex.spawn();
    assert_eq!(id, 0);
    assert_eq!(ex.task_count(), 1);
    assert_eq!(ex.queue_len(), 1);
    assert_eq!(ex.phase(id), TaskPhase::Queued);
}

#[test]
fn all_spawned_tasks_polled_before_first_park() {
    // Three tasks spawned before the run loop starts: each is polled at
    // least once before next_task first reports an empty queue.
    let mut ex = Executor::new();
    let a = ex.spawn();
    let b = ex.spawn();
    let c = ex.spawn();
    let mut polls = [0usize; 3];
    while let Some(id) = ex.next_task() {
        polls[id] += 1;
        ex.finish_poll(id, true);
    }
    assert_eq!(polls[a], 1);
    assert_eq!(polls[b], 1);
    assert_eq!(polls[c], 1);
}

#[test]
fn pending_without_wake_is_never_polled_again() {
    let mut ex = Executor::new();
    let id = ex.spawn();
    assert_eq!(ex.next_task(), Some(id));
    // The step returned "not ready" and registered no wake.
    let requeued = ex.finish_poll(id, false);
    assert!(!requeued);
    assert_eq!(ex.phase(id), TaskPhase::Idle);
    assert_eq!(ex.queue_len(), 0);
    assert_eq!(ex.next_task(), None);
    assert_eq!(ex.next_task(), None);
    // Only a wake puts it back.
    assert!(ex.wake(id));
    assert_eq!(ex.next_task(), Some(id));
    ex.finish_poll(id, true);
}

#[test]
fn duplicate_wakes_while_queued_are_absorbed() {
    let mut ex = Executor::new();
    let id = ex.spawn();
    assert_eq!(ex.queue_len(), 1);
    for _ in 0..5 {
        let enqueued = ex.wake(id);
        assert!(!enqueued);
    }
    assert_eq!(ex.queue_len(), 1);
    // One dequeue, one poll: no redundant deliveries.
    let mut polls = 0usize;
    while let Some(t) = ex.next_task() {
        polls += 1;
        ex.finish_poll(t, true);
    }
    assert_eq!(polls, 1);
}

#[test]
fn wake_after_completion_is_harmless() {
    let mut ex = Executor::new();
    let id = ex.spawn();
    assert_eq!(ex.next_task(), Some(id));
    ex.finish_poll(id, true);
    assert_eq!(ex.phase(id), TaskPhase::Completed);
    // Late wakes must not queue anything and must not lead to a poll of
    // the empty slot.
    for _ in 0..3 {
        let enqueued = ex.wake(id);
        assert!(!enqueued);
    }
    assert_eq!(ex.queue_len(), 0);
    assert_eq!(ex.next_task(), None);
    assert_eq!(ex.phase(id), TaskPhase::Completed);
}

#[test]
fn wake_during_poll_requeues_on_finish() {
    let mut ex = Executor::new();
    let id = ex.spawn();
    assert_eq!(ex.next_task(), Some(id));
    assert_eq!(ex.phase(id), TaskPhase::Polling { rewoken: false });
    // The computation wakes itself from inside its own step.
    let enqueued = ex.wake(id);
    assert!(!enqueued);
    assert_eq!(ex.phase(id), TaskPhase::Polling { rewoken: true });
    assert_eq!(ex.queue_len(), 0);
    let requeued = ex.finish_poll(id, false);
    assert!(requeued);
    assert_eq!(ex.phase(id), TaskPhase::Queued);
    assert_eq!(ex.queue_len(), 1);
}

#[test]
fn wake_during_final_poll_is_absorbed() {
    let mut ex = Executor::new();
    let id = ex.spawn();
    assert_eq!(ex.next_task(), Some(id));
    ex.wake(id);
    // Completion wins over the rewake: nothing is requeued.
    let requeued = ex.finish_poll(id, true);
    assert!(!requeued);
    assert_eq!(ex.phase(id), TaskPhase::Completed);
    assert_eq!(ex.queue_len(), 0);
}

#[test]
fn two_computations_one_and_three_polls() {
    // A completes after 1 poll; B completes after 3 polls, re-queuing
    // itself via wake after each non-final step.  Run until the queue is
    // empty: exactly 1 poll of A and 3 of B, both completed, queue empty.
    let mut ex = Executor::new();
    let a = ex.spawn();
    let b = ex.spawn();
    let mut remaining = [1u64, 3u64];
    let mut polls = [0usize; 2];
    let mut order = Vec::new();
    while let Some(id) = ex.next_task() {
        polls[id] += 1;
        order.push(id);
        remaining[id] -= 1;
        if remaining[id] > 0 {
            ex.wake(id);
        }
        ex.finish_poll(id, remaining[id] == 0);
    }
    assert_eq!(polls[a], 1);
    assert_eq!(polls[b], 3);
    // LIFO pop order: B was pushed last and keeps re-queuing itself.
    assert_eq!(order, vec![b, b, b, a]);
    assert_eq!(ex.phase(a), TaskPhase::Completed);
    assert_eq!(ex.phase(b), TaskPhase::Completed);
    assert_eq!(ex.queue_len(), 0);
    assert_eq!(ex.next_task(), None);
}

#[test]
fn run_until_parked_completes_scripted_tasks() {
    let mut ex = Executor::new();
    ex.spawn();
    ex.spawn();
    let mut steps = vec![1u64, 3u64];
    ex.run_until_parked(&mut steps);
    assert_eq!(steps, vec![0, 0]);
    assert_eq!(ex.queue_len(), 0);
    assert_eq!(ex.phase(0), TaskPhase::Completed);
    assert_eq!(ex.phase(1), TaskPhase::Completed);
}

#[test]
fn reentrant_wake_resumes_parked_loop() {
    // The main loop finds no work and would park in the host wait; a
    // re-entrant wake arrives; the loop pops and polls exactly that task
    // on its next iteration, and the queue length changed by exactly one.
    let mut ex = Executor::new();
    let id = ex.spawn();
    assert_eq!(ex.next_task(), Some(id));
    ex.finish_poll(id, false);
    // Parked: queue empty.
    assert_eq!(ex.next_task(), None);
    let before = ex.queue_len();
    let enqueued = ex.wake(id);
    assert!(enqueued);
    let after = ex.queue_len();
    assert_eq!(after - before, 1);
    assert_eq!(ex.next_task(), Some(id));
    ex.finish_poll(id, true);
    assert_eq!(ex.phase(id), TaskPhase::Completed);
}

#[test]
fn spawn_while_running_gets_polled() {
    let mut ex = Executor::new();
    let a = ex.spawn();
    assert_eq!(ex.next_task(), Some(a));
    // The running task spawns a second one from inside its step.
    let b = ex.spawn();
    ex.finish_poll(a, true);
    assert_eq!(ex.next_task(), Some(b));
    ex.finish_poll(b, true);
    assert_eq!(ex.next_task(), None);
}
