use std::future::Future;
use std::pin::Pin;
use std::sync::{Arc, Mutex};
use std::task::{Context, Poll, Wake, Waker};

use xenon_rt::asynch::executor::Executor;
use xenon_rt::asynch::task::TaskPhase;

struct SchedWaker {
    sched: Arc<Mutex<Executor>>,
    id: usize,
}

impl Wake for SchedWaker {
    fn wake(self: Arc<Self>) {
        self.wake_by_ref();
    }

    fn wake_by_ref(self: &Arc<Self>) {
        let mut sched = self.sched.lock().unwrap();
        if self.id < sched.task_count() {
            sched.wake(self.id);
        }
    }
}

struct StepLogger {
    state: u8,
    log: Arc<Mutex<Vec<&'static str>>>,
}

impl Future for StepLogger {
    type Output = ();

    fn poll(mut self: Pin<&mut Self>, cx: &mut Context<'_>) -> Poll<()> {
        if self.state == 0 {
            self.log.lock().unwrap().push("first step");
            self.state = 1;
            cx.waker().wake_by_ref();
            Poll::Pending
        } else {
            self.log.lock().unwrap().push("second step");
            Poll::Ready(())
        }
    }
}

type Slot = Option<Pin<Box<dyn Future<Output = ()>>>>;

fn drive_to_idle(sched: &Arc<Mutex<Executor>>, slots: &mut Vec<Slot>) -> usize {
    let mut polls = 0usize;
    loop {
        let next = sched.lock().unwrap().next_task();
        let Some(id) = next else {
            return polls;
        };
        polls += 1;
        let mut fut = slots[id].take().expect("verified scheduler dequeued a live task");
        let waker: Waker = Arc::new(SchedWaker { sched: Arc::clone(sched), id }).into();
        let mut cx = Context::from_waker(&waker);
        let completed = fut.as_mut().poll(&mut cx).is_ready();
        if !completed {
            slots[id] = Some(fut);
        }
        sched.lock().unwrap().finish_poll(id, completed);
    }
}

#[test]
fn computation_side_effects_happen_once_in_order() {
    // Round trip: spawn a suspendable computation, poll it to completion
    // through the scheduler, and observe its side effects exactly once,
    // in its own program order.
    let sched = Arc::new(Mutex::new(Executor::new()));
    let mut slots: Vec<Slot> = Vec::new();
    let log: Arc<Mutex<Vec<&'static str>>> = Arc::new(Mutex::new(Vec::new()));

    let id = sched.lock().unwrap().spawn();
    slots.push(Some(Box::pin(StepLogger { state: 0, log: Arc::clone(&log) })));

    let polls = drive_to_idle(&sched, &mut slots);
    assert_eq!(polls, 2);
    assert_eq!(*log.lock().unwrap(), vec!["first step", "second step"]);
    assert_eq!(sched.lock().unwrap().phase(id), TaskPhase::Completed);
    assert!(slots[id].is_none());
}

#[test]
fn late_wake_from_dropped_waker_path_is_safe() {
    // A waker that outlives its completed task may still fire; the
    // scheduler absorbs it.
    let sched = Arc::new(Mutex::new(Executor::new()));
    let mut slots: Vec<Slot> = Vec::new();
    let log: Arc<Mutex<Vec<&'static str>>> = Arc::new(Mutex::new(Vec::new()));

    let id = sched.lock().unwrap().spawn();
    slots.push(Some(Box::pin(StepLogger { state: 1, log: Arc::clone(&log) })));
    let polls = drive_to_idle(&sched, &mut slots);
    assert_eq!(polls, 1);

    let stale = Arc::new(SchedWaker { sched: Arc::clone(&sched), id });
    let waker: Waker = stale.into();
    waker.wake_by_ref();
    waker.wake();
    assert_eq!(sched.lock().unwrap().queue_len(), 0);
    assert_eq!(sched.lock().unwrap().next_task(), None);
}
