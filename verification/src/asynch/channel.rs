use vstd::prelude::*;

verus! {

/// The shared work queue of runnable task handles.
///
/// One instance rendezvous point between the producers (spawn and every
/// wake path, including re-entrant ones) and the single consumer (the
/// executor's run loop).  All mutation is meant to happen under the
/// interrupt gate; the queue itself is a plain LIFO stack of task ids.
/// `pop` removes the most recently pushed handle; there is no fairness
/// guarantee across tasks.
pub struct WorkQueue {
    items: Vec<usize>,
}

impl View for WorkQueue {
    type V = Seq<usize>;

    closed spec fn view(&self) -> Seq<usize> {
        self.items@
    }
}

impl WorkQueue {
    /// Creates an empty queue.
    pub fn new() -> (q: WorkQueue)
        ensures
            q@ == Seq::<usize>::empty(),
    {
        WorkQueue { items: Vec::new() }
    }

    /// Appends a task handle; never blocks.
    pub fn push(&mut self, id: usize)
        ensures
            final(self)@ == old(self)@.push(id),
    {
        self.items.push(id);
    }

    /// Removes and returns the most recently pushed handle, or `None`
    /// immediately when the queue is empty; never blocks.
    pub fn pop(&mut self) -> (r: Option<usize>)
        ensures
            old(self)@.len() == 0 ==> r is None && final(self)@ == old(self)@,
            old(self)@.len() > 0 ==> r == Some(old(self)@.last()) && final(self)@ == old(self)@.drop_last(),
    {
        self.items.pop()
    }

    /// How many handles are queued right now.
    pub fn len(&self) -> (n: usize)
        ensures
            n == self@.len(),
    {
        self.items.len()
    }
}

} // verus!
