//! The shared task queue: a FIFO sequence of pending tasks.
//!
//! This is the sequential core of the pool's one shared queue. Insertion
//! order is preserved; tasks leave from the front, one at a time. The queue
//! is unbounded on purpose: there is no admission control, so enqueuing never
//! fails. Concurrent callers must serialize every access through one lock
//! around the whole structure; nothing in here synchronizes by itself.

use vstd::prelude::*;

verus! {

/// A FIFO queue of pending tasks.
///
/// The view of a queue is the mathematical sequence of its pending tasks,
/// front first.
pub struct TaskQueue<T> {
    items: Vec<T>,
}

impl<T> View for TaskQueue<T> {
    type V = Seq<T>;

    closed spec fn view(&self) -> Seq<T> {
        self.items@
    }
}

impl<T> TaskQueue<T> {
    /// Creates an empty queue.
    pub fn new() -> (q: Self)
        ensures
            q@ == Seq::<T>::empty(),
    {
        TaskQueue { items: Vec::new() }
    }

    /// The number of pending tasks.
    pub fn len(&self) -> (n: usize)
        ensures
            n == self@.len(),
    {
        self.items.len()
    }

    /// Whether no task is pending.
    pub fn is_empty(&self) -> (b: bool)
        ensures
            b == (self@.len() == 0),
    {
        self.items.len() == 0
    }

    /// Appends one task at the back of the queue.
    pub fn enqueue(&mut self, task: T)
        ensures
            final(self)@ == old(self)@.push(task),
    {
        self.items.push(task);
    }

    /// Appends a whole batch at the back of the queue, keeping the batch's
    /// own order. The batch ends up contiguous: no other task can stand
    /// between two of its members.
    pub fn enqueue_many(&mut self, tasks: Vec<T>)
        ensures
            final(self)@ == old(self)@ + tasks@,
    {
        let mut tasks = tasks;
        self.items.append(&mut tasks);
    }

    /// Removes and returns the front task if one is pending; reports
    /// emptiness otherwise. The remaining tasks keep their order.
    pub fn try_dequeue(&mut self) -> (r: Option<T>)
        ensures
            old(self)@.len() == 0 ==> r is None && final(self)@ == old(self)@,
            old(self)@.len() > 0 ==> r == Some(old(self)@[0]) && final(self)@ == old(self)@.drop_first(),
    {
        if self.items.len() == 0 {
            None
        } else {
            let t = self.items.remove(0);
            proof {
                assert(old(self)@.remove(0) =~= old(self)@.drop_first());
            }
            Some(t)
        }
    }
}

} // verus!
