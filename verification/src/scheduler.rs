//! The pool's lifecycle state and the per-worker decision step.
//!
//! [`PoolCore`] is everything the pool keeps behind its one lock: the shared
//! FIFO queue of pending tasks, the monotonic shutdown flag, and the fixed
//! worker count. Every mutating operation is a single critical section; an
//! embedding that runs real worker threads holds a `PoolCore` inside a mutex,
//! calls one operation per lock acquisition, and acts on what the operation
//! returns — a [`Wake`] hint to signal the condition variable, or a
//! [`WorkerStep`] telling the calling worker what to do next.
//!
//! The shutdown protocol is drain-to-completion: once shutdown is requested,
//! a worker still takes pending tasks one by one and terminates only when it
//! sees the queue empty, so no accepted task is ever dropped.

use vstd::prelude::*;

use crate::queue::TaskQueue;

verus! {

/// How many blocked workers a completed operation requires the caller to
/// wake, so that no runnable worker stays asleep.
#[derive(Clone, Copy, Debug, PartialEq, Eq, Structural)]
pub enum Wake {
    /// Exactly one new task became available: waking one idle worker
    /// suffices.
    One,
    /// Several workers may have become runnable at once (a batch arrived, or
    /// shutdown was requested): every blocked worker must be woken.
    All,
}

/// The decision a worker receives from one visit to the pool state, taken
/// with the lock held.
pub enum WorkerStep<T> {
    /// A task was dequeued for this worker alone: release the lock and run
    /// it, then come back.
    Run(T),
    /// The queue is empty and shutdown has not been requested: block on the
    /// wake signal and re-check after waking (wakeups may be spurious).
    Wait,
    /// The queue is empty and shutdown has been requested: exit the worker
    /// loop. This is the only way a worker terminates, so a worker never
    /// quits while accepted work remains.
    Terminate,
}

/// The state a pool keeps behind its single lock.
pub struct PoolCore<T> {
    queue: TaskQueue<T>,
    shutdown: bool,
    worker_count: usize,
}

impl<T> PoolCore<T> {
    /// The pending tasks, in the order they will be dequeued.
    pub closed spec fn pending(&self) -> Seq<T> {
        self.queue@
    }

    /// Whether shutdown has been requested. Monotonic: no operation ever
    /// resets it.
    pub closed spec fn shutting_down(&self) -> bool {
        self.shutdown
    }

    /// The fixed number of worker threads attached to this pool.
    pub closed spec fn workers(&self) -> nat {
        self.worker_count as nat
    }

    /// Creates the state of a fresh pool: no pending task, shutdown not
    /// requested. A zero worker count is accepted; such a pool hoards
    /// submissions forever, which is the caller's responsibility to avoid.
    pub fn new(worker_count: usize) -> (p: Self)
        ensures
            p.pending() == Seq::<T>::empty(),
            !p.shutting_down(),
            p.workers() == worker_count,
    {
        PoolCore { queue: TaskQueue::new(), shutdown: false, worker_count }
    }

    /// The worker count, for the embedding that spawns the threads.
    pub fn worker_count(&self) -> (n: usize)
        ensures
            n == self.workers(),
    {
        self.worker_count
    }

    /// The number of pending tasks.
    pub fn pending_count(&self) -> (n: usize)
        ensures
            n == self.pending().len(),
    {
        self.queue.len()
    }

    /// Accepts one task: appends it at the back of the queue. Never fails
    /// and never drops the task — the queue is unbounded. The caller must
    /// wake one idle worker, since exactly one new task became available.
    pub fn submit(&mut self, task: T) -> (w: Wake)
        ensures
            final(self).pending() == old(self).pending().push(task),
            final(self).shutting_down() == old(self).shutting_down(),
            final(self).workers() == old(self).workers(),
            w == Wake::One,
    {
        self.queue.enqueue(task);
        Wake::One
    }

    /// Accepts a batch of tasks under one critical section: the batch lands
    /// contiguously at the back of the queue, in its own order, with nothing
    /// interleaved. The caller must wake all idle workers, since several of
    /// them may now each have a task of their own.
    pub fn submit_batch(&mut self, tasks: Vec<T>) -> (w: Wake)
        ensures
            final(self).pending() == old(self).pending() + tasks@,
            final(self).shutting_down() == old(self).shutting_down(),
            final(self).workers() == old(self).workers(),
            w == Wake::All,
    {
        self.queue.enqueue_many(tasks);
        Wake::All
    }

    /// Submitting a batch leaves the queue exactly as submitting its tasks
    /// one by one, in order, would have: folding [`Self::submit`]'s effect
    /// over the batch yields [`Self::submit_batch`]'s effect. The two differ
    /// only in lock traffic — one critical section instead of many — and in
    /// waking all workers instead of one per task.
    pub proof fn lemma_batch_equals_sequential_submits(before: Seq<T>, tasks: Seq<T>)
        ensures
            before + tasks == tasks.fold_left(before, |q: Seq<T>, t: T| q.push(t)),
        decreases tasks.len(),
    {
        if tasks.len() == 0 {
            assert(before + tasks =~= before);
        } else {
            Self::lemma_batch_equals_sequential_submits(before, tasks.drop_last());
            assert(before + tasks =~= (before + tasks.drop_last()).push(tasks.last()));
        }
    }

    /// Requests shutdown: raises the flag and leaves every pending task in
    /// place (shutdown stops the waiting for new work, never the work
    /// itself). The caller must wake all workers so that each can observe
    /// the flag, drain its share of the queue, and terminate.
    pub fn begin_shutdown(&mut self) -> (w: Wake)
        ensures
            final(self).shutting_down(),
            final(self).pending() == old(self).pending(),
            final(self).workers() == old(self).workers(),
            w == Wake::All,
    {
        self.shutdown = true;
        Wake::All
    }

    /// One visit by a worker, under the lock: decides, from the queue and
    /// the shutdown flag alone, whether the worker runs the front task,
    /// blocks for a wakeup, or terminates.
    ///
    /// The front task, when present, is handed out exactly once: it leaves
    /// the queue in the same step, and the rest of the queue keeps its
    /// order. Termination is possible only on an empty queue.
    pub fn worker_step(&mut self) -> (s: WorkerStep<T>)
        ensures
            old(self).pending().len() > 0 ==> {
                &&& s == WorkerStep::Run(old(self).pending()[0])
                &&& final(self).pending() == old(self).pending().drop_first()
            },
            old(self).pending().len() == 0 && old(self).shutting_down() ==> {
                &&& s == WorkerStep::<T>::Terminate
                &&& final(self).pending() == old(self).pending()
            },
            old(self).pending().len() == 0 && !old(self).shutting_down() ==> {
                &&& s == WorkerStep::<T>::Wait
                &&& final(self).pending() == old(self).pending()
            },
            final(self).shutting_down() == old(self).shutting_down(),
            final(self).workers() == old(self).workers(),
    {
        match self.queue.try_dequeue() {
            Some(task) => WorkerStep::Run(task),
            None => {
                if self.shutdown {
                    WorkerStep::Terminate
                } else {
                    WorkerStep::Wait
                }
            },
        }
    }

    /// Drains the pool to completion on the calling thread: repeats
    /// [`Self::worker_step`] until it terminates and returns every task that
    /// was still pending, front first, for the caller to run in that order.
    ///
    /// This is the single-threaded embodiment of the shutdown guarantee:
    /// after shutdown, what remains queued is exactly what comes out, none
    /// lost, none duplicated.
    pub fn drain(&mut self) -> (r: Vec<T>)
        requires
            old(self).shutting_down(),
        ensures
            r@ == old(self).pending(),
            final(self).pending().len() == 0,
            final(self).shutting_down(),
            final(self).workers() == old(self).workers(),
    {
        let mut out: Vec<T> = Vec::new();
        loop
            invariant
                self.shutting_down(),
                self.workers() == old(self).workers(),
                out@ + self.pending() == old(self).pending(),
            ensures
                out@ == old(self).pending(),
                self.pending().len() == 0,
                self.shutting_down(),
                self.workers() == old(self).workers(),
            decreases self.pending().len(),
        {
            let ghost before = self.pending();
            match self.worker_step() {
                WorkerStep::Run(task) => {
                    proof {
                        assert(out@.push(task) + before.drop_first() =~= out@ + before);
                    }
                    out.push(task);
                },
                WorkerStep::Wait => {
                    proof {
                        assert(false);
                    }
                },
                WorkerStep::Terminate => {
                    proof {
                        assert(out@ =~= old(self).pending());
                    }
                    break;
                },
            }
        }
        out
    }
}

/// Job System scheduler.
///
/// A reserved coordinator over worker handles, task queues, and a shutdown
/// flag; the working pool state lives in [`PoolCore`], which a coordinator
/// owns per pool.
pub struct Scheduler {}

} // verus!
