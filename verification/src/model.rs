//! A ghost state machine for the whole pool protocol, workers included.
//!
//! The executable [`crate::scheduler::PoolCore`] speaks only of the state
//! behind the lock; what the pool guarantees, however, is a claim about every
//! interleaving of submitters and workers. This module states the protocol as
//! an atomic-step state machine — each step is one critical section, or a
//! worker returning from a task — and proves its guarantees as lemmas:
//!
//! - every task accepted by a pool with at least one worker is executed to
//!   completion exactly once over the pool's whole life, none lost, none
//!   duplicated ([`lemma_whole_life_executes_all`],
//!   [`lemma_destruction_runs_every_task`]);
//! - a worker can terminate only once the queue is fully drained
//!   ([`lemma_terminate_only_after_drain`]);
//! - tasks start executing in submission order
//!   ([`lemma_dequeue_order_is_submission_order`]);
//! - two idle workers can each be running a task of the same batch at the
//!   same time ([`lemma_batch_can_start_in_parallel`]);
//! - a pool with no workers never executes anything
//!   ([`lemma_zero_workers_never_execute`]).
//!
//! Tasks carry an abstract identity here (a `nat`), so that "exactly once"
//! is expressible; the executable pool hands out the task values themselves.
//! The steps mirror the executable operations one to one: `Submit` and
//! `SubmitBatch` are `PoolCore::submit` / `submit_batch`, `Shutdown` is
//! `begin_shutdown`, and `Dequeue` / `Terminate` are the two decisive
//! outcomes of `PoolCore::worker_step` (the `Wait` outcome changes no state
//! and therefore needs no step). `Complete` is a worker returning from the
//! task it ran outside the lock — normally or not: a failing task is confined
//! to that iteration, and its worker goes back to waiting either way.

use vstd::multiset::Multiset;
use vstd::prelude::*;
use vstd::seq_lib::group_to_multiset_ensures;

verus! {

/// The phase one worker thread is in.
pub ghost enum WorkerPhase {
    /// Inside its loop, holding no task: about to take a step under the
    /// lock, or blocked on the wake signal.
    Waiting,
    /// Executing the task with the given identity, outside the lock.
    Busy(nat),
    /// Terminated: left its loop for good.
    Done,
}

/// A snapshot of the entire pool: the shared state behind the lock
/// (`queue`, `shutdown`), the phase of every worker, and histories that no
/// implementation stores but the guarantees speak of — everything ever
/// accepted, everything handed to a worker, everything executed to
/// completion.
pub ghost struct PoolModel {
    /// Every task ever accepted, in submission order.
    pub submitted: Seq<nat>,
    /// The tasks accepted but not yet handed to a worker, front first.
    pub queue: Seq<nat>,
    /// The tasks handed to a worker — each hand-off starts exactly one
    /// execution — in dequeue order.
    pub started: Seq<nat>,
    /// The executions that have completed. A multiset, not a sequence:
    /// with several workers, completion order is not guaranteed to match
    /// dequeue order.
    pub finished: Multiset<nat>,
    /// Whether shutdown has been requested.
    pub shutdown: bool,
    /// The phase of each worker thread.
    pub workers: Seq<WorkerPhase>,
}

/// One atomic transition of the protocol.
pub ghost enum Step {
    /// A submitter enqueues one task.
    Submit(nat),
    /// A submitter enqueues a whole batch in one critical section.
    SubmitBatch(Seq<nat>),
    /// The owner requests shutdown (the first act of destroying the pool).
    Shutdown,
    /// Worker `i` finds the queue non-empty and takes the front task.
    Dequeue(int),
    /// Worker `i` returns from the task it was executing.
    Complete(int),
    /// Worker `i` finds the queue empty with shutdown requested, and exits.
    Terminate(int),
}

/// A fresh pool with `k` workers: nothing accepted, nothing started,
/// nothing finished, shutdown not requested, every worker waiting.
pub open spec fn init(s: PoolModel, k: nat) -> bool {
    &&& s.submitted == Seq::<nat>::empty()
    &&& s.queue == Seq::<nat>::empty()
    &&& s.started == Seq::<nat>::empty()
    &&& s.finished == Multiset::<nat>::empty()
    &&& !s.shutdown
    &&& s.workers == Seq::new(k, |i: int| WorkerPhase::Waiting)
}

/// One task is accepted: appended to the queue and to the submission
/// history. Submission needs a live pool, and destruction — the only
/// trigger of shutdown — revokes every reference first, so no submission
/// happens once shutdown has begun.
pub open spec fn submit_step(pre: PoolModel, post: PoolModel, id: nat) -> bool {
    &&& !pre.shutdown
    &&& post.submitted == pre.submitted.push(id)
    &&& post.queue == pre.queue.push(id)
    &&& post.started == pre.started
    &&& post.finished == pre.finished
    &&& post.shutdown == pre.shutdown
    &&& post.workers == pre.workers
}

/// A batch is accepted in one critical section: it lands contiguously, in
/// its own order, at the back of the queue.
pub open spec fn submit_batch_step(pre: PoolModel, post: PoolModel, ids: Seq<nat>) -> bool {
    &&& !pre.shutdown
    &&& post.submitted == pre.submitted + ids
    &&& post.queue == pre.queue + ids
    &&& post.started == pre.started
    &&& post.finished == pre.finished
    &&& post.shutdown == pre.shutdown
    &&& post.workers == pre.workers
}

/// Shutdown is requested: the flag rises (monotonically — no step resets
/// it) and every pending task stays in place.
pub open spec fn shutdown_step(pre: PoolModel, post: PoolModel) -> bool {
    &&& post.submitted == pre.submitted
    &&& post.queue == pre.queue
    &&& post.started == pre.started
    &&& post.finished == pre.finished
    &&& post.shutdown == true
    &&& post.workers == pre.workers
}

/// A waiting worker observes a non-empty queue and takes the front task:
/// the task moves from the queue to the started history and into the
/// worker's hands, and to nowhere else — this is the only step that starts
/// an execution, and it starts exactly one.
pub open spec fn dequeue_step(pre: PoolModel, post: PoolModel, i: int) -> bool {
    &&& 0 <= i < pre.workers.len()
    &&& pre.workers[i] is Waiting
    &&& pre.queue.len() > 0
    &&& post.submitted == pre.submitted
    &&& post.queue == pre.queue.drop_first()
    &&& post.started == pre.started.push(pre.queue[0])
    &&& post.finished == pre.finished
    &&& post.shutdown == pre.shutdown
    &&& post.workers == pre.workers.update(i, WorkerPhase::Busy(pre.queue[0]))
}

/// A busy worker returns from its task, which is now executed, and goes
/// back to waiting. Whether the task returned normally or failed, the
/// failure is confined to this iteration: the worker's loop continues
/// either way.
pub open spec fn complete_step(pre: PoolModel, post: PoolModel, i: int) -> bool {
    &&& 0 <= i < pre.workers.len()
    &&& pre.workers[i] is Busy
    &&& post.submitted == pre.submitted
    &&& post.queue == pre.queue
    &&& post.started == pre.started
    &&& post.finished == pre.finished.insert(pre.workers[i]->Busy_0)
    &&& post.shutdown == pre.shutdown
    &&& post.workers == pre.workers.update(i, WorkerPhase::Waiting)
}

/// A waiting worker observes an empty queue with shutdown requested and
/// exits its loop. This is the only terminal transition, and an empty queue
/// is part of its guard: a worker never quits while accepted work remains.
pub open spec fn terminate_step(pre: PoolModel, post: PoolModel, i: int) -> bool {
    &&& 0 <= i < pre.workers.len()
    &&& pre.workers[i] is Waiting
    &&& pre.queue.len() == 0
    &&& pre.shutdown
    &&& post.submitted == pre.submitted
    &&& post.queue == pre.queue
    &&& post.started == pre.started
    &&& post.finished == pre.finished
    &&& post.shutdown == pre.shutdown
    &&& post.workers == pre.workers.update(i, WorkerPhase::Done)
}

/// The transition relation of the protocol.
pub open spec fn next(pre: PoolModel, post: PoolModel, step: Step) -> bool {
    match step {
        Step::Submit(id) => submit_step(pre, post, id),
        Step::SubmitBatch(ids) => submit_batch_step(pre, post, ids),
        Step::Shutdown => shutdown_step(pre, post),
        Step::Dequeue(i) => dequeue_step(pre, post, i),
        Step::Complete(i) => complete_step(pre, post, i),
        Step::Terminate(i) => terminate_step(pre, post, i),
    }
}

/// The task a worker in the given phase is executing right now: one for a
/// busy worker, none otherwise.
pub open spec fn phase_tasks(p: WorkerPhase) -> Multiset<nat> {
    match p {
        WorkerPhase::Busy(t) => Multiset::singleton(t),
        _ => Multiset::empty(),
    }
}

/// Every task some worker is executing right now.
pub open spec fn running_tasks(ws: Seq<WorkerPhase>) -> Multiset<nat>
    decreases ws.len(),
{
    if ws.len() == 0 {
        Multiset::empty()
    } else {
        running_tasks(ws.drop_last()).add(phase_tasks(ws.last()))
    }
}

/// Every worker has terminated: the pool's destruction, which joins each
/// worker thread, returns exactly in such a state.
pub open spec fn all_terminated(s: PoolModel) -> bool {
    forall|i: int| 0 <= i < s.workers.len() ==> (#[trigger] s.workers[i]) is Done
}

/// The inductive invariant of the protocol:
/// - the submission history is exactly the started history followed by the
///   queue — so nothing is ever lost, duplicated, or reordered on its way
///   from submission to a worker;
/// - every started execution is either in some worker's hands right now or
///   completed, and in exactly one of the two;
/// - a terminated worker implies shutdown was requested;
/// - once every worker of a non-empty pool has terminated, the queue is
///   empty — the drain ran to completion;
/// - a pool with no workers never starts anything.
pub open spec fn inv(s: PoolModel) -> bool {
    &&& s.submitted == s.started + s.queue
    &&& s.started.to_multiset() == running_tasks(s.workers).add(s.finished)
    &&& forall|i: int|
        0 <= i < s.workers.len() && (#[trigger] s.workers[i]) is Done ==> s.shutdown
    &&& (s.workers.len() > 0 && all_terminated(s)) ==> s.queue.len() == 0
    &&& s.workers.len() == 0 ==> s.started == Seq::<nat>::empty()
}

/// Replacing one worker's phase trades that worker's old contribution to the
/// running tasks for the new one and touches nobody else's.
proof fn lemma_running_tasks_update(ws: Seq<WorkerPhase>, i: int, p: WorkerPhase)
    requires
        0 <= i < ws.len(),
    ensures
        running_tasks(ws.update(i, p)).add(phase_tasks(ws[i])) == running_tasks(ws).add(
            phase_tasks(p),
        ),
    decreases ws.len(),
{
    let updated = ws.update(i, p);
    assert(updated.len() == ws.len());
    if i == ws.len() - 1 {
        assert(updated.drop_last() =~= ws.drop_last());
        assert(updated.last() == p);
        assert(ws[i] == ws.last());
        assert(running_tasks(updated) == running_tasks(updated.drop_last()).add(phase_tasks(p)));
        assert(running_tasks(ws) == running_tasks(ws.drop_last()).add(phase_tasks(ws.last())));
        assert(running_tasks(updated).add(phase_tasks(ws[i])) =~= running_tasks(ws).add(
            phase_tasks(p),
        ));
    } else {
        assert(updated.drop_last() =~= ws.drop_last().update(i, p));
        assert(updated.last() == ws.last());
        assert(ws.drop_last()[i] == ws[i]);
        lemma_running_tasks_update(ws.drop_last(), i, p);
        assert(running_tasks(ws.drop_last().update(i, p)).add(phase_tasks(ws[i]))
            == running_tasks(ws.drop_last()).add(phase_tasks(p)));
        assert(running_tasks(updated) == running_tasks(ws.drop_last().update(i, p)).add(
            phase_tasks(ws.last()),
        ));
        assert(running_tasks(ws) == running_tasks(ws.drop_last()).add(phase_tasks(ws.last())));
        assert(running_tasks(updated).add(phase_tasks(ws[i])) =~= running_tasks(ws).add(
            phase_tasks(p),
        ));
    }
}

/// While no worker is busy — all waiting, all terminated, or none existing —
/// nothing is running.
proof fn lemma_running_tasks_none_busy(ws: Seq<WorkerPhase>)
    requires
        forall|i: int| 0 <= i < ws.len() ==> !((#[trigger] ws[i]) is Busy),
    ensures
        running_tasks(ws) == Multiset::<nat>::empty(),
    decreases ws.len(),
{
    if ws.len() > 0 {
        assert(forall|i: int|
            0 <= i < ws.drop_last().len() ==> !((#[trigger] ws.drop_last()[i]) is Busy));
        lemma_running_tasks_none_busy(ws.drop_last());
        assert(!(ws.last() is Busy));
        assert(running_tasks(ws) =~= Multiset::<nat>::empty());
    }
}

/// A fresh pool satisfies the invariant.
pub proof fn lemma_init_satisfies_inv(s: PoolModel, k: nat)
    requires
        init(s, k),
    ensures
        inv(s),
{
    broadcast use group_to_multiset_ensures;

    assert(s.started + s.queue =~= s.submitted);
    assert(s.started.to_multiset().len() == 0);
    vstd::multiset::lemma_multiset_empty_len::<nat>(s.started.to_multiset());
    assert(forall|i: int| 0 <= i < s.workers.len() ==> !((#[trigger] s.workers[i]) is Busy));
    lemma_running_tasks_none_busy(s.workers);
    assert(s.started.to_multiset() =~= running_tasks(s.workers).add(s.finished));
}

/// Every step of the protocol preserves the invariant; no step creates or
/// destroys a worker thread either, so the worker count is fixed at
/// construction for good.
pub proof fn lemma_next_preserves_inv(pre: PoolModel, post: PoolModel, step: Step)
    requires
        inv(pre),
        next(pre, post, step),
    ensures
        inv(post),
        post.workers.len() == pre.workers.len(),
{
    broadcast use group_to_multiset_ensures;

    match step {
        Step::Submit(id) => {
            assert(post.started + post.queue =~= post.submitted);
            if post.workers.len() > 0 && all_terminated(post) {
                assert(pre.workers[0] is Done);
                assert(false);
            }
        },
        Step::SubmitBatch(ids) => {
            assert(post.started + post.queue =~= post.submitted);
            if post.workers.len() > 0 && all_terminated(post) {
                assert(pre.workers[0] is Done);
                assert(false);
            }
        },
        Step::Shutdown => {
            if post.workers.len() > 0 && all_terminated(post) {
                assert(pre.workers[0] is Done);
                assert(all_terminated(pre));
            }
        },
        Step::Dequeue(i) => {
            assert(post.started + post.queue =~= post.submitted);
            let t = pre.queue[0];
            lemma_running_tasks_update(pre.workers, i, WorkerPhase::Busy(t));
            assert(phase_tasks(pre.workers[i]) == Multiset::<nat>::empty());
            assert(phase_tasks(WorkerPhase::Busy(t)) == Multiset::singleton(t));
            assert(running_tasks(post.workers).add(Multiset::<nat>::empty())
                == running_tasks(pre.workers).add(Multiset::singleton(t)));
            assert(running_tasks(post.workers) =~= running_tasks(pre.workers).insert(t));
            assert(post.started.to_multiset() =~= pre.started.to_multiset().insert(t));
            assert(post.started.to_multiset() =~= running_tasks(post.workers).add(post.finished));
            if post.workers.len() > 0 && all_terminated(post) {
                assert(post.workers[i] is Done);
                assert(false);
            }
        },
        Step::Complete(i) => {
            let t = pre.workers[i]->Busy_0;
            lemma_running_tasks_update(pre.workers, i, WorkerPhase::Waiting);
            assert(phase_tasks(pre.workers[i]) == Multiset::singleton(t));
            assert(phase_tasks(WorkerPhase::Waiting) == Multiset::<nat>::empty());
            assert(running_tasks(post.workers).add(Multiset::singleton(t))
                == running_tasks(pre.workers).add(Multiset::<nat>::empty()));
            assert forall|x: nat|
                post.started.to_multiset().count(x) == running_tasks(post.workers).add(
                    post.finished,
                ).count(x) by {
                assert(running_tasks(post.workers).add(Multiset::singleton(t)).count(x)
                    == running_tasks(pre.workers).add(Multiset::<nat>::empty()).count(x));
                assert(pre.started.to_multiset().count(x) == running_tasks(pre.workers).add(
                    pre.finished,
                ).count(x));
                assert(post.finished.count(x) == pre.finished.insert(t).count(x));
            }
            assert(post.started.to_multiset() =~= running_tasks(post.workers).add(post.finished));
            if post.workers.len() > 0 && all_terminated(post) {
                assert(post.workers[i] is Done);
                assert(false);
            }
        },
        Step::Terminate(i) => {
            lemma_running_tasks_update(pre.workers, i, WorkerPhase::Done);
            assert(phase_tasks(pre.workers[i]) == Multiset::<nat>::empty());
            assert(phase_tasks(WorkerPhase::Done) == Multiset::<nat>::empty());
            assert forall|x: nat|
                running_tasks(post.workers).count(x) == running_tasks(pre.workers).count(x) by {
                assert(running_tasks(post.workers).add(Multiset::<nat>::empty()).count(x)
                    == running_tasks(pre.workers).add(Multiset::<nat>::empty()).count(x));
            }
            assert(running_tasks(post.workers) =~= running_tasks(pre.workers));
            assert(post.started.to_multiset() =~= running_tasks(post.workers).add(post.finished));
            assert(forall|j: int|
                0 <= j < post.workers.len() && (#[trigger] post.workers[j]) is Done
                    ==> post.shutdown);
        },
    }
}

/// A finite execution of the protocol from a given state: each entry of the
/// trace is one step taken and the state it leads to.
pub open spec fn execution(s: PoolModel, trace: Seq<(Step, PoolModel)>) -> bool
    decreases trace.len(),
{
    trace.len() == 0 || {
        &&& next(s, trace[0].1, trace[0].0)
        &&& execution(trace[0].1, trace.drop_first())
    }
}

/// Where an execution ends: the state its last step leads to, or the start
/// state if no step was taken.
pub open spec fn last_state(s: PoolModel, trace: Seq<(Step, PoolModel)>) -> PoolModel {
    if trace.len() == 0 {
        s
    } else {
        trace.last().1
    }
}

/// The invariant holds in every reachable state: an execution carries it
/// from its start state to its end state, and the worker count rides along
/// unchanged.
pub proof fn lemma_execution_preserves_inv(s: PoolModel, trace: Seq<(Step, PoolModel)>)
    requires
        inv(s),
        execution(s, trace),
    ensures
        inv(last_state(s, trace)),
        last_state(s, trace).workers.len() == s.workers.len(),
    decreases trace.len(),
{
    if trace.len() > 0 {
        lemma_next_preserves_inv(s, trace[0].1, trace[0].0);
        lemma_execution_preserves_inv(trace[0].1, trace.drop_first());
    }
}

/// Drain-to-completion, exactly once: once every worker of a pool with at
/// least one worker has terminated — which is the state the pool's
/// destruction waits for — the tasks that started executing are exactly the
/// tasks ever submitted, as one sequence: the same length, the same task at
/// every position; and the completed executions are exactly the submitted
/// tasks as a multiset. Each submitted task, whether it came alone or inside
/// a batch, was executed to completion exactly once; none was dropped, none
/// ran twice.
pub proof fn lemma_destruction_runs_every_task(s: PoolModel)
    requires
        inv(s),
        s.workers.len() > 0,
        all_terminated(s),
    ensures
        s.started == s.submitted,
        s.finished == s.submitted.to_multiset(),
        s.finished.len() == s.submitted.len(),
{
    broadcast use group_to_multiset_ensures;

    assert(s.queue.len() == 0);
    assert(s.started + s.queue =~= s.started);
    assert(forall|i: int| 0 <= i < s.workers.len() ==> !((#[trigger] s.workers[i]) is Busy));
    lemma_running_tasks_none_busy(s.workers);
    assert(s.finished =~= Multiset::<nat>::empty().add(s.finished));
    assert(s.finished =~= s.started.to_multiset());
}

/// The guarantee end to end: take any whole life of a pool with at least one
/// worker — any execution that starts at construction and ends in the state
/// the destruction's last join waits for, whatever tasks were submitted,
/// alone or in batches, and however the workers interleaved. The executions
/// that completed are then exactly the tasks submitted — for N submissions,
/// exactly N executions, each submitted task exactly once — and they began
/// in submission order.
pub proof fn lemma_whole_life_executes_all(s: PoolModel, k: nat, trace: Seq<(Step, PoolModel)>)
    requires
        k > 0,
        init(s, k),
        execution(s, trace),
        all_terminated(last_state(s, trace)),
    ensures
        last_state(s, trace).started == last_state(s, trace).submitted,
        last_state(s, trace).finished == last_state(s, trace).submitted.to_multiset(),
        last_state(s, trace).finished.len() == last_state(s, trace).submitted.len(),
{
    lemma_init_satisfies_inv(s, k);
    lemma_execution_preserves_inv(s, trace);
    lemma_destruction_runs_every_task(last_state(s, trace));
}

/// A worker can take its terminal transition only when the queue is empty
/// and shutdown was requested; at that moment every accepted task has
/// already been handed to some worker. Destruction therefore cannot outrun
/// the pending work: it lasts at least until the queue is drained.
pub proof fn lemma_terminate_only_after_drain(pre: PoolModel, post: PoolModel, i: int)
    requires
        inv(pre),
        next(pre, post, Step::Terminate(i)),
    ensures
        pre.queue.len() == 0,
        pre.shutdown,
        pre.started == pre.submitted,
{
    assert(pre.started + pre.queue =~= pre.started);
}

/// FIFO hand-off: in every reachable state, the tasks that have started
/// executing are exactly the first `started.len()` submitted tasks, in
/// submission order. With one worker, execution itself is therefore strict
/// FIFO; with several, tasks still begin in submission order.
pub proof fn lemma_dequeue_order_is_submission_order(s: PoolModel)
    requires
        inv(s),
    ensures
        s.started == s.submitted.take(s.started.len() as int),
{
    assert(s.submitted.take(s.started.len() as int) =~= s.started);
}

/// Parallel wake-up: from any state with two distinct idle workers and at
/// least two queued tasks — as after one batch of two landed and everyone
/// was woken — the protocol can hand the front task to one worker and the
/// next task to the other, reaching a state where both are busy at once:
/// both tasks have started before either has finished. The two witness
/// states are returned.
pub proof fn lemma_batch_can_start_in_parallel(s: PoolModel, i: int, j: int) -> (w: (
    PoolModel,
    PoolModel,
))
    requires
        0 <= i < s.workers.len(),
        0 <= j < s.workers.len(),
        i != j,
        s.workers[i] is Waiting,
        s.workers[j] is Waiting,
        s.queue.len() >= 2,
    ensures
        next(s, w.0, Step::Dequeue(i)),
        next(w.0, w.1, Step::Dequeue(j)),
        w.1.workers[i] is Busy,
        w.1.workers[j] is Busy,
        w.1.started == s.started.push(s.queue[0]).push(s.queue[1]),
{
    let mid = PoolModel {
        submitted: s.submitted,
        queue: s.queue.drop_first(),
        started: s.started.push(s.queue[0]),
        finished: s.finished,
        shutdown: s.shutdown,
        workers: s.workers.update(i, WorkerPhase::Busy(s.queue[0])),
    };
    let end = PoolModel {
        submitted: mid.submitted,
        queue: mid.queue.drop_first(),
        started: mid.started.push(mid.queue[0]),
        finished: mid.finished,
        shutdown: mid.shutdown,
        workers: mid.workers.update(j, WorkerPhase::Busy(mid.queue[0])),
    };
    assert(mid.queue[0] == s.queue[1]);
    (mid, end)
}

/// A pool constructed with zero workers executes nothing, ever: no worker
/// exists to take a dequeue step, so whatever is submitted only piles up.
/// (Destroying such a pool still terminates — the join ranges over no
/// threads — but the pending tasks are simply dropped.)
pub proof fn lemma_zero_workers_never_execute(s: PoolModel)
    requires
        inv(s),
        s.workers.len() == 0,
    ensures
        s.started.len() == 0,
        s.finished == Multiset::<nat>::empty(),
{
    broadcast use group_to_multiset_ensures;

    vstd::multiset::lemma_multiset_empty_len::<nat>(s.started.to_multiset());
    assert forall|x: nat| s.finished.count(x) == 0 by {
        assert(running_tasks(s.workers).add(s.finished).count(x) == s.started.to_multiset().count(
            x,
        ));
    }
    assert(s.finished =~= Multiset::<nat>::empty());
}

} // verus!
