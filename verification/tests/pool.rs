use std::sync::{Arc, Mutex};

use job_system::scheduler::{PoolCore, Wake, WorkerStep};

type Task = Box<dyn FnOnce() + Send + 'static>;

#[test]
fn new_pool_is_empty_and_live() {
    let p: PoolCore<u32> = PoolCore::new(4);
    assert_eq!(p.worker_count(), 4);
    assert_eq!(p.pending_count(), 0);
}

#[test]
fn submit_wakes_one_worker() {
    let mut p: PoolCore<u32> = PoolCore::new(2);
    let w = p.submit(1);
    assert_eq!(w, Wake::One);
    assert_eq!(p.pending_count(), 1);
}

#[test]
fn submit_batch_wakes_all_workers() {
    let mut p: PoolCore<u32> = PoolCore::new(2);
    let w = p.submit_batch(vec![1, 2, 3]);
    assert_eq!(w, Wake::All);
    assert_eq!(p.pending_count(), 3);
}

#[test]
fn shutdown_wakes_all_and_drops_no_task() {
    let mut p: PoolCore<u32> = PoolCore::new(2);
    p.submit(1);
    p.submit(2);
    let w = p.begin_shutdown();
    assert_eq!(w, Wake::All);
    assert_eq!(p.pending_count(), 2);
}

#[test]
fn worker_waits_when_queue_empty_and_pool_live() {
    let mut p: PoolCore<u32> = PoolCore::new(1);
    assert!(matches!(p.worker_step(), WorkerStep::Wait));
    // A spurious wakeup re-checks and waits again.
    assert!(matches!(p.worker_step(), WorkerStep::Wait));
}

#[test]
fn worker_dequeues_in_submission_order() {
    // Strict FIFO hand-off: each step takes the oldest pending task.
    let mut p: PoolCore<u32> = PoolCore::new(1);
    p.submit(1);
    p.submit(2);
    p.submit(3);
    assert!(matches!(p.worker_step(), WorkerStep::Run(1)));
    assert!(matches!(p.worker_step(), WorkerStep::Run(2)));
    p.submit(4);
    assert!(matches!(p.worker_step(), WorkerStep::Run(3)));
    assert!(matches!(p.worker_step(), WorkerStep::Run(4)));
    assert!(matches!(p.worker_step(), WorkerStep::Wait));
}

#[test]
fn worker_never_terminates_while_tasks_remain() {
    let mut p: PoolCore<u32> = PoolCore::new(1);
    p.submit(1);
    p.submit(2);
    p.begin_shutdown();
    // Shutdown stops the waiting for new work, not the work itself.
    assert!(matches!(p.worker_step(), WorkerStep::Run(1)));
    assert!(matches!(p.worker_step(), WorkerStep::Run(2)));
    assert!(matches!(p.worker_step(), WorkerStep::Terminate));
}

#[test]
fn worker_terminates_on_empty_queue_after_shutdown() {
    let mut p: PoolCore<u32> = PoolCore::new(1);
    p.begin_shutdown();
    assert!(matches!(p.worker_step(), WorkerStep::Terminate));
}

#[test]
fn drain_returns_every_pending_task_in_order() {
    let mut p: PoolCore<u32> = PoolCore::new(3);
    for n in 0..10 {
        p.submit(n);
    }
    p.begin_shutdown();
    let rest = p.drain();
    assert_eq!(rest, (0..10).collect::<Vec<u32>>());
    assert_eq!(p.pending_count(), 0);
}

#[test]
fn drain_of_empty_pool_returns_nothing() {
    let mut p: PoolCore<u32> = PoolCore::new(2);
    p.begin_shutdown();
    assert_eq!(p.drain(), Vec::<u32>::new());
    assert_eq!(p.pending_count(), 0);
}

#[test]
fn batch_lands_contiguously_behind_earlier_submissions() {
    let mut p: PoolCore<u32> = PoolCore::new(1);
    p.submit(1);
    p.submit_batch(vec![2, 3]);
    p.submit(4);
    p.begin_shutdown();
    assert_eq!(p.drain(), vec![1, 2, 3, 4]);
}

#[test]
fn submits_then_destroy_execute_exactly_n_tasks() {
    // N submissions, then destruction: exactly N executions.
    let counter = Arc::new(Mutex::new(0u32));
    let mut p: PoolCore<Task> = PoolCore::new(1);
    let n = 25;
    for _ in 0..n {
        let counter = Arc::clone(&counter);
        p.submit(Box::new(move || {
            *counter.lock().unwrap() += 1;
        }));
    }
    p.begin_shutdown();
    for task in p.drain() {
        task();
    }
    assert_eq!(*counter.lock().unwrap(), n);
}

#[test]
fn batch_then_destroy_runs_each_task_exactly_once() {
    // One batch of M tasks, then destruction: each runs exactly once.
    let m = 8;
    let runs = Arc::new(Mutex::new(vec![0u32; m]));
    let mut batch: Vec<Task> = Vec::new();
    for i in 0..m {
        let runs = Arc::clone(&runs);
        batch.push(Box::new(move || {
            runs.lock().unwrap()[i] += 1;
        }));
    }
    let mut p: PoolCore<Task> = PoolCore::new(2);
    let w = p.submit_batch(batch);
    assert_eq!(w, Wake::All);
    p.begin_shutdown();
    for task in p.drain() {
        task();
    }
    for i in 0..m {
        assert_eq!(runs.lock().unwrap()[i], 1);
    }
}

#[test]
fn hundred_counter_increments_sum_to_hundred() {
    // Pool of two workers, 100 tasks each incrementing a shared counter
    // under its own lock; after destruction the counter reads 100.
    let counter = Arc::new(Mutex::new(0u32));
    let mut p: PoolCore<Task> = PoolCore::new(2);
    for _ in 0..100 {
        let counter = Arc::clone(&counter);
        p.submit(Box::new(move || {
            *counter.lock().unwrap() += 1;
        }));
    }
    p.begin_shutdown();
    for task in p.drain() {
        task();
    }
    assert_eq!(*counter.lock().unwrap(), 100);
}

#[test]
fn zero_worker_pool_accepts_but_never_executes() {
    // No worker exists to take a step, so the task sits in the queue
    // forever; the no-validation policy is the caller's burden.
    let executed = Arc::new(Mutex::new(false));
    let mut p: PoolCore<Task> = PoolCore::new(0);
    let flag = Arc::clone(&executed);
    p.submit(Box::new(move || {
        *flag.lock().unwrap() = true;
    }));
    assert_eq!(p.pending_count(), 1);
    assert!(!*executed.lock().unwrap());
    // Destroying such a pool still terminates: shutdown wakes nobody in
    // particular and there is no thread to join; the task is dropped unrun.
    let w = p.begin_shutdown();
    assert_eq!(w, Wake::All);
    drop(p);
    assert!(!*executed.lock().unwrap());
}
