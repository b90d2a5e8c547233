use job_system::queue::TaskQueue;

#[test]
fn new_queue_is_empty() {
    let q: TaskQueue<u32> = TaskQueue::new();
    assert!(q.is_empty());
    assert_eq!(q.len(), 0);
}

#[test]
fn enqueue_then_dequeue_is_fifo() {
    let mut q: TaskQueue<u32> = TaskQueue::new();
    q.enqueue(1);
    q.enqueue(2);
    q.enqueue(3);
    assert_eq!(q.len(), 3);
    assert_eq!(q.try_dequeue(), Some(1));
    assert_eq!(q.try_dequeue(), Some(2));
    assert_eq!(q.try_dequeue(), Some(3));
    assert_eq!(q.try_dequeue(), None);
}

#[test]
fn dequeue_on_empty_reports_emptiness() {
    let mut q: TaskQueue<String> = TaskQueue::new();
    assert_eq!(q.try_dequeue(), None);
    assert!(q.is_empty());
}

#[test]
fn enqueue_many_keeps_batch_order_behind_existing() {
    let mut q: TaskQueue<u32> = TaskQueue::new();
    q.enqueue(10);
    q.enqueue_many(vec![20, 30, 40]);
    assert_eq!(q.len(), 4);
    assert_eq!(q.try_dequeue(), Some(10));
    assert_eq!(q.try_dequeue(), Some(20));
    assert_eq!(q.try_dequeue(), Some(30));
    assert_eq!(q.try_dequeue(), Some(40));
    assert_eq!(q.try_dequeue(), None);
}

#[test]
fn enqueue_many_of_empty_batch_changes_nothing() {
    let mut q: TaskQueue<u32> = TaskQueue::new();
    q.enqueue(7);
    q.enqueue_many(vec![]);
    assert_eq!(q.len(), 1);
    assert_eq!(q.try_dequeue(), Some(7));
}
