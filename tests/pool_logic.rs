use parallel_file_processor::task_queue::{TaskQueue, WorkerAction, WorkerSet};

fn take(q: &mut TaskQueue<u32>) -> Option<u32> {
    match q.next_action() {
        WorkerAction::Run(j) => Some(j),
        _ => None,
    }
}

#[test]
fn jobs_leave_in_submission_order() {
    let mut q = TaskQueue::new();
    for j in [1u32, 2, 3] {
        q.push(j);
    }
    assert_eq!(q.len(), 3);
    assert_eq!(take(&mut q), Some(1));
    q.push(4);
    assert_eq!(take(&mut q), Some(2));
    assert_eq!(take(&mut q), Some(3));
    assert_eq!(take(&mut q), Some(4));
    assert!(matches!(q.next_action(), WorkerAction::Wait));
    assert_eq!(q.len(), 0);
}

#[test]
fn shutdown_drains_before_exit() {
    let mut q = TaskQueue::new();
    q.push(7u32);
    q.signal_shutdown();
    assert!(q.shutdown_signaled());
    assert_eq!(take(&mut q), Some(7));
    assert!(matches!(q.next_action(), WorkerAction::Exit));
    assert!(matches!(q.next_action(), WorkerAction::Exit));
}

#[test]
fn idle_queue_with_no_jobs_exits_on_shutdown() {
    let mut q: TaskQueue<u32> = TaskQueue::new();
    assert!(matches!(q.next_action(), WorkerAction::Wait));
    q.signal_shutdown();
    q.signal_shutdown();
    assert!(matches!(q.next_action(), WorkerAction::Exit));
}

#[test]
fn second_shutdown_joins_nothing() {
    let mut w = WorkerSet::new(vec![10u32, 11, 12]);
    assert_eq!(w.len(), 3);
    let first = w.take_all();
    assert_eq!(first, vec![12, 11, 10]);
    assert_eq!(w.len(), 0);
    let second = w.take_all();
    assert!(second.is_empty());
}
