use shardkv::pool::Fetched;
use shardkv::pool::JobQueue;
use shardkv::pool::QueueClosed;
use shardkv::pool::WorkerEvent;
use shardkv::pool::WorkerState;
use shardkv::pool::worker_step;

#[test]
fn jobs_come_out_in_arrival_order() {
    let mut q: JobQueue<u32> = JobQueue::new();
    q.submit(1).unwrap();
    q.submit(2).unwrap();
    q.submit(3).unwrap();
    assert!(matches!(q.take(), Fetched::Job(1)));
    assert!(matches!(q.take(), Fetched::Job(2)));
    assert!(matches!(q.take(), Fetched::Job(3)));
    assert!(matches!(q.take(), Fetched::Empty));
}

#[test]
fn submit_after_close_is_rejected() {
    let mut q: JobQueue<u32> = JobQueue::new();
    q.submit(1).unwrap();
    q.close();
    assert_eq!(q.submit(2), Err(QueueClosed));
}

#[test]
fn jobs_unclaimed_at_closure_are_discarded() {
    let mut q: JobQueue<u32> = JobQueue::new();
    q.submit(7).unwrap();
    q.close();
    assert!(matches!(q.take(), Fetched::Closed));
}

#[test]
fn empty_open_queue_asks_the_worker_to_wait() {
    let mut q: JobQueue<u32> = JobQueue::new();
    assert!(matches!(q.take(), Fetched::Empty));
    q.close();
    assert!(matches!(q.take(), Fetched::Closed));
}

#[test]
fn worker_walks_idle_executing_idle_terminated() {
    let s = WorkerState::Idle;
    let s = worker_step(s, WorkerEvent::JobDelivered).unwrap();
    assert_eq!(s, WorkerState::Executing);
    let s = worker_step(s, WorkerEvent::JobCompleted).unwrap();
    assert_eq!(s, WorkerState::Idle);
    let s = worker_step(s, WorkerEvent::SourceClosed).unwrap();
    assert_eq!(s, WorkerState::Terminated);
}

#[test]
fn executing_worker_ignores_the_closure_signal() {
    assert_eq!(
        worker_step(WorkerState::Executing, WorkerEvent::SourceClosed),
        None
    );
    assert_eq!(
        worker_step(WorkerState::Executing, WorkerEvent::JobDelivered),
        None
    );
    assert_eq!(
        worker_step(WorkerState::Executing, WorkerEvent::JobCompleted),
        Some(WorkerState::Idle)
    );
}

#[test]
fn terminated_worker_never_moves_again() {
    assert_eq!(
        worker_step(WorkerState::Terminated, WorkerEvent::JobDelivered),
        None
    );
    assert_eq!(
        worker_step(WorkerState::Terminated, WorkerEvent::JobCompleted),
        None
    );
    assert_eq!(
        worker_step(WorkerState::Terminated, WorkerEvent::SourceClosed),
        None
    );
}
