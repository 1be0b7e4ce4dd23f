//! The worker-pool model: a closable FIFO job queue and the life cycle of
//! one worker.
//!
//! A pool is a fixed set of long-lived workers pulling from one shared
//! [`JobQueue`].  The queue decides everything the pool promises: a job is
//! accepted only while the queue is open, jobs are handed out in arrival
//! order, and a worker that finds the queue closed terminates, with the
//! unclaimed jobs discarded.
//! The run loop that owns the operating-system threads performs each
//! decision exactly as [`JobQueue::take`] and [`worker_step`] state it.

use vstd::prelude::*;

verus! {

/// The error returned when a job is submitted after the queue was closed:
/// the pool is shutting down and the job was not accepted.
#[derive(Clone, Copy, Debug, PartialEq, Eq, Structural)]
pub struct QueueClosed;

/// What the queue hands a worker that asks for work.
pub enum Fetched<T> {
    /// The job that was first in line; the worker must run it.
    Job(T),
    /// No job is pending but the queue is still open; the worker waits.
    Empty,
    /// The queue is closed; the worker terminates.
    Closed,
}

/// What [`JobQueue::submit`] guarantees: a queue that is open accepts the
/// job at the back of the line; a queue that is closed rejects it and is
/// left unchanged.
pub open spec fn submit_post<T>(
    pre: JobQueue<T>,
    job: T,
    post: JobQueue<T>,
    r: Result<(), QueueClosed>,
) -> bool {
    &&& post.is_closed() == pre.is_closed()
    &&& if pre.is_closed() {
        r is Err && post.pending() == pre.pending()
    } else {
        r is Ok && post.pending() == pre.pending().push(job)
    }
}

/// What [`JobQueue::close`] guarantees: the queue is closed and the jobs
/// still in line are untouched.
pub open spec fn close_post<T>(pre: JobQueue<T>, post: JobQueue<T>) -> bool {
    &&& post.is_closed()
    &&& post.pending() == pre.pending()
}

/// The shared job queue: pending jobs in arrival order, and whether the
/// sending side has been closed.
pub struct JobQueue<T> {
    jobs: Vec<T>,
    closed: bool,
}

impl<T> JobQueue<T> {
    /// The jobs submitted and not yet handed to a worker, oldest first.
    pub closed spec fn pending(&self) -> Seq<T> {
        self.jobs@
    }

    /// Whether the sending side has been closed.
    pub closed spec fn is_closed(&self) -> bool {
        self.closed
    }

    /// Creates an open, empty queue.
    pub fn new() -> (q: JobQueue<T>)
        ensures
            q.pending() == Seq::<T>::empty(),
            !q.is_closed(),
    {
        let q = JobQueue { jobs: Vec::new(), closed: false };
        proof {
            assert(q.pending() =~= Seq::<T>::empty());
        }
        q
    }

    /// Enqueues `job` for delivery to some worker.  Returns without
    /// blocking; fails exactly when the queue has already been closed, and
    /// then leaves the queue unchanged.
    pub fn submit(&mut self, job: T) -> (r: Result<(), QueueClosed>)
        ensures
            submit_post(*old(self), job, *final(self), r),
    {
        if self.closed {
            Err(QueueClosed)
        } else {
            self.jobs.push(job);
            Ok(())
        }
    }

    /// Closes the sending side: no further job will be accepted.  Jobs
    /// already in line stay there and are still handed out.
    pub fn close(&mut self)
        ensures
            close_post(*old(self), *final(self)),
    {
        self.closed = true;
    }

    /// Hands out the job that has waited longest, or tells the worker what
    /// to do instead: wait when the queue is open and empty, terminate when
    /// it is closed.  Once the queue is closed no job is handed out any
    /// more: jobs still unclaimed at that point are discarded, never
    /// executed and never re-queued.
    pub fn take(&mut self) -> (r: Fetched<T>)
        ensures
            final(self).is_closed() == old(self).is_closed(),
            old(self).is_closed() ==> (r is Closed) && final(self).pending() == old(self).pending(),
            !old(self).is_closed() && old(self).pending().len() > 0 ==> r == Fetched::<T>::Job(
                old(self).pending()[0],
            ) && final(self).pending() == old(self).pending().subrange(
                1,
                old(self).pending().len() as int,
            ),
            !old(self).is_closed() && old(self).pending().len() == 0 ==> (r is Empty)
                && final(self).pending() == old(self).pending(),
    {
        if self.closed {
            Fetched::Closed
        } else if self.jobs.len() > 0 {
            let job = self.jobs.remove(0);
            Fetched::Job(job)
        } else {
            Fetched::Empty
        }
    }
}

/// The states of one worker.
#[derive(Clone, Copy, Debug, PartialEq, Eq, Structural)]
pub enum WorkerState {
    /// Blocked waiting for a job.
    Idle,
    /// Running a job.
    Executing,
    /// Exited its loop; it will never run another job.
    Terminated,
}

/// The events one worker observes.
#[derive(Clone, Copy, Debug, PartialEq, Eq, Structural)]
pub enum WorkerEvent {
    /// The queue handed the worker a job.
    JobDelivered,
    /// The job the worker was running finished.
    JobCompleted,
    /// The queue reported itself closed.
    SourceClosed,
}

/// The worker life cycle: `Idle` becomes `Executing` on a delivery,
/// `Executing` returns to `Idle` when its job completes, and `Idle` becomes
/// `Terminated` when the closed queue has nothing left.  `None` marks the
/// event impossible in that state.
pub open spec fn spec_step(s: WorkerState, e: WorkerEvent) -> Option<WorkerState> {
    match (s, e) {
        (WorkerState::Idle, WorkerEvent::JobDelivered) => Some(WorkerState::Executing),
        (WorkerState::Executing, WorkerEvent::JobCompleted) => Some(WorkerState::Idle),
        (WorkerState::Idle, WorkerEvent::SourceClosed) => Some(WorkerState::Terminated),
        _ => None,
    }
}

/// Advances one worker's state by one observed event.
pub fn worker_step(s: WorkerState, e: WorkerEvent) -> (t: Option<WorkerState>)
    ensures
        t == spec_step(s, e),
{
    match (s, e) {
        (WorkerState::Idle, WorkerEvent::JobDelivered) => Some(WorkerState::Executing),
        (WorkerState::Executing, WorkerEvent::JobCompleted) => Some(WorkerState::Idle),
        (WorkerState::Idle, WorkerEvent::SourceClosed) => Some(WorkerState::Terminated),
        _ => None,
    }
}

/// Pool shutdown rejects new work: once `close` has run, every later
/// `submit` fails and leaves the pending jobs exactly as they were.
pub proof fn lemma_shutdown_rejects<T>(
    q0: JobQueue<T>,
    q1: JobQueue<T>,
    q2: JobQueue<T>,
    job: T,
    r: Result<(), QueueClosed>,
)
    requires
        close_post(q0, q1),
        submit_post(q1, job, q2, r),
    ensures
        r is Err,
        q2.pending() == q1.pending(),
        q2.is_closed(),
{
}

/// A job that has begun executing is never interrupted by shutdown: in the
/// `Executing` state the closure signal is not a possible transition, and
/// the only step out of `Executing` is the completion of its own job.
pub proof fn lemma_executing_uninterrupted(e: WorkerEvent)
    ensures
        spec_step(WorkerState::Executing, WorkerEvent::SourceClosed) is None,
        spec_step(WorkerState::Executing, e) matches Some(t) ==> e == WorkerEvent::JobCompleted
            && t == WorkerState::Idle,
{
}

} // verus!
