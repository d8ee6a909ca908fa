//! A worker: what it does with one message, and what the pool's owner keeps
//! of it.

use vstd::prelude::*;
use crate::message::Message;

verus! {

/// Where a worker stands after it has dealt with one message.
#[derive(Clone, Copy, Debug, PartialEq, Eq, Structural)]
pub enum WorkerStatus {
    /// The worker goes back to the channel for its next message.
    Listening,
    /// The worker has left its loop for good.
    Exited,
}

/// What a message asks of the worker that receives it: after a job the worker
/// listens again, after the stop signal it is gone.
pub open spec fn status_after<J>(message: Message<J>) -> WorkerStatus {
    match message {
        Message::NewJob(_) => WorkerStatus::Listening,
        Message::Terminate => WorkerStatus::Exited,
    }
}

/// One turn of a worker's loop, from the message it has just received: a job
/// is run to its end, here and now, and the worker listens again; the stop
/// signal ends the worker.
///
/// The job runs inside this call, so a worker that receives its messages one
/// `serve` after the other never holds two jobs at once.
pub fn serve<J: FnOnce()>(message: Message<J>) -> (status: WorkerStatus)
    requires
        message matches Message::NewJob(job) ==> job.requires(()),
    ensures
        status == status_after(message),
        message matches Message::NewJob(job) ==> job.ensures((), ()),
{
    match message {
        Message::NewJob(job) => {
            job();
            WorkerStatus::Listening
        },
        Message::Terminate => WorkerStatus::Exited,
    }
}

/// What a worker is, mathematically.
pub struct WorkerView<H> {
    /// The worker's number within its pool.
    pub id: usize,
    /// The handle to the worker's thread, until somebody takes it in order to
    /// join the thread.
    pub thread: Option<H>,
}

/// One of a pool's workers, as the pool's owner sees it: a number and the
/// handle to the thread that runs the worker's loop.
pub struct Worker<H> {
    id: usize,
    thread: Option<H>,
}

impl<H> View for Worker<H> {
    type V = WorkerView<H>;

    closed spec fn view(&self) -> WorkerView<H> {
        WorkerView { id: self.id, thread: self.thread }
    }
}

impl<H> WorkerView<H> {
    /// Whether this is worker `id` as one call of `spawn` on `id` may have
    /// started it: the number is `id`, and the handle is there and is one
    /// that the call can return.
    pub open spec fn started_by<F: FnOnce(usize) -> H>(self, id: usize, spawn: F) -> bool {
        &&& self.id == id
        &&& self.thread is Some
        &&& spawn.ensures((id,), self.thread->0)
    }
}

impl<H> Worker<H> {
    /// Starts worker `id` by calling `spawn` on that number, and keeps the
    /// handle that `spawn` returns.
    pub fn new<F: FnOnce(usize) -> H>(id: usize, spawn: F) -> (worker: Worker<H>)
        requires
            spawn.requires((id,)),
        ensures
            worker@.started_by(id, spawn),
    {
        let thread = spawn(id);
        Worker { id, thread: Some(thread) }
    }

    /// The worker's number.
    pub fn id(&self) -> (id: usize)
        ensures
            id == self@.id,
    {
        self.id
    }

    /// Whether the handle to the worker's thread is still here.
    pub fn has_thread(&self) -> (present: bool)
        ensures
            present == (self@.thread is Some),
    {
        self.thread.is_some()
    }

    /// Hands out the thread's handle and leaves none behind.  A second call
    /// finds nothing.
    pub fn take_thread(&mut self) -> (thread: Option<H>)
        ensures
            thread == old(self)@.thread,
            final(self)@ == (WorkerView::<H> { id: old(self)@.id, thread: None }),
    {
        self.thread.take()
    }
}

} // verus!
