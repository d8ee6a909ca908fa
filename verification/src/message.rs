//! The messages that the pool sends to its workers.

use vstd::prelude::*;

verus! {

/// What travels over the pool's channel: a job for some worker to run, or the
/// signal that tells the worker receiving it to stop.
pub enum Message<J> {
    NewJob(J),
    Terminate,
}

impl<J> Message<J> {
    /// Wraps a job for sending.
    pub fn job(job: J) -> (message: Message<J>)
        ensures
            message == Message::NewJob(job),
    {
        Message::NewJob(job)
    }

    /// Whether this is the stop signal.
    pub fn is_terminate(&self) -> (b: bool)
        ensures
            b == (*self is Terminate),
    {
        match self {
            Message::NewJob(_) => false,
            Message::Terminate => true,
        }
    }
}

/// `count` stop signals in a row: what a pool of `count` workers sends when it
/// shuts down.
pub open spec fn terminate_signals<J>(count: nat) -> Seq<Message<J>> {
    Seq::new(count, |i: int| Message::Terminate)
}

/// The jobs `jobs`, each wrapped for sending, in the same order.
pub open spec fn job_messages<J>(jobs: Seq<J>) -> Seq<Message<J>> {
    Seq::new(jobs.len(), |i: int| Message::NewJob(jobs[i]))
}

} // verus!
