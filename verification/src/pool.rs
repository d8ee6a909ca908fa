//! The owner's side of the pool: starting the workers, submitting jobs, and
//! shutting down in two halves.

use vstd::prelude::*;
use crate::channel::{Channel, ChannelView};
use crate::message::{terminate_signals, Message};
use crate::worker::{Worker, WorkerView};

verus! {

/// The stages of a pool's life, in the order in which it passes through them.
#[derive(Clone, Copy, Debug, PartialEq, Eq, Structural)]
pub enum PoolState {
    /// Every worker is in its loop, waiting for a message or running a job.
    Running,
    /// One stop signal for each worker has been sent; the workers finish what
    /// is queued before it and leave.
    Draining,
    /// Every worker's thread has been joined.
    Joined,
}

/// What a pool is, mathematically.
pub struct PoolView<H> {
    /// The workers, in the order in which they were started.
    pub workers: Seq<WorkerView<H>>,
    /// The stage the pool is in.
    pub state: PoolState,
}

impl<H> PoolView<H> {
    /// How many workers the pool has.
    pub open spec fn size(self) -> nat {
        self.workers.len()
    }

    /// What holds of every pool: it has at least one worker, worker `i` has
    /// the number `i`, and the thread handles are all there until the pool is
    /// joined and all gone after.
    pub open spec fn wf(self) -> bool {
        &&& self.workers.len() > 0
        &&& forall|i: int| 0 <= i < self.workers.len() ==> (#[trigger] self.workers[i]).id == i
        &&& forall|i: int|
            0 <= i < self.workers.len() ==> ((#[trigger] self.workers[i]).thread is None <==> self.state
                == PoolState::Joined)
    }
}

/// In a well-formed pool of `size` workers each worker's number lies below
/// `size`, and no two workers have the same number.
pub proof fn lemma_worker_ids_distinct<H>(pool: PoolView<H>)
    requires
        pool.wf(),
    ensures
        forall|i: int| 0 <= i < pool.size() ==> 0 <= (#[trigger] pool.workers[i]).id < pool.size(),
        forall|i: int, j: int|
            0 <= i < pool.size() && 0 <= j < pool.size() && i != j ==> (#[trigger] pool.workers[i]).id
                != (#[trigger] pool.workers[j]).id,
{
}

/// The owner's side of a worker pool: a fixed set of workers, numbered from
/// zero, and the stage of the pool's life.
///
/// `H` is the handle by which a worker's thread is joined.  The jobs
/// themselves travel through a [`Channel`], which the workers share.
pub struct ThreadPool<H> {
    workers: Vec<Worker<H>>,
    state: PoolState,
}

impl<H> View for ThreadPool<H> {
    type V = PoolView<H>;

    closed spec fn view(&self) -> PoolView<H> {
        PoolView { workers: Seq::new(self.workers@.len(), |i: int| self.workers@[i]@), state: self.state }
    }
}

impl<H> ThreadPool<H> {
    /// A running pool of `size` workers.  Worker `i`, for `i` from zero up to
    /// `size`, is started by one call of `spawn` on `i`, in that order, and
    /// the pool keeps the handle that the call returns.
    pub fn new<F: Fn(usize) -> H>(size: usize, spawn: F) -> (pool: ThreadPool<H>)
        requires
            size > 0,
            forall|id: usize| id < size ==> spawn.requires((id,)),
        ensures
            pool@.wf(),
            pool@.state == PoolState::Running,
            pool@.workers.len() == size,
            forall|i: int|
                0 <= i < size ==> (#[trigger] pool@.workers[i]).started_by(i as usize, spawn),
    {
        let mut workers: Vec<Worker<H>> = Vec::with_capacity(size);
        for id in 0..size
            invariant
                workers@.len() == id,
                forall|i: usize| i < size ==> spawn.requires((i,)),
                forall|i: int|
                    0 <= i < id ==> (#[trigger] workers@[i])@.started_by(i as usize, spawn),
        {
            workers.push(Worker::new(id, &spawn));
        }
        ThreadPool { workers, state: PoolState::Running }
    }

    /// How many workers the pool has.
    pub fn size(&self) -> (size: usize)
        ensures
            size == self@.size(),
    {
        self.workers.len()
    }

    /// The stage the pool is in.
    pub fn state(&self) -> (state: PoolState)
        ensures
            state == self@.state,
    {
        self.state
    }

    /// Submits `job`: it is put at the end of the channel's queue, behind
    /// everything sent before it, as one job message.  Nothing else changes.
    pub fn execute<J>(&self, channel: &mut Channel<J>, job: J)
        requires
            self@.state == PoolState::Running,
            old(channel)@.receivers > 0,
        ensures
            final(channel)@ == (ChannelView {
                queue: old(channel)@.queue.push(Message::NewJob(job)),
                ..old(channel)@
            }),
    {
        let sent = channel.send(Message::job(job));
        assert(sent is Ok);
    }

    /// The first half of shutting down: sends one stop signal for each worker,
    /// behind everything that is queued already, and turns the pool to
    /// draining.  The workers and the rest of the channel stay as they are.
    pub fn begin_shutdown<J>(&mut self, channel: &mut Channel<J>)
        requires
            old(self)@.wf(),
            old(self)@.state == PoolState::Running,
            old(channel)@.receivers > 0,
        ensures
            final(self)@ == (PoolView { state: PoolState::Draining, ..old(self)@ }),
            final(self)@.wf(),
            final(channel)@ == (ChannelView {
                queue: old(channel)@.queue + terminate_signals(old(self)@.size()),
                ..old(channel)@
            }),
    {
        let size = self.workers.len();
        for sent in 0..size
            invariant
                size == self.workers@.len(),
                channel@ == (ChannelView {
                    queue: old(channel)@.queue + terminate_signals(sent as nat),
                    ..old(channel)@
                }),
                old(channel)@.receivers > 0,
        {
            let outcome = channel.send(Message::Terminate);
            assert(outcome is Ok);
            assert((old(channel)@.queue + terminate_signals::<J>(sent as nat)).push(
                Message::Terminate,
            ) =~= old(channel)@.queue + terminate_signals::<J>((sent + 1) as nat));
        }
        self.state = PoolState::Draining;
        assert(final(self)@.workers =~= old(self)@.workers);
    }

    /// The second half of shutting down: takes each worker's thread handle,
    /// from worker zero upwards, and calls `join` on it before it turns to
    /// the next worker.  A worker whose handle is gone already is passed
    /// over.  When the call returns every handle that was there has been
    /// joined, none is left, and the pool is joined.
    pub fn join_workers<F: Fn(H)>(&mut self, join: F)
        requires
            old(self)@.wf(),
            old(self)@.state != PoolState::Running,
            forall|i: int|
                0 <= i < old(self)@.workers.len() ==> ((#[trigger] old(self)@.workers[i]).thread matches Some(
                    thread,
                ) ==> join.requires((thread,))),
        ensures
            final(self)@.wf(),
            final(self)@.state == PoolState::Joined,
            final(self)@.workers.len() == old(self)@.workers.len(),
            forall|i: int|
                0 <= i < old(self)@.workers.len() ==> #[trigger] final(self)@.workers[i] == (
                WorkerView::<H> { id: old(self)@.workers[i].id, thread: None }),
            forall|i: int|
                0 <= i < old(self)@.workers.len() ==> ((#[trigger] old(self)@.workers[i]).thread matches Some(
                    thread,
                ) ==> join.ensures((thread,), ())),
    {
        proof {
            assert forall|i: int| 0 <= i < old(self).workers@.len() implies (#[trigger] old(
                self,
            ).workers@[i])@ == old(self)@.workers[i] by {}
        }
        let size = self.workers.len();
        let mut index: usize = 0;
        while index < size
            invariant
                index <= size,
                size == self.workers@.len(),
                size == old(self).workers@.len(),
                size > 0,
                forall|i: int| 0 <= i < size ==> (#[trigger] self.workers@[i])@.id == i,
                forall|i: int| 0 <= i < index ==> (#[trigger] self.workers@[i])@.thread is None,
                forall|i: int|
                    index <= i < size ==> (#[trigger] self.workers@[i])@ == old(self).workers@[i]@,
                forall|i: int|
                    0 <= i < size ==> ((#[trigger] old(self).workers@[i])@.thread matches Some(thread)
                        ==> join.requires((thread,))),
                forall|i: int|
                    0 <= i < index ==> ((#[trigger] old(self).workers@[i])@.thread matches Some(thread)
                        ==> join.ensures((thread,), ())),
            decreases size - index,
        {
            let taken = self.workers[index].take_thread();
            if let Some(thread) = taken {
                join(thread);
            }
            index = index + 1;
        }
        self.state = PoolState::Joined;
        proof {
            assert forall|i: int| 0 <= i < size implies (#[trigger] final(self)@.workers[i])
                == self.workers@[i]@ by {}
        }
    }

    /// The workers' numbers, in the order in which the workers were started.
    pub fn worker_ids(&self) -> (ids: Vec<usize>)
        ensures
            ids@.len() == self@.size(),
            forall|i: int| 0 <= i < ids@.len() ==> #[trigger] ids@[i] == self@.workers[i].id,
    {
        let mut ids: Vec<usize> = Vec::with_capacity(self.workers.len());
        for index in 0..self.workers.len()
            invariant
                ids@.len() == index,
                forall|i: int| 0 <= i < index ==> #[trigger] ids@[i] == self.workers@[i]@.id,
        {
            ids.push(self.workers[index].id());
        }
        ids
    }
}

} // verus!
