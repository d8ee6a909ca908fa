//! The pool as a whole: its channel, its workers and its owner, taken as one
//! state that moves in atomic steps, and what is proved of every state that
//! such steps can reach.
//!
//! The steps are the operations of the rest of the library, seen from
//! outside: a job is submitted ([`crate::pool::ThreadPool::execute`]), a
//! worker takes the oldest message ([`crate::channel::Channel::recv`]) and
//! acts on it ([`crate::worker::serve`]), the owner sends the stop signals
//! ([`crate::pool::ThreadPool::begin_shutdown`]) and joins the workers one
//! after the other ([`crate::pool::ThreadPool::join_workers`]).  Which worker
//! moves next is left open: what is proved holds of every order.

use vstd::prelude::*;
use crate::channel::ChannelView;
use crate::message::{job_messages, terminate_signals, Message};
use crate::pool::{PoolState, PoolView};
use crate::worker::{status_after, WorkerStatus};

verus! {

/// What a worker's thread is doing.
pub enum Activity {
    /// Waiting for its next message.
    Listening,
    /// Running the job that was submitted as number `ticket`, counted from
    /// zero.
    Running { ticket: nat },
    /// Out of its loop, after a stop signal.
    Exited,
}

/// The state of a pool and everything around it.
pub struct PoolModel<J> {
    /// The channel: messages sent and not yet received, oldest first.
    pub queue: Seq<Message<J>>,
    /// What each worker is doing, by the worker's number.
    pub workers: Seq<Activity>,
    /// The stage of the pool's life.
    pub state: PoolState,
    /// Every job submitted so far, in the order of submission.
    pub submitted: Seq<J>,
    /// How many jobs the workers have taken from the channel so far.
    pub taken: nat,
    /// For each submitted job, how often it has been run to its end.
    pub runs: Seq<nat>,
    /// How many workers the owner has joined so far.
    pub joined: nat,
}

/// One atomic step of the pool.
pub enum Step<J> {
    /// The owner submits `job`.
    Submit { job: J },
    /// Worker `worker` takes the oldest message from the channel.
    Receive { worker: int },
    /// Worker `worker` comes to the end of the job it is running.
    Finish { worker: int },
    /// The owner sends one stop signal for each worker.
    BeginShutdown,
    /// The owner joins the next worker, which has exited.
    Join,
}

/// How many of `workers` have exited.
pub open spec fn exited_count(workers: Seq<Activity>) -> nat
    decreases workers.len(),
{
    if workers.len() == 0 {
        0
    } else {
        exited_count(workers.drop_last()) + if workers.last() is Exited {
            1nat
        } else {
            0nat
        }
    }
}

/// The steps that one worker still has before it: a running worker has to
/// finish its job and then to receive its stop signal, a listening one only
/// the latter.
pub open spec fn steps_ahead(activity: Activity) -> nat {
    match activity {
        Activity::Running { .. } => 2,
        Activity::Listening => 1,
        Activity::Exited => 0,
    }
}

/// The sum of [`steps_ahead`] over `workers`.
pub open spec fn total_steps_ahead(workers: Seq<Activity>) -> nat
    decreases workers.len(),
{
    if workers.len() == 0 {
        0
    } else {
        total_steps_ahead(workers.drop_last()) + steps_ahead(workers.last())
    }
}

/// Whether some worker is running job number `ticket`.
pub open spec fn held(workers: Seq<Activity>, ticket: nat) -> bool {
    exists|w: int| 0 <= w < workers.len() && #[trigger] workers[w] == (Activity::Running { ticket })
}

impl<J> PoolModel<J> {
    /// A pool of `size` workers that has just been made: every worker
    /// listens, nothing is queued, nothing was submitted.
    pub open spec fn init(size: nat) -> PoolModel<J> {
        PoolModel {
            queue: Seq::empty(),
            workers: Seq::new(size, |w: int| Activity::Listening),
            state: PoolState::Running,
            submitted: Seq::empty(),
            taken: 0,
            runs: Seq::empty(),
            joined: 0,
        }
    }

    /// Whether `step` can be taken in this state.
    pub open spec fn enabled(self, step: Step<J>) -> bool {
        match step {
            Step::Submit { job } => self.state == PoolState::Running,
            Step::Receive { worker } => {
                &&& 0 <= worker < self.workers.len()
                &&& self.workers[worker] is Listening
                &&& self.queue.len() > 0
            },
            Step::Finish { worker } => {
                &&& 0 <= worker < self.workers.len()
                &&& self.workers[worker] is Running
            },
            Step::BeginShutdown => self.state == PoolState::Running,
            Step::Join => {
                &&& self.state == PoolState::Draining
                &&& self.joined < self.workers.len()
                &&& self.workers[self.joined as int] is Exited
            },
        }
    }

    /// The state after `step`.
    pub open spec fn next(self, step: Step<J>) -> PoolModel<J> {
        match step {
            Step::Submit { job } => PoolModel {
                queue: self.queue.push(Message::NewJob(job)),
                submitted: self.submitted.push(job),
                runs: self.runs.push(0),
                ..self
            },
            Step::Receive { worker } => match self.queue[0] {
                Message::NewJob(_) => PoolModel {
                    queue: self.queue.drop_first(),
                    workers: self.workers.update(worker, Activity::Running { ticket: self.taken }),
                    taken: self.taken + 1,
                    ..self
                },
                Message::Terminate => PoolModel {
                    queue: self.queue.drop_first(),
                    workers: self.workers.update(worker, Activity::Exited),
                    ..self
                },
            },
            Step::Finish { worker } => {
                let ticket = self.workers[worker]->ticket;
                PoolModel {
                    workers: self.workers.update(worker, Activity::Listening),
                    runs: self.runs.update(ticket as int, self.runs[ticket as int] + 1),
                    ..self
                }
            },
            Step::BeginShutdown => PoolModel {
                queue: self.queue + terminate_signals(self.workers.len()),
                state: PoolState::Draining,
                ..self
            },
            Step::Join => PoolModel {
                joined: self.joined + 1,
                state: if self.joined + 1 == self.workers.len() {
                    PoolState::Joined
                } else {
                    PoolState::Draining
                },
                ..self
            },
        }
    }

    /// Whether `channel` is the channel of this state and `pool` the owner's
    /// side of it.
    pub open spec fn shows<H>(self, channel: ChannelView<J>, pool: PoolView<H>) -> bool {
        &&& self.queue == channel.queue
        &&& self.state == pool.state
        &&& self.workers.len() == pool.workers.len()
    }

    /// The state after the steps `steps`, taken one after the other.
    pub open spec fn run(self, steps: Seq<Step<J>>) -> PoolModel<J>
        decreases steps.len(),
    {
        if steps.len() == 0 {
            self
        } else {
            self.run(steps.drop_last()).next(steps.last())
        }
    }

    /// Whether the steps `steps` can be taken one after the other, each in
    /// the state that the ones before it have led to.
    pub open spec fn admits(self, steps: Seq<Step<J>>) -> bool
        decreases steps.len(),
    {
        steps.len() == 0 || (self.admits(steps.drop_last()) && self.run(
            steps.drop_last(),
        ).enabled(steps.last()))
    }

    /// The jobs that were submitted and that no worker has taken yet, oldest
    /// first.
    pub open spec fn waiting_jobs(self) -> Seq<J> {
        self.submitted.skip(self.taken as int)
    }

    /// How many stop signals are still in the channel: none while the pool
    /// runs, and afterwards one for each worker that has not exited.
    pub open spec fn signals_left(self) -> nat {
        if self.state == PoolState::Running {
            0
        } else {
            (self.workers.len() - exited_count(self.workers)) as nat
        }
    }

    /// The steps that the pool still has before it once no more job is
    /// submitted: for each waiting job its receipt and its end, the steps of
    /// each worker, and one join for each worker.
    pub open spec fn steps_to_end(self) -> nat {
        (2 * self.waiting_jobs().len() + total_steps_ahead(self.workers) + (self.workers.len()
            - self.joined)) as nat
    }

    /// What holds of every state that the pool can reach.
    pub open spec fn inv(self) -> bool {
        &&& self.workers.len() > 0
        &&& self.runs.len() == self.submitted.len()
        &&& self.taken <= self.submitted.len()
        &&& self.queue == job_messages(self.waiting_jobs()) + terminate_signals(self.signals_left())
        &&& self.state == PoolState::Running ==> exited_count(self.workers) == 0
        &&& exited_count(self.workers) > 0 ==> self.taken == self.submitted.len()
        &&& forall|w: int|
            0 <= w < self.workers.len() && (#[trigger] self.workers[w]) is Running
                ==> self.workers[w]->ticket < self.taken
        &&& forall|a: int, b: int|
            0 <= a < b < self.workers.len() && (#[trigger] self.workers[a]) is Running
                && (#[trigger] self.workers[b]) is Running ==> self.workers[a] != self.workers[b]
        &&& forall|t: int|
            0 <= t < self.runs.len() ==> #[trigger] self.runs[t] == if t < self.taken && !held(
                self.workers,
                t as nat,
            ) {
                1nat
            } else {
                0nat
            }
        &&& self.joined <= self.workers.len()
        &&& forall|w: int| 0 <= w < self.joined ==> (#[trigger] self.workers[w]) is Exited
        &&& self.state == PoolState::Joined <==> self.joined == self.workers.len()
        &&& self.joined > 0 ==> self.state != PoolState::Running
    }
}

/// The number of exited workers lies between zero and the number of workers,
/// and reaches either end exactly when none, or every one, has exited.
pub proof fn lemma_exited_count_bounds(workers: Seq<Activity>)
    ensures
        exited_count(workers) <= workers.len(),
        exited_count(workers) == workers.len() <==> forall|w: int|
            0 <= w < workers.len() ==> (#[trigger] workers[w]) is Exited,
        exited_count(workers) == 0 <==> forall|w: int|
            0 <= w < workers.len() ==> !((#[trigger] workers[w]) is Exited),
    decreases workers.len(),
{
    if workers.len() > 0 {
        let front = workers.drop_last();
        lemma_exited_count_bounds(front);
        assert forall|w: int| 0 <= w < front.len() implies #[trigger] front[w] == workers[w] by {}
        if exited_count(workers) == workers.len() {
            assert forall|w: int| 0 <= w < workers.len() implies (#[trigger] workers[w]) is Exited by {
                if w < front.len() {
                    assert(front[w] is Exited);
                }
            }
        }
        if forall|w: int| 0 <= w < workers.len() ==> (#[trigger] workers[w]) is Exited {
            assert(workers.last() is Exited);
            assert forall|w: int| 0 <= w < front.len() implies (#[trigger] front[w]) is Exited by {
                assert(workers[w] is Exited);
            }
        }
        if exited_count(workers) == 0 {
            assert forall|w: int| 0 <= w < workers.len() implies !((#[trigger] workers[w]) is Exited) by {
                if w < front.len() {
                    assert(!(front[w] is Exited));
                }
            }
        }
        if forall|w: int| 0 <= w < workers.len() ==> !((#[trigger] workers[w]) is Exited) {
            assert(!(workers.last() is Exited));
            assert forall|w: int| 0 <= w < front.len() implies !((#[trigger] front[w]) is Exited) by {
                assert(!(workers[w] is Exited));
            }
        }
    }
}

/// Changing what one worker does changes the number of exited workers by that
/// worker alone.
pub proof fn lemma_exited_count_update(workers: Seq<Activity>, worker: int, activity: Activity)
    requires
        0 <= worker < workers.len(),
    ensures
        exited_count(workers.update(worker, activity)) + (if workers[worker] is Exited {
            1nat
        } else {
            0nat
        }) == exited_count(workers) + (if activity is Exited {
            1nat
        } else {
            0nat
        }),
    decreases workers.len(),
{
    let updated = workers.update(worker, activity);
    if worker == workers.len() - 1 {
        assert(updated.drop_last() =~= workers.drop_last());
    } else {
        assert(updated.drop_last() =~= workers.drop_last().update(worker, activity));
        lemma_exited_count_update(workers.drop_last(), worker, activity);
    }
}

/// Changing what one worker does changes the steps that the workers have
/// before them by that worker's alone.
pub proof fn lemma_total_steps_ahead_update(workers: Seq<Activity>, worker: int, activity: Activity)
    requires
        0 <= worker < workers.len(),
    ensures
        total_steps_ahead(workers.update(worker, activity)) + steps_ahead(workers[worker])
            == total_steps_ahead(workers) + steps_ahead(activity),
    decreases workers.len(),
{
    let updated = workers.update(worker, activity);
    if worker == workers.len() - 1 {
        assert(updated.drop_last() =~= workers.drop_last());
    } else {
        assert(updated.drop_last() =~= workers.drop_last().update(worker, activity));
        lemma_total_steps_ahead_update(workers.drop_last(), worker, activity);
    }
}

/// Workers that have all exited have no step before them, and only they.
pub proof fn lemma_total_steps_ahead_zero(workers: Seq<Activity>)
    ensures
        total_steps_ahead(workers) == 0 <==> forall|w: int|
            0 <= w < workers.len() ==> (#[trigger] workers[w]) is Exited,
    decreases workers.len(),
{
    if workers.len() > 0 {
        let front = workers.drop_last();
        lemma_total_steps_ahead_zero(front);
        assert forall|w: int| 0 <= w < front.len() implies #[trigger] front[w] == workers[w] by {}
        if total_steps_ahead(workers) == 0 {
            assert forall|w: int| 0 <= w < workers.len() implies (#[trigger] workers[w]) is Exited by {
                if w < front.len() {
                    assert(front[w] is Exited);
                }
            }
        }
        if forall|w: int| 0 <= w < workers.len() ==> (#[trigger] workers[w]) is Exited {
            assert(workers.last() is Exited);
            assert forall|w: int| 0 <= w < front.len() implies (#[trigger] front[w]) is Exited by {
                assert(workers[w] is Exited);
            }
        }
    }
}

/// What [`crate::pool::ThreadPool::execute`] does to a running pool's channel
/// is the step that submits the job.
pub proof fn lemma_execute_is_submit<J, H>(
    s: PoolModel<J>,
    channel: ChannelView<J>,
    pool: PoolView<H>,
    job: J,
)
    requires
        s.shows(channel, pool),
        pool.state == PoolState::Running,
    ensures
        s.enabled(Step::Submit { job }),
        s.next(Step::Submit { job }).shows(
            ChannelView { queue: channel.queue.push(Message::NewJob(job)), ..channel },
            pool,
        ),
{
}

/// What [`crate::channel::Channel::recv`] does to a channel that holds a
/// message is the step by which a listening worker receives it, and what
/// [`crate::worker::serve`] then returns is where that worker stands once it
/// has finished the job, if it took one.
pub proof fn lemma_recv_is_receive<J, H>(
    s: PoolModel<J>,
    channel: ChannelView<J>,
    pool: PoolView<H>,
    worker: int,
)
    requires
        s.shows(channel, pool),
        channel.queue.len() > 0,
        0 <= worker < s.workers.len(),
        s.workers[worker] is Listening,
    ensures
        s.enabled(Step::Receive { worker }),
        s.next(Step::Receive { worker }).shows(
            ChannelView { queue: channel.queue.drop_first(), ..channel },
            pool,
        ),
        status_after(channel.queue[0]) == WorkerStatus::Exited ==> s.next(
            Step::Receive { worker },
        ).workers[worker] is Exited,
        status_after(channel.queue[0]) == WorkerStatus::Listening ==> {
            let taken = s.next(Step::Receive { worker });
            &&& taken.workers[worker] is Running
            &&& taken.enabled(Step::Finish { worker })
            &&& taken.next(Step::Finish { worker }).workers[worker] is Listening
        },
{
}

/// What [`crate::pool::ThreadPool::begin_shutdown`] does to a running pool
/// and its channel is the step that begins shutdown.
pub proof fn lemma_begin_shutdown_is_step<J, H>(
    s: PoolModel<J>,
    channel: ChannelView<J>,
    pool: PoolView<H>,
)
    requires
        s.shows(channel, pool),
        pool.state == PoolState::Running,
    ensures
        s.enabled(Step::BeginShutdown),
        s.next(Step::BeginShutdown).shows(
            ChannelView { queue: channel.queue + terminate_signals(pool.size()), ..channel },
            PoolView { state: PoolState::Draining, ..pool },
        ),
{
}

} // verus!
