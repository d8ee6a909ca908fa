//! What can never go wrong: the invariant of the pool's model holds at the
//! start and after every step, and from it follow the facts about jobs and
//! stop signals that the pool promises.

use vstd::prelude::*;
use crate::message::{job_messages, terminate_signals, Message};
use crate::pool::PoolState;
use crate::protocol::{
    exited_count, held, lemma_exited_count_bounds, lemma_exited_count_update, Activity, PoolModel,
    Step,
};

verus! {

/// A pool that has just been made satisfies the invariant.
pub proof fn lemma_init_inv<J>(size: nat)
    requires
        size > 0,
    ensures
        PoolModel::<J>::init(size).inv(),
{
    let s = PoolModel::<J>::init(size);
    lemma_exited_count_bounds(s.workers);
    assert(s.queue =~= job_messages(s.waiting_jobs()) + terminate_signals(s.signals_left()));
}

proof fn lemma_submit_inv<J>(s: PoolModel<J>, job: J)
    requires
        s.inv(),
        s.enabled(Step::Submit { job }),
    ensures
        s.next(Step::Submit { job }).inv(),
{
    let n = s.next(Step::Submit { job });
    assert(n.waiting_jobs() =~= s.waiting_jobs().push(job));
    assert(n.queue =~= job_messages(n.waiting_jobs()) + terminate_signals(n.signals_left()));
}

proof fn lemma_begin_shutdown_inv<J>(s: PoolModel<J>)
    requires
        s.inv(),
        s.enabled(Step::BeginShutdown),
    ensures
        s.next(Step::BeginShutdown).inv(),
{
    let n = s.next(Step::<J>::BeginShutdown);
    assert(n.queue =~= job_messages(n.waiting_jobs()) + terminate_signals(n.signals_left()));
}

proof fn lemma_join_inv<J>(s: PoolModel<J>)
    requires
        s.inv(),
        s.enabled(Step::Join),
    ensures
        s.next(Step::Join).inv(),
{
}

proof fn lemma_receive_inv<J>(s: PoolModel<J>, worker: int)
    requires
        s.inv(),
        s.enabled(Step::Receive { worker }),
    ensures
        s.next(Step::Receive { worker }).inv(),
{
    let n = s.next(Step::<J>::Receive { worker });
    let jobs = s.waiting_jobs();
    lemma_exited_count_bounds(s.workers);
    if jobs.len() > 0 {
        let ticket = s.taken;
        assert(s.queue[0] == job_messages(jobs)[0]);
        assert(s.queue[0] == Message::NewJob(jobs[0]));
        lemma_exited_count_update(s.workers, worker, Activity::Running { ticket });
        assert(n.waiting_jobs() =~= jobs.drop_first());
        assert(n.queue =~= job_messages(n.waiting_jobs()) + terminate_signals(n.signals_left()));
        assert forall|t: int| 0 <= t < n.runs.len() implies #[trigger] n.runs[t] == if t < n.taken
            && !held(n.workers, t as nat) {
            1nat
        } else {
            0nat
        } by {
            if t == ticket {
                assert(n.workers[worker] == (Activity::Running { ticket: t as nat }));
            } else if held(s.workers, t as nat) {
                let w = choose|w: int|
                    0 <= w < s.workers.len() && #[trigger] s.workers[w] == (Activity::Running {
                        ticket: t as nat,
                    });
                assert(n.workers[w] == (Activity::Running { ticket: t as nat }));
            } else if held(n.workers, t as nat) {
                let w = choose|w: int|
                    0 <= w < n.workers.len() && #[trigger] n.workers[w] == (Activity::Running {
                        ticket: t as nat,
                    });
                assert(s.workers[w] == (Activity::Running { ticket: t as nat }));
            }
        }
        assert forall|w: int| 0 <= w < n.joined implies (#[trigger] n.workers[w]) is Exited by {
            assert(s.workers[w] is Exited);
        }
    } else {
        assert(s.queue =~= terminate_signals(s.signals_left()));
        assert(s.queue[0] == Message::<J>::Terminate);
        lemma_exited_count_update(s.workers, worker, Activity::Exited);
        assert(n.waiting_jobs() =~= jobs);
        assert(n.queue =~= job_messages(n.waiting_jobs()) + terminate_signals(n.signals_left()));
        assert forall|t: int| 0 <= t < n.runs.len() implies #[trigger] n.runs[t] == if t < n.taken
            && !held(n.workers, t as nat) {
            1nat
        } else {
            0nat
        } by {
            if held(s.workers, t as nat) {
                let w = choose|w: int|
                    0 <= w < s.workers.len() && #[trigger] s.workers[w] == (Activity::Running {
                        ticket: t as nat,
                    });
                assert(n.workers[w] == (Activity::Running { ticket: t as nat }));
            } else if held(n.workers, t as nat) {
                let w = choose|w: int|
                    0 <= w < n.workers.len() && #[trigger] n.workers[w] == (Activity::Running {
                        ticket: t as nat,
                    });
                assert(s.workers[w] == (Activity::Running { ticket: t as nat }));
            }
        }
        assert forall|w: int| 0 <= w < n.joined implies (#[trigger] n.workers[w]) is Exited by {
            assert(s.workers[w] is Exited);
        }
    }
}

proof fn lemma_finish_inv<J>(s: PoolModel<J>, worker: int)
    requires
        s.inv(),
        s.enabled(Step::Finish { worker }),
    ensures
        s.next(Step::Finish { worker }).inv(),
{
    let n = s.next(Step::<J>::Finish { worker });
    let ticket = s.workers[worker]->ticket;
    lemma_exited_count_update(s.workers, worker, Activity::Listening);
    assert(s.workers[worker] == (Activity::Running { ticket }));
    assert(held(s.workers, ticket));
    assert(n.queue =~= job_messages(n.waiting_jobs()) + terminate_signals(n.signals_left()));
    assert forall|t: int| 0 <= t < n.runs.len() implies #[trigger] n.runs[t] == if t < n.taken
        && !held(n.workers, t as nat) {
        1nat
    } else {
        0nat
    } by {
        if t == ticket {
            if held(n.workers, t as nat) {
                let w = choose|w: int|
                    0 <= w < n.workers.len() && #[trigger] n.workers[w] == (Activity::Running {
                        ticket: t as nat,
                    });
                assert(w != worker);
                assert(s.workers[w] == s.workers[worker]);
                if w < worker {
                    assert(s.workers[w] != s.workers[worker]);
                } else {
                    assert(s.workers[worker] != s.workers[w]);
                }
            }
        } else if held(s.workers, t as nat) {
            let w = choose|w: int|
                0 <= w < s.workers.len() && #[trigger] s.workers[w] == (Activity::Running {
                    ticket: t as nat,
                });
            assert(n.workers[w] == (Activity::Running { ticket: t as nat }));
        } else if held(n.workers, t as nat) {
            let w = choose|w: int|
                0 <= w < n.workers.len() && #[trigger] n.workers[w] == (Activity::Running {
                    ticket: t as nat,
                });
            assert(s.workers[w] == (Activity::Running { ticket: t as nat }));
        }
    }
    assert forall|w: int| 0 <= w < n.joined implies (#[trigger] n.workers[w]) is Exited by {
        assert(s.workers[w] is Exited);
    }
}

/// Every step that can be taken keeps the invariant.
pub proof fn lemma_step_keeps_inv<J>(s: PoolModel<J>, step: Step<J>)
    requires
        s.inv(),
        s.enabled(step),
    ensures
        s.next(step).inv(),
{
    match step {
        Step::Submit { job } => lemma_submit_inv(s, job),
        Step::Receive { worker } => lemma_receive_inv(s, worker),
        Step::Finish { worker } => lemma_finish_inv(s, worker),
        Step::BeginShutdown => lemma_begin_shutdown_inv(s),
        Step::Join => lemma_join_inv(s),
    }
}

/// The invariant holds of every state that a new pool can reach.
pub proof fn lemma_reachable_inv<J>(size: nat, steps: Seq<Step<J>>)
    requires
        size > 0,
        PoolModel::<J>::init(size).admits(steps),
    ensures
        PoolModel::<J>::init(size).run(steps).inv(),
    decreases steps.len(),
{
    if steps.len() == 0 {
        lemma_init_inv::<J>(size);
    } else {
        lemma_reachable_inv(size, steps.drop_last());
        lemma_step_keeps_inv(PoolModel::<J>::init(size).run(steps.drop_last()), steps.last());
    }
}

/// No job is ever run twice: at any moment each submitted job has been run
/// to its end once or not at all.
pub proof fn lemma_never_run_twice<J>(s: PoolModel<J>, ticket: int)
    requires
        s.inv(),
        0 <= ticket < s.submitted.len(),
    ensures
        s.runs[ticket] <= 1,
{
}

/// Nothing is lost and nothing is doubled: at any moment each submitted job
/// is in exactly one of three places.  It waits in the channel, behind the
/// jobs submitted before it and in front of those submitted after it; or one
/// worker is running it; or it has been run to its end, once.
pub proof fn lemma_every_job_accounted_for<J>(s: PoolModel<J>, ticket: int)
    requires
        s.inv(),
        0 <= ticket < s.submitted.len(),
    ensures
        ticket >= s.taken ==> {
            &&& ticket - s.taken < s.queue.len()
            &&& s.queue[ticket - s.taken] == Message::NewJob(s.submitted[ticket])
            &&& !held(s.workers, ticket as nat)
            &&& s.runs[ticket] == 0
        },
        ticket < s.taken ==> (held(s.workers, ticket as nat) <==> s.runs[ticket] == 0),
        ticket < s.taken ==> (!held(s.workers, ticket as nat) <==> s.runs[ticket] == 1),
        forall|a: int, b: int|
            0 <= a < s.workers.len() && 0 <= b < s.workers.len() && s.workers[a] == (
            Activity::Running { ticket: ticket as nat }) && s.workers[b] == (Activity::Running {
                ticket: ticket as nat,
            }) ==> a == b,
{
    if ticket >= s.taken {
        assert(job_messages(s.waiting_jobs())[ticket - s.taken] == Message::NewJob(
            s.submitted[ticket],
        ));
        if held(s.workers, ticket as nat) {
            let w = choose|w: int|
                0 <= w < s.workers.len() && #[trigger] s.workers[w] == (Activity::Running {
                    ticket: ticket as nat,
                });
            assert(s.workers[w]->ticket < s.taken);
        }
    }
    assert forall|a: int, b: int|
        0 <= a < s.workers.len() && 0 <= b < s.workers.len() && s.workers[a] == (
        Activity::Running { ticket: ticket as nat }) && s.workers[b] == (Activity::Running {
            ticket: ticket as nat,
        }) implies a == b by {
        if a < b {
            assert(s.workers[a] != s.workers[b]);
        } else if b < a {
            assert(s.workers[b] != s.workers[a]);
        }
    }
}

/// Workers take the jobs in the order of submission: whenever a job waits,
/// the message at the head of the channel is the oldest job not yet taken.
pub proof fn lemma_oldest_job_first<J>(s: PoolModel<J>)
    requires
        s.inv(),
        s.taken < s.submitted.len(),
    ensures
        s.queue.len() > 0,
        s.queue[0] == Message::NewJob(s.submitted[s.taken as int]),
{
    assert(job_messages(s.waiting_jobs())[0] == Message::NewJob(s.submitted[s.taken as int]));
}

/// A stop signal is taken only when no job waits in front of it: as long as
/// some job has not been taken, no worker has exited.
pub proof fn lemma_jobs_before_stop_signals<J>(s: PoolModel<J>)
    requires
        s.inv(),
        s.taken < s.submitted.len(),
    ensures
        forall|w: int| 0 <= w < s.workers.len() ==> !((#[trigger] s.workers[w]) is Exited),
{
    lemma_exited_count_bounds(s.workers);
}

/// Exactly one stop signal exists for each worker once shutdown has begun:
/// those still in the channel and the workers that have exited add up to the
/// number of workers, and the signals stand behind every waiting job.
pub proof fn lemma_one_stop_signal_each<J>(s: PoolModel<J>)
    requires
        s.inv(),
        s.state != PoolState::Running,
    ensures
        s.signals_left() + exited_count(s.workers) == s.workers.len(),
        s.queue == job_messages(s.waiting_jobs()) + terminate_signals(s.signals_left()),
{
    lemma_exited_count_bounds(s.workers);
}

/// While the pool runs, the channel holds jobs only.
pub proof fn lemma_no_stop_signal_while_running<J>(s: PoolModel<J>)
    requires
        s.inv(),
        s.state == PoolState::Running,
    ensures
        s.queue == job_messages(s.waiting_jobs()),
        forall|w: int| 0 <= w < s.workers.len() ==> !((#[trigger] s.workers[w]) is Exited),
{
    lemma_exited_count_bounds(s.workers);
    assert(s.queue =~= job_messages(s.waiting_jobs()));
}

/// When every worker has exited, every job that was ever submitted has been
/// run to its end exactly once, and the channel is empty.
pub proof fn lemma_all_jobs_run_once<J>(s: PoolModel<J>)
    requires
        s.inv(),
        forall|w: int| 0 <= w < s.workers.len() ==> (#[trigger] s.workers[w]) is Exited,
    ensures
        s.taken == s.submitted.len(),
        s.queue.len() == 0,
        forall|t: int| 0 <= t < s.submitted.len() ==> #[trigger] s.runs[t] == 1,
{
    lemma_exited_count_bounds(s.workers);
    assert(s.workers[0] is Exited);
    assert forall|t: int| 0 <= t < s.submitted.len() implies #[trigger] s.runs[t] == 1 by {
        if held(s.workers, t as nat) {
            let w = choose|w: int|
                0 <= w < s.workers.len() && #[trigger] s.workers[w] == (Activity::Running {
                    ticket: t as nat,
                });
            assert(s.workers[w] is Exited);
        }
    }
}

/// A joined pool has no worker left in its loop: the owner's last join
/// returns only after every worker has exited, and by then every job has
/// been run exactly once.
pub proof fn lemma_joined_after_all_exited<J>(s: PoolModel<J>)
    requires
        s.inv(),
        s.state == PoolState::Joined,
    ensures
        forall|w: int| 0 <= w < s.workers.len() ==> (#[trigger] s.workers[w]) is Exited,
        s.queue.len() == 0,
        forall|t: int| 0 <= t < s.submitted.len() ==> #[trigger] s.runs[t] == 1,
{
    lemma_all_jobs_run_once(s);
}

/// A worker that is running a job takes no message: it comes back to the
/// channel only after the job's end.
pub proof fn lemma_busy_worker_takes_nothing<J>(s: PoolModel<J>, worker: int)
    requires
        0 <= worker < s.workers.len(),
        s.workers[worker] is Running,
    ensures
        !s.enabled(Step::Receive { worker }),
        s.enabled(Step::Finish { worker }),
        s.next(Step::Finish { worker }).workers[worker] is Listening,
{
}

/// Two jobs that wait can run at the same time: two listening workers take
/// one each, the older job first, and then both are running, each its own
/// job.
pub proof fn lemma_two_jobs_can_overlap<J>(s: PoolModel<J>, first: int, second: int)
    requires
        s.inv(),
        s.taken + 2 <= s.submitted.len(),
        0 <= first < s.workers.len(),
        0 <= second < s.workers.len(),
        first != second,
        s.workers[first] is Listening,
        s.workers[second] is Listening,
    ensures
        s.enabled(Step::Receive { worker: first }),
        s.next(Step::Receive { worker: first }).enabled(Step::Receive { worker: second }),
        ({
            let after = s.next(Step::Receive { worker: first }).next(
                Step::Receive { worker: second },
            );
            &&& after.inv()
            &&& after.workers[first] == (Activity::Running { ticket: s.taken })
            &&& after.workers[second] == (Activity::Running { ticket: s.taken + 1 })
        }),
{
    lemma_oldest_job_first(s);
    let mid = s.next(Step::<J>::Receive { worker: first });
    lemma_step_keeps_inv(s, Step::<J>::Receive { worker: first });
    lemma_oldest_job_first(mid);
    lemma_step_keeps_inv(mid, Step::<J>::Receive { worker: second });
}

} // verus!
