//! What is bound to happen: while a job waits no worker is stuck, and once
//! shutdown has begun the pool is never stuck, each step brings its end one
//! step nearer, and the end is the joined pool with every job run.

use vstd::prelude::*;
use crate::pool::PoolState;
use crate::protocol::{
    lemma_exited_count_bounds, lemma_total_steps_ahead_update, lemma_total_steps_ahead_zero,
    Activity, PoolModel, Step,
};
use crate::safety::{lemma_all_jobs_run_once, lemma_oldest_job_first, lemma_step_keeps_inv};

verus! {

/// While a job waits in the channel every worker can move: a listening
/// worker can take a message, a running one can finish, and none has exited.
pub proof fn lemma_waiting_job_gets_taken<J>(s: PoolModel<J>, worker: int)
    requires
        s.inv(),
        s.taken < s.submitted.len(),
        0 <= worker < s.workers.len(),
    ensures
        s.enabled(Step::Receive { worker }) || s.enabled(Step::Finish { worker }),
{
    lemma_oldest_job_first(s);
    lemma_exited_count_bounds(s.workers);
    assert(!(s.workers[worker] is Exited));
}

/// Once shutdown has begun the pool is never stuck: until it is joined, some
/// worker can finish its job or take a message, or the owner can join the
/// next worker.  The result is such a step.
pub proof fn lemma_draining_can_move<J>(s: PoolModel<J>) -> (step: Step<J>)
    requires
        s.inv(),
        s.state == PoolState::Draining,
    ensures
        s.enabled(step),
        step is Receive || step is Finish || step is Join,
{
    lemma_exited_count_bounds(s.workers);
    if exists|w: int| 0 <= w < s.workers.len() && (#[trigger] s.workers[w]) is Running {
        let worker = choose|w: int| 0 <= w < s.workers.len() && (#[trigger] s.workers[w]) is Running;
        Step::Finish { worker }
    } else if exists|w: int| 0 <= w < s.workers.len() && (#[trigger] s.workers[w]) is Listening {
        let worker = choose|w: int|
            0 <= w < s.workers.len() && (#[trigger] s.workers[w]) is Listening;
        assert(s.signals_left() > 0);
        Step::Receive { worker }
    } else {
        assert forall|w: int| 0 <= w < s.workers.len() implies (#[trigger] s.workers[w]) is Exited by {
            match s.workers[w] {
                Activity::Running { .. } => {},
                Activity::Listening => {},
                Activity::Exited => {},
            }
        }
        assert(s.workers[s.joined as int] is Exited);
        Step::Join
    }
}

/// Once shutdown has begun every step brings the end exactly one step
/// nearer.
pub proof fn lemma_step_nearer_end<J>(s: PoolModel<J>, step: Step<J>)
    requires
        s.inv(),
        s.state != PoolState::Running,
        s.enabled(step),
    ensures
        s.next(step).state != PoolState::Running,
        s.next(step).steps_to_end() + 1 == s.steps_to_end(),
{
    lemma_exited_count_bounds(s.workers);
    match step {
        Step::Submit { .. } => {},
        Step::BeginShutdown => {},
        Step::Join => {},
        Step::Finish { worker } => {
            lemma_total_steps_ahead_update(s.workers, worker, Activity::Listening);
        },
        Step::Receive { worker } => {
            if s.taken < s.submitted.len() {
                lemma_oldest_job_first(s);
                lemma_total_steps_ahead_update(
                    s.workers,
                    worker,
                    Activity::Running { ticket: s.taken },
                );
            } else {
                assert(s.queue[0] == crate::message::Message::<J>::Terminate);
                lemma_total_steps_ahead_update(s.workers, worker, Activity::Exited);
            }
        },
    }
}

/// Once shutdown has begun, no step is left exactly when the pool is joined.
pub proof fn lemma_end_is_joined<J>(s: PoolModel<J>)
    requires
        s.inv(),
        s.state != PoolState::Running,
    ensures
        s.steps_to_end() == 0 <==> s.state == PoolState::Joined,
{
    lemma_total_steps_ahead_zero(s.workers);
    if s.state == PoolState::Joined {
        lemma_all_jobs_run_once(s);
    }
}

/// Once shutdown has begun, however the steps fall, the pool comes to its
/// end: steps taken and steps left always add up to the steps that were left
/// at the start.  So no run is longer than that, and a run of that length
/// ends in the joined pool, every worker gone and every job run exactly
/// once.
pub proof fn lemma_draining_run_ends<J>(s: PoolModel<J>, steps: Seq<Step<J>>)
    requires
        s.inv(),
        s.state != PoolState::Running,
        s.admits(steps),
    ensures
        s.run(steps).inv(),
        s.run(steps).state != PoolState::Running,
        s.run(steps).steps_to_end() + steps.len() == s.steps_to_end(),
        steps.len() == s.steps_to_end() ==> {
            &&& s.run(steps).state == PoolState::Joined
            &&& forall|t: int|
                0 <= t < s.run(steps).submitted.len() ==> #[trigger] s.run(steps).runs[t] == 1
        },
    decreases steps.len(),
{
    if steps.len() > 0 {
        let before = s.run(steps.drop_last());
        lemma_draining_run_ends(s, steps.drop_last());
        lemma_step_keeps_inv(before, steps.last());
        lemma_step_nearer_end(before, steps.last());
    }
    let end = s.run(steps);
    lemma_end_is_joined(end);
    if end.state == PoolState::Joined {
        crate::safety::lemma_joined_after_all_exited(end);
    }
}

} // verus!
