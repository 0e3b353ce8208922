//! The invariant of the pool holds initially and is kept by every
//! transition.

use crate::counting::{
    lemma_append_terminations, lemma_drop_first, lemma_in_flight_end, lemma_in_flight_start,
    lemma_nothing_in_flight, lemma_only_jobs, lemma_push_job, lemma_retired_bounds,
    lemma_retired_update,
};
use crate::message::{jobs_of, Message};
use crate::model::{in_flight, Outcome, PoolState, PoolView};
use vstd::prelude::*;

verus! {

/// A new pool with at least one worker satisfies the invariant.
pub proof fn lemma_init_inv<J>(size: nat)
    requires
        size >= 1,
    ensures
        PoolView::<J>::init(size).inv(),
{
    let v = PoolView::<J>::init(size);
    lemma_nothing_in_flight(v.running);
    assert(v.finished.to_multiset().add(in_flight(v.running)) =~= v.dispatched.to_multiset());
    assert(v.workers[0].joinable);
}

/// Submitting a job keeps the invariant.
pub proof fn lemma_submit_inv<J>(v: PoolView<J>, job: J)
    requires
        v.inv(),
    ensures
        v.submit(job).inv(),
{
    if v.accepts() {
        lemma_push_job(v.queue, job);
    }
}

/// Requesting shutdown keeps the invariant.
pub proof fn lemma_shutdown_inv<J>(v: PoolView<J>)
    requires
        v.inv(),
    ensures
        v.shutdown().inv(),
{
    if v.state == PoolState::Running {
        lemma_append_terminations(v.queue, v.workers.len());
        lemma_only_jobs(v.queue);
        lemma_retired_bounds(v.workers);
    }
}

/// A worker asking for its next message keeps the invariant.
pub proof fn lemma_take_inv<J>(v: PoolView<J>, id: int)
    requires
        v.inv(),
    ensures
        v.take(id).inv(),
{
    let w = v.take(id);
    if v.can_take(id) {
        let message = v.queue[0];
        lemma_drop_first(v.queue);
        lemma_retired_update(v.workers, id, v.workers[id].receive(message));
        assert(w.all_joined() == v.all_joined()) by {
            if w.all_joined() {
                assert(!w.workers[id].joinable);
            }
        }
        match message {
            Message::NewJob(job) => {
                assert(w.dispatched + jobs_of(w.queue) =~= w.accepted);
                lemma_in_flight_start(v.running, id, job);
                assert(w.dispatched.to_multiset() =~= v.dispatched.to_multiset().insert(job)) by {
                    vstd::seq_lib::to_multiset_build(v.dispatched, job);
                }
                assert(w.finished.to_multiset().add(in_flight(w.running))
                    =~= w.dispatched.to_multiset());
            },
            Message::Terminate => {},
        }
    }
}

/// A worker reporting the end of its job keeps the invariant.
pub proof fn lemma_finish_inv<J>(v: PoolView<J>, id: int, outcome: Outcome)
    requires
        v.inv(),
    ensures
        v.finish(id, outcome).inv(),
{
    let w = v.finish(id, outcome);
    if v.can_finish(id) {
        let job = v.running[id]->0;
        lemma_retired_update(v.workers, id, v.workers[id].finish());
        lemma_in_flight_end(v.running, id);
        assert(w.all_joined() == v.all_joined()) by {
            if w.all_joined() {
                assert(!w.workers[id].joinable);
            }
        }
        assert(w.finished =~= v.finished.push(job));
        assert(w.finished.to_multiset() =~= v.finished.to_multiset().insert(job)) by {
            vstd::seq_lib::to_multiset_build(v.finished, job);
        }
        assert(w.finished.to_multiset().add(in_flight(w.running))
            =~= w.dispatched.to_multiset());
    }
}

/// Joining a worker keeps the invariant.
pub proof fn lemma_join_inv<J>(v: PoolView<J>, id: int)
    requires
        v.inv(),
    ensures
        v.join(id).inv(),
{
    if v.can_join(id) {
        lemma_retired_update(v.workers, id, v.workers[id].join());
    }
}

} // verus!
