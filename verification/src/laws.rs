//! What the protocol guarantees, proved for every state that a pool can
//! reach and so for every interleaving of submitters, workers and owner.

use crate::counting::{
    lemma_append_terminations, lemma_nothing_in_flight, lemma_only_jobs,
    lemma_only_terminations, lemma_retired_bounds, lemma_steps_owed_update,
};
use crate::message::{jobs_of, terminations_in};
use crate::model::{
    requests_shutdown, retired, submitted_while_open, Event, Outcome, PoolState, PoolView, Step,
};
use crate::preservation::{
    lemma_finish_inv, lemma_init_inv, lemma_join_inv, lemma_shutdown_inv, lemma_submit_inv,
    lemma_take_inv,
};
use crate::worker::WorkerState;
use vstd::prelude::*;

verus! {

/// Every event keeps the invariant.
pub proof fn lemma_apply_inv<J>(v: PoolView<J>, event: Event<J>)
    requires
        v.inv(),
    ensures
        v.apply(event).inv(),
{
    match event {
        Event::Submit(job) => lemma_submit_inv(v, job),
        Event::Shutdown => lemma_shutdown_inv(v),
        Event::Take(id) => lemma_take_inv(v, id),
        Event::Finish(id, outcome) => lemma_finish_inv(v, id, outcome),
        Event::Join(id) => lemma_join_inv(v, id),
    }
}

/// Whatever happens to a pool of at least one worker, in whatever order, the
/// invariant holds afterwards, and the number of workers is what it was made
/// with.
pub proof fn lemma_reachable_inv<J>(size: nat, events: Seq<Event<J>>)
    requires
        size >= 1,
    ensures
        PoolView::<J>::init(size).after(events).inv(),
        PoolView::<J>::init(size).after(events).size() == size,
    decreases events.len(),
{
    if events.len() == 0 {
        lemma_init_inv::<J>(size);
    } else {
        lemma_reachable_inv(size, events.drop_last());
        lemma_apply_inv(PoolView::<J>::init(size).after(events.drop_last()), events.last());
    }
}

/// Once a pool has stopped, every job that was ever accepted has been
/// executed, each exactly once: the finished jobs are the accepted jobs
/// with the same multiplicities, and so there are as many of them. Nothing
/// waits and nothing runs.
pub proof fn lemma_stopped_pool_ran_every_job<J>(v: PoolView<J>)
    requires
        v.inv(),
        v.state == PoolState::Stopped,
    ensures
        v.queue.len() == 0,
        forall|i: int| 0 <= i < v.running.len() ==> (#[trigger] v.running[i]) is None,
        v.dispatched == v.accepted,
        v.finished.to_multiset() == v.accepted.to_multiset(),
        v.finished.len() == v.accepted.len(),
{
    lemma_retired_bounds(v.workers);
    lemma_only_terminations(v.queue);
    lemma_nothing_in_flight(v.running);
    vstd::seq_lib::to_multiset_len(v.finished);
    vstd::seq_lib::to_multiset_len(v.accepted);
}

/// At every instant, the jobs handed to workers are the first of the
/// accepted jobs in the order of their submission, and no job has finished
/// more often than it was dispatched.
pub proof fn lemma_no_job_runs_twice<J>(v: PoolView<J>)
    requires
        v.inv(),
    ensures
        v.dispatched.is_prefix_of(v.accepted),
        v.finished.to_multiset().subset_of(v.dispatched.to_multiset()),
        v.finished.len() <= v.dispatched.len() <= v.accepted.len(),
{
    vstd::seq_lib::to_multiset_len(v.finished);
    vstd::seq_lib::to_multiset_len(v.dispatched);
}

/// The jobs that a pool has accepted are the jobs that were submitted to it
/// before shutdown was first requested, and the pool accepts exactly as long
/// as shutdown was never requested.
pub proof fn lemma_accepted_is_submitted_while_open<J>(size: nat, events: Seq<Event<J>>)
    requires
        size >= 1,
    ensures
        PoolView::<J>::init(size).after(events).accepted == submitted_while_open(events),
        PoolView::<J>::init(size).after(events).accepts() <==> !requests_shutdown(events),
    decreases events.len(),
{
    if events.len() > 0 {
        let earlier = events.drop_last();
        lemma_accepted_is_submitted_while_open(size, earlier);
        lemma_reachable_inv(size, earlier);
        if !(events.last() is Shutdown) && requests_shutdown(events) {
            let i = choose|i: int| 0 <= i < events.len() && (#[trigger] events[i]) is Shutdown;
            assert(earlier[i] is Shutdown);
        }
    }
}

/// Whatever the number of workers, and in whatever order submitters, workers
/// and owner take their steps: once the pool has stopped, the jobs that were
/// executed are the jobs that were submitted before shutdown was requested,
/// each exactly once, and so there are as many of the one as of the other.
pub proof fn lemma_every_submitted_job_runs_once<J>(size: nat, events: Seq<Event<J>>)
    requires
        size >= 1,
        PoolView::<J>::init(size).after(events).state == PoolState::Stopped,
    ensures
        PoolView::<J>::init(size).after(events).finished.to_multiset() == submitted_while_open(
            events,
        ).to_multiset(),
        PoolView::<J>::init(size).after(events).finished.len() == submitted_while_open(
            events,
        ).len(),
{
    lemma_reachable_inv(size, events);
    lemma_accepted_is_submitted_while_open(size, events);
    lemma_stopped_pool_ran_every_job(PoolView::<J>::init(size).after(events));
}

/// A pool with a single worker finishes jobs in the order of their
/// submission: at every instant the finished jobs are the first of the
/// accepted ones, and once the pool has stopped they are all of them.
pub proof fn lemma_single_worker_runs_in_order<J>(v: PoolView<J>)
    requires
        v.inv(),
        v.size() == 1,
    ensures
        v.finished.is_prefix_of(v.accepted),
        v.state == PoolState::Stopped ==> v.finished == v.accepted,
{
    if v.state == PoolState::Stopped {
        lemma_stopped_pool_ran_every_job(v);
    }
}

/// With a single worker, and in whatever order the steps are taken: once the
/// pool has stopped, the jobs were executed in the very order in which they
/// were submitted.
pub proof fn lemma_single_worker_runs_submissions_in_order<J>(events: Seq<Event<J>>)
    requires
        PoolView::<J>::init(1).after(events).state == PoolState::Stopped,
    ensures
        PoolView::<J>::init(1).after(events).finished == submitted_while_open(events),
{
    lemma_reachable_inv(1, events);
    lemma_accepted_is_submitted_while_open(1, events);
    lemma_single_worker_runs_in_order(PoolView::<J>::init(1).after(events));
}

/// Shutdown of a running pool puts exactly one termination order per worker
/// into the queue, behind all the jobs that wait, and leaves those jobs as
/// they are.
pub proof fn lemma_shutdown_sends_one_order_per_worker<J>(v: PoolView<J>)
    requires
        v.inv(),
        v.state == PoolState::Running,
    ensures
        v.shutdown().state == PoolState::ShuttingDown,
        terminations_in(v.shutdown().queue) == v.size(),
        jobs_of(v.shutdown().queue) == jobs_of(v.queue),
        v.shutdown().queue.len() == v.queue.len() + v.size(),
{
    lemma_only_jobs(v.queue);
    lemma_append_terminations(v.queue, v.workers.len());
}

/// After shutdown was requested, a submission is refused and changes
/// nothing, whatever happened before.
pub proof fn lemma_submit_after_shutdown_is_refused<J>(v: PoolView<J>, job: J)
    ensures
        !v.shutdown().accepts(),
        v.shutdown().submit(job) == v.shutdown(),
{
}

/// A pool that does not accept never accepts again: no event reopens it.
pub proof fn lemma_closed_pool_stays_closed<J>(v: PoolView<J>, event: Event<J>)
    requires
        !v.accepts(),
    ensures
        !v.apply(event).accepts(),
        v.apply(event).accepted == v.accepted,
{
}

/// Requesting shutdown twice is the same as requesting it once: the second
/// request sends no termination order and changes nothing.
pub proof fn lemma_shutdown_is_idempotent<J>(v: PoolView<J>)
    ensures
        v.shutdown().shutdown() == v.shutdown(),
{
}

/// Joining a worker twice is the same as joining it once: the second join
/// finds no handle and changes nothing.
pub proof fn lemma_join_is_idempotent<J>(v: PoolView<J>, id: int)
    ensures
        !v.join(id).can_join(id),
        v.join(id).join(id) == v.join(id),
{
}

/// A fault costs the pool no worker. A worker whose job faulted is idle
/// exactly as one whose job completed, and the next job that is submitted to
/// the running pool, with nothing waiting before it, goes to that worker as
/// soon as it asks.
pub proof fn lemma_fault_costs_no_worker<J>(v: PoolView<J>, id: int, job: J)
    requires
        v.inv(),
        v.can_finish(id),
    ensures
        v.finish(id, Outcome::Faulted).workers == v.finish(id, Outcome::Completed).workers,
        v.finish(id, Outcome::Faulted).workers[id].state == WorkerState::Idle,
        v.finish(id, Outcome::Faulted).size() == v.size(),
        v.accepts() && v.queue.len() == 0 ==> v.finish(id, Outcome::Faulted).submit(job).step(id)
            == Step::Run(job),
{
}

/// A worker that has retired takes nothing more: when it asks again it is
/// told to exit, and the pool does not change.
pub proof fn lemma_retired_worker_takes_nothing<J>(v: PoolView<J>, id: int)
    requires
        v.knows(id),
        v.workers[id].state == WorkerState::Terminated,
    ensures
        v.take(id) == v,
        v.step(id) == Step::<J>::Exit,
        forall|outcome: Outcome| #[trigger] v.finish(id, outcome) == v,
{
}

/// The pool stops only after every worker has retired and been joined, and
/// not before the last termination order was consumed.
pub proof fn lemma_stops_only_when_all_joined<J>(v: PoolView<J>)
    requires
        v.inv(),
    ensures
        v.state == PoolState::Stopped <==> v.all_joined(),
        v.state != PoolState::Running ==> terminations_in(v.queue) + retired(v.workers)
            == v.size(),
        v.state == PoolState::Running ==> terminations_in(v.queue) == 0,
{
    if v.state == PoolState::Running {
        lemma_only_jobs(v.queue);
    }
}

/// A stopped pool is at rest: every worker has retired and has been joined,
/// nothing waits, and no event changes anything. A worker that asks is told
/// to exit.
pub proof fn lemma_stopped_pool_is_at_rest<J>(v: PoolView<J>, event: Event<J>, id: int)
    requires
        v.inv(),
        v.state == PoolState::Stopped,
    ensures
        forall|i: int|
            0 <= i < v.workers.len() ==> (#[trigger] v.workers[i]).state
                == WorkerState::Terminated && !v.workers[i].joinable,
        v.queue.len() == 0,
        v.apply(event) == v,
        v.step(id) == Step::<J>::Exit,
{
    lemma_stopped_pool_ran_every_job(v);
}

/// While a pool is shutting down, it cannot be stuck: some worker can take a
/// message, report the end of its job, or be joined.
pub proof fn lemma_shutdown_can_proceed<J>(v: PoolView<J>)
    requires
        v.inv(),
        v.state == PoolState::ShuttingDown,
    ensures
        exists|id: int| v.can_take(id) || v.can_finish(id) || v.can_join(id),
{
    let id = choose|i: int| 0 <= i < v.workers.len() && (#[trigger] v.workers[i]).joinable;
    lemma_retired_bounds(v.workers);
    if v.workers[id].state == WorkerState::Idle {
        assert(v.can_take(id));
    } else if v.workers[id].state == WorkerState::Executing {
        assert(v.can_finish(id));
    } else {
        assert(v.can_join(id));
    }
}

/// Shutdown comes to an end. Once no job is accepted any more, no event adds
/// to the steps that are left, and every event that changes anything takes
/// at least one of them away: after at most `steps_left` effective steps
/// nothing remains to be done.
pub proof fn lemma_shutdown_runs_out_of_steps<J>(v: PoolView<J>, event: Event<J>)
    requires
        !v.accepts(),
    ensures
        v.apply(event).steps_left() <= v.steps_left(),
        v.apply(event) != v ==> v.apply(event).steps_left() < v.steps_left(),
{
    match event {
        Event::Submit(_) => {},
        Event::Shutdown => {},
        Event::Take(id) => {
            if v.can_take(id) {
                lemma_steps_owed_update(v.workers, id, v.workers[id].receive(v.queue[0]));
            }
        },
        Event::Finish(id, _) => {
            if v.can_finish(id) {
                lemma_steps_owed_update(v.workers, id, v.workers[id].finish());
            }
        },
        Event::Join(id) => {
            if v.can_join(id) {
                lemma_steps_owed_update(v.workers, id, v.workers[id].join());
            }
        },
    }
}

} // verus!
