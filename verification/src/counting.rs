//! Facts about the counting functions of the model: the jobs and termination
//! orders in a queue, the retired workers, and the jobs in flight.

use crate::message::{jobs_of, terminations_in, Message};
use crate::model::{in_flight, retired, steps_owed, steps_owed_by, terminations};
use crate::worker::{WorkerState, WorkerView};
use vstd::multiset::Multiset;
use vstd::prelude::*;

verus! {

/// A job appended to a queue is appended to its jobs and adds no
/// termination order.
pub proof fn lemma_push_job<J>(queue: Seq<Message<J>>, job: J)
    ensures
        jobs_of(queue.push(Message::NewJob(job))) == jobs_of(queue).push(job),
        terminations_in(queue.push(Message::NewJob(job))) == terminations_in(queue),
{
    assert(queue.push(Message::NewJob(job)).drop_last() =~= queue);
}

/// A termination order appended to a queue adds one to their number and
/// leaves the jobs as they are.
pub proof fn lemma_push_terminate<J>(queue: Seq<Message<J>>)
    ensures
        jobs_of(queue.push(Message::<J>::Terminate)) == jobs_of(queue),
        terminations_in(queue.push(Message::<J>::Terminate)) == terminations_in(queue) + 1,
{
    assert(queue.push(Message::<J>::Terminate).drop_last() =~= queue);
}

/// `count` termination orders appended to a queue add `count` to their
/// number and leave the jobs as they are.
pub proof fn lemma_append_terminations<J>(queue: Seq<Message<J>>, count: nat)
    ensures
        jobs_of(queue + terminations::<J>(count)) == jobs_of(queue),
        terminations_in(queue + terminations::<J>(count)) == terminations_in(queue) + count,
    decreases count,
{
    if count > 0 {
        let shorter = queue + terminations::<J>((count - 1) as nat);
        lemma_append_terminations(queue, (count - 1) as nat);
        lemma_push_terminate(shorter);
        assert(queue + terminations::<J>(count) =~= shorter.push(Message::<J>::Terminate));
    }
}

/// Taking the oldest message off a queue takes it off the front of the jobs,
/// or off the number of termination orders.
pub proof fn lemma_drop_first<J>(queue: Seq<Message<J>>)
    requires
        queue.len() > 0,
    ensures
        match queue[0] {
            Message::NewJob(job) => {
                &&& jobs_of(queue) == seq![job] + jobs_of(queue.drop_first())
                &&& terminations_in(queue) == terminations_in(queue.drop_first())
            },
            Message::Terminate => {
                &&& jobs_of(queue) == jobs_of(queue.drop_first())
                &&& terminations_in(queue) == terminations_in(queue.drop_first()) + 1
            },
        },
    decreases queue.len(),
{
    if queue.len() == 1 {
        assert(queue.drop_first() =~= Seq::<Message<J>>::empty());
        assert(queue.drop_last() =~= Seq::<Message<J>>::empty());
    } else {
        let front = queue.drop_last();
        lemma_drop_first(front);
        assert(front.drop_first() =~= queue.drop_first().drop_last());
    }
}

/// A queue of jobs alone holds no termination order.
pub proof fn lemma_only_jobs<J>(queue: Seq<Message<J>>)
    requires
        forall|k: int| 0 <= k < queue.len() ==> (#[trigger] queue[k]) is NewJob,
    ensures
        terminations_in(queue) == 0,
        jobs_of(queue).len() == queue.len(),
    decreases queue.len(),
{
    if queue.len() > 0 {
        lemma_only_jobs(queue.drop_last());
    }
}

/// A queue of termination orders alone holds no job.
pub proof fn lemma_only_terminations<J>(queue: Seq<Message<J>>)
    requires
        forall|k: int| 0 <= k < queue.len() ==> (#[trigger] queue[k]) is Terminate,
    ensures
        terminations_in(queue) == queue.len(),
        jobs_of(queue) == Seq::<J>::empty(),
    decreases queue.len(),
{
    if queue.len() > 0 {
        lemma_only_terminations(queue.drop_last());
    }
}

/// No more workers have retired than there are, all of them exactly when
/// each one has, and none exactly when no one has.
pub proof fn lemma_retired_bounds(workers: Seq<WorkerView>)
    ensures
        retired(workers) <= workers.len(),
        retired(workers) == workers.len() <==> forall|i: int|
            0 <= i < workers.len() ==> (#[trigger] workers[i]).state == WorkerState::Terminated,
        retired(workers) == 0 <==> forall|i: int|
            0 <= i < workers.len() ==> (#[trigger] workers[i]).state != WorkerState::Terminated,
    decreases workers.len(),
{
    if workers.len() > 0 {
        let front = workers.drop_last();
        lemma_retired_bounds(front);
        if retired(workers) == workers.len() {
            assert forall|i: int| 0 <= i < workers.len() implies (
            #[trigger] workers[i]).state == WorkerState::Terminated by {
                if i < front.len() {
                    assert(front[i] == workers[i]);
                }
            }
        }
        if retired(workers) == 0 {
            assert forall|i: int| 0 <= i < workers.len() implies (
            #[trigger] workers[i]).state != WorkerState::Terminated by {
                if i < front.len() {
                    assert(front[i] == workers[i]);
                }
            }
        }
    }
}

/// Replacing one worker changes the number of retired ones by that worker
/// alone.
pub proof fn lemma_retired_update(workers: Seq<WorkerView>, id: int, worker: WorkerView)
    requires
        0 <= id < workers.len(),
    ensures
        retired(workers.update(id, worker)) + (if workers[id].state == WorkerState::Terminated {
            1nat
        } else {
            0nat
        }) == retired(workers) + (if worker.state == WorkerState::Terminated {
            1nat
        } else {
            0nat
        }),
    decreases workers.len(),
{
    let updated = workers.update(id, worker);
    if id == workers.len() - 1 {
        assert(updated.drop_last() =~= workers.drop_last());
    } else {
        lemma_retired_update(workers.drop_last(), id, worker);
        assert(updated.drop_last() =~= workers.drop_last().update(id, worker));
    }
}

/// Replacing one worker changes the steps owed by that worker's alone.
pub proof fn lemma_steps_owed_update(workers: Seq<WorkerView>, id: int, worker: WorkerView)
    requires
        0 <= id < workers.len(),
    ensures
        steps_owed(workers.update(id, worker)) + steps_owed_by(workers[id]) == steps_owed(workers)
            + steps_owed_by(worker),
    decreases workers.len(),
{
    let updated = workers.update(id, worker);
    if id == workers.len() - 1 {
        assert(updated.drop_last() =~= workers.drop_last());
    } else {
        lemma_steps_owed_update(workers.drop_last(), id, worker);
        assert(updated.drop_last() =~= workers.drop_last().update(id, worker));
    }
}

/// Where no worker holds a job, none is in flight.
pub proof fn lemma_nothing_in_flight<J>(running: Seq<Option<J>>)
    requires
        forall|i: int| 0 <= i < running.len() ==> (#[trigger] running[i]) is None,
    ensures
        in_flight(running) == Multiset::<J>::empty(),
    decreases running.len(),
{
    if running.len() > 0 {
        lemma_nothing_in_flight(running.drop_last());
    }
}

/// A job put into an empty slot joins the jobs in flight.
pub proof fn lemma_in_flight_start<J>(running: Seq<Option<J>>, id: int, job: J)
    requires
        0 <= id < running.len(),
        running[id] is None,
    ensures
        in_flight(running.update(id, Some(job))) == in_flight(running).insert(job),
    decreases running.len(),
{
    let updated = running.update(id, Some(job));
    if id == running.len() - 1 {
        assert(updated.drop_last() =~= running.drop_last());
    } else {
        lemma_in_flight_start(running.drop_last(), id, job);
        assert(updated.drop_last() =~= running.drop_last().update(id, Some(job)));
    }
}

/// A job taken out of its slot leaves the jobs in flight.
pub proof fn lemma_in_flight_end<J>(running: Seq<Option<J>>, id: int)
    requires
        0 <= id < running.len(),
        running[id] is Some,
    ensures
        in_flight(running) == in_flight(running.update(id, None)).insert(running[id]->0),
    decreases running.len(),
{
    let updated = running.update(id, None);
    if id == running.len() - 1 {
        assert(updated.drop_last() =~= running.drop_last());
    } else {
        lemma_in_flight_end(running.drop_last(), id);
        assert(updated.drop_last() =~= running.drop_last().update(id, None));
    }
}

} // verus!
