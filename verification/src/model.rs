//! The pool as a mathematical state machine.
//!
//! A [`PoolView`] is the whole system at one instant: the lifecycle state, the
//! workers, the waiting messages, and a ledger of what happened to every job.
//! Each operation of the pool is one total transition function on this value;
//! an operation that is not allowed in a state leaves the state as it is.
//! [`PoolView::inv`] is the invariant that the initial state has and every
//! transition keeps.

use crate::message::{jobs_of, terminations_in, Message};
use crate::worker::{WorkerState, WorkerView};
use vstd::multiset::Multiset;
use vstd::prelude::*;

verus! {

/// The lifecycle of a pool.
#[derive(Clone, Copy, Debug, PartialEq, Eq, Structural)]
pub enum PoolState {
    /// Jobs are accepted and dispatched.
    Running,
    /// Shutdown has begun: no job is accepted any more, the termination
    /// orders are on their way, and some worker has not been joined yet.
    ShuttingDown,
    /// Every worker has retired and has been joined.
    Stopped,
}

/// How the execution of a job ended.
#[derive(Clone, Copy, Debug, PartialEq, Eq, Structural)]
pub enum Outcome {
    /// The job ran to its end.
    Completed,
    /// The job raised a fault, which was contained.
    Faulted,
}

/// What a worker that asks for its next message has to do.
pub enum Step<J> {
    /// Run this job to completion, then report that it has ended.
    Run(J),
    /// Leave the loop: the worker has retired.
    Exit,
    /// Nothing to take now: wait and ask again.
    Wait,
}

/// The whole pool at one instant.
pub struct PoolView<J> {
    /// The lifecycle state.
    pub state: PoolState,
    /// The workers, by id.
    pub workers: Seq<WorkerView>,
    /// The waiting messages, oldest first.
    pub queue: Seq<Message<J>>,
    /// Every job that was accepted, in the order of submission.
    pub accepted: Seq<J>,
    /// Every job that was handed to a worker, in the order of dispatch.
    pub dispatched: Seq<J>,
    /// For each worker, the job it is executing, if any.
    pub running: Seq<Option<J>>,
    /// Every job whose execution has ended, in the order in which they ended.
    pub finished: Seq<J>,
    /// How many of the finished jobs ended in a fault.
    pub faults: nat,
}

/// `count` termination orders in a row.
pub open spec fn terminations<J>(count: nat) -> Seq<Message<J>> {
    Seq::new(count, |i: int| Message::Terminate)
}

/// How many of the workers have retired.
pub open spec fn retired(workers: Seq<WorkerView>) -> nat
    decreases workers.len(),
{
    if workers.len() == 0 {
        0
    } else if workers.last().state == WorkerState::Terminated {
        retired(workers.drop_last()) + 1
    } else {
        retired(workers.drop_last())
    }
}

/// The steps that one worker still owes before it is done for good: one to
/// report the end of the job it is executing, and one to be joined.
pub open spec fn steps_owed_by(worker: WorkerView) -> nat {
    let report: nat = if worker.state == WorkerState::Executing {
        1
    } else {
        0
    };
    let join: nat = if worker.joinable {
        1
    } else {
        0
    };
    report + join
}

/// The steps that all the workers together still owe.
pub open spec fn steps_owed(workers: Seq<WorkerView>) -> nat
    decreases workers.len(),
{
    if workers.len() == 0 {
        0
    } else {
        steps_owed(workers.drop_last()) + steps_owed_by(workers.last())
    }
}

/// The jobs that are being executed right now, as a multiset.
pub open spec fn in_flight<J>(running: Seq<Option<J>>) -> Multiset<J>
    decreases running.len(),
{
    if running.len() == 0 {
        Multiset::empty()
    } else {
        match running.last() {
            Some(job) => in_flight(running.drop_last()).insert(job),
            None => in_flight(running.drop_last()),
        }
    }
}

/// The job in a slot as a sequence of length one, or the empty sequence.
pub open spec fn slot_jobs<J>(slot: Option<J>) -> Seq<J> {
    match slot {
        Some(job) => seq![job],
        None => Seq::empty(),
    }
}

impl<J> PoolView<J> {
    /// The pool right after construction with `size` workers.
    pub open spec fn init(size: nat) -> Self {
        PoolView {
            state: PoolState::Running,
            workers: Seq::new(size, |i: int| WorkerView::fresh(i as nat)),
            queue: Seq::empty(),
            accepted: Seq::empty(),
            dispatched: Seq::empty(),
            running: Seq::new(size, |i: int| None),
            finished: Seq::empty(),
            faults: 0,
        }
    }

    /// The number of workers.
    pub open spec fn size(self) -> nat {
        self.workers.len()
    }

    /// Whether `id` names a worker of this pool.
    pub open spec fn knows(self, id: int) -> bool {
        0 <= id < self.workers.len()
    }

    /// Whether every worker has been joined.
    pub open spec fn all_joined(self) -> bool {
        forall|i: int| 0 <= i < self.workers.len() ==> !(#[trigger] self.workers[i]).joinable
    }

    /// Whether a submission is accepted now.
    pub open spec fn accepts(self) -> bool {
        self.state == PoolState::Running
    }

    /// The pool after `job` is submitted: a running pool puts it at the back
    /// of the queue; any other pool does not change.
    pub open spec fn submit(self, job: J) -> Self {
        if self.accepts() {
            PoolView {
                queue: self.queue.push(Message::NewJob(job)),
                accepted: self.accepted.push(job),
                ..self
            }
        } else {
            self
        }
    }

    /// The pool after shutdown is requested: a running pool closes and
    /// enqueues one termination order per worker; any other pool does not
    /// change.
    pub open spec fn shutdown(self) -> Self {
        if self.state == PoolState::Running {
            PoolView {
                state: PoolState::ShuttingDown,
                queue: self.queue + terminations(self.workers.len()),
                ..self
            }
        } else {
            self
        }
    }

    /// Whether worker `id` takes a message when it asks for one: it exists,
    /// it is idle, and a message waits.
    pub open spec fn can_take(self, id: int) -> bool {
        self.knows(id) && self.workers[id].state == WorkerState::Idle && self.queue.len() > 0
    }

    /// What worker `id` is told when it asks for its next message.
    pub open spec fn step(self, id: int) -> Step<J> {
        if !self.knows(id) || self.workers[id].state == WorkerState::Terminated {
            Step::Exit
        } else if self.workers[id].state == WorkerState::Executing || self.queue.len() == 0 {
            Step::Wait
        } else {
            match self.queue[0] {
                Message::NewJob(job) => Step::Run(job),
                Message::Terminate => Step::Exit,
            }
        }
    }

    /// The pool after worker `id` asked for its next message. Where it can
    /// take one, the oldest message leaves the queue and goes to that worker
    /// alone; otherwise nothing changes.
    pub open spec fn take(self, id: int) -> Self {
        if self.can_take(id) {
            let message = self.queue[0];
            let taken = PoolView {
                workers: self.workers.update(id, self.workers[id].receive(message)),
                queue: self.queue.drop_first(),
                ..self
            };
            match message {
                Message::NewJob(job) => PoolView {
                    dispatched: self.dispatched.push(job),
                    running: self.running.update(id, Some(job)),
                    ..taken
                },
                Message::Terminate => taken,
            }
        } else {
            self
        }
    }

    /// Whether worker `id` exists and is executing a job.
    pub open spec fn can_finish(self, id: int) -> bool {
        self.knows(id) && self.workers[id].state == WorkerState::Executing
    }

    /// The pool after worker `id` reported that its job ended with `outcome`.
    /// An executing worker is idle again whatever the outcome, and its job is
    /// entered among the finished ones; otherwise nothing changes.
    pub open spec fn finish(self, id: int, outcome: Outcome) -> Self {
        if self.can_finish(id) {
            PoolView {
                workers: self.workers.update(id, self.workers[id].finish()),
                running: self.running.update(id, None),
                finished: self.finished + slot_jobs(self.running[id]),
                faults: if outcome == Outcome::Faulted {
                    self.faults + 1
                } else {
                    self.faults
                },
                ..self
            }
        } else {
            self
        }
    }

    /// Whether worker `id` exists, has retired and has not been joined.
    pub open spec fn can_join(self, id: int) -> bool {
        self.knows(id) && self.workers[id].can_join()
    }

    /// The pool after its owner tried to join worker `id`. Where the worker
    /// can be joined its handle is consumed, and the pool is stopped once no
    /// handle is left; otherwise nothing changes.
    pub open spec fn join(self, id: int) -> Self {
        if self.can_join(id) {
            let joined = PoolView {
                workers: self.workers.update(id, self.workers[id].join()),
                ..self
            };
            if joined.all_joined() {
                PoolView { state: PoolState::Stopped, ..joined }
            } else {
                joined
            }
        } else {
            self
        }
    }

    /// A bound on the steps that workers and owner can still take once no
    /// job is accepted any more: two for each waiting message, which has to
    /// be taken and, where it is a job, reported, and those that the workers
    /// owe.
    pub open spec fn steps_left(self) -> nat {
        2 * self.queue.len() + steps_owed(self.workers)
    }

    /// The invariant of the pool.
    pub open spec fn inv(self) -> bool {
        &&& self.shape_inv()
        &&& self.lifecycle_inv()
        &&& self.ledger_inv()
    }

    /// The number of workers is fixed and positive, worker `i` has id `i`,
    /// and a worker holds a job exactly while it is executing.
    pub open spec fn shape_inv(self) -> bool {
        &&& self.workers.len() >= 1
        &&& self.running.len() == self.workers.len()
        &&& forall|i: int|
            0 <= i < self.workers.len() ==> (#[trigger] self.workers[i]).id == i
        &&& forall|i: int|
            0 <= i < self.workers.len() ==> ((#[trigger] self.running[i]) is Some
                <==> self.workers[i].state == WorkerState::Executing)
    }

    /// How lifecycle, termination orders and workers hang together.
    pub open spec fn lifecycle_inv(self) -> bool {
        // While running, no termination order waits, no worker has retired,
        // and no worker has been joined.
        &&& self.state == PoolState::Running ==> {
            &&& forall|k: int| 0 <= k < self.queue.len() ==> (#[trigger] self.queue[k]) is NewJob
            &&& forall|i: int|
                0 <= i < self.workers.len() ==> {
                    &&& (#[trigger] self.workers[i]).state != WorkerState::Terminated
                    &&& self.workers[i].joinable
                }
        }
        // Afterwards there is exactly one termination order per worker: each
        // is either still waiting or was consumed by a worker that retired.
        &&& self.state != PoolState::Running ==> terminations_in(self.queue) + retired(
            self.workers,
        ) == self.workers.len()
        // Termination orders wait behind every job.
        &&& forall|j: int, k: int|
            0 <= j < k < self.queue.len() && (#[trigger] self.queue[j]) is Terminate ==> (
            #[trigger] self.queue[k]) is Terminate
        // Once a worker has retired, no job waits any more.
        &&& forall|i: int, k: int|
            0 <= i < self.workers.len() && 0 <= k < self.queue.len() && (
            #[trigger] self.workers[i]).state == WorkerState::Terminated ==> (
            #[trigger] self.queue[k]) is Terminate
        // Only a retired worker can have been joined.
        &&& forall|i: int|
            0 <= i < self.workers.len() && !(#[trigger] self.workers[i]).joinable
                ==> self.workers[i].state == WorkerState::Terminated
        // The pool is stopped exactly when every worker has been joined.
        &&& self.state == PoolState::Stopped <==> self.all_joined()
    }

    /// What the ledger records of the jobs.
    pub open spec fn ledger_inv(self) -> bool {
        // Jobs are dispatched in the order of their submission, and an
        // accepted job that was not dispatched yet is waiting in the queue.
        &&& self.accepted == self.dispatched + jobs_of(self.queue)
        // A dispatched job is being executed by one worker or has finished,
        // and never both.
        &&& self.dispatched.to_multiset() == self.finished.to_multiset().add(
            in_flight(self.running),
        )
        // A single worker finishes jobs in the order of their dispatch.
        &&& self.workers.len() == 1 ==> self.dispatched == self.finished + slot_jobs(
            self.running[0],
        )
        &&& self.faults <= self.finished.len()
    }
}

/// One step of the protocol, as a value: whatever a submitter, the owner or
/// a worker may do to the pool.
pub enum Event<J> {
    /// A caller submits a job.
    Submit(J),
    /// The owner requests shutdown.
    Shutdown,
    /// The worker with this id asks for its next message.
    Take(int),
    /// The worker with this id reports how its job ended.
    Finish(int, Outcome),
    /// The owner joins the worker with this id.
    Join(int),
}

impl<J> PoolView<J> {
    /// The pool after one event.
    pub open spec fn apply(self, event: Event<J>) -> Self {
        match event {
            Event::Submit(job) => self.submit(job),
            Event::Shutdown => self.shutdown(),
            Event::Take(id) => self.take(id),
            Event::Finish(id, outcome) => self.finish(id, outcome),
            Event::Join(id) => self.join(id),
        }
    }

    /// The pool after a sequence of events, applied from the first to the
    /// last.
    pub open spec fn after(self, events: Seq<Event<J>>) -> Self
        decreases events.len(),
    {
        if events.len() == 0 {
            self
        } else {
            self.after(events.drop_last()).apply(events.last())
        }
    }
}


/// Whether shutdown is requested somewhere in `events`.
pub open spec fn requests_shutdown<J>(events: Seq<Event<J>>) -> bool {
    exists|i: int| 0 <= i < events.len() && (#[trigger] events[i]) is Shutdown
}

/// The jobs that `events` submit before the first request for shutdown, in
/// the order of their submission.
pub open spec fn submitted_while_open<J>(events: Seq<Event<J>>) -> Seq<J>
    decreases events.len(),
{
    if events.len() == 0 {
        Seq::empty()
    } else {
        let earlier = events.drop_last();
        match events.last() {
            Event::Submit(job) => if requests_shutdown(earlier) {
                submitted_while_open(earlier)
            } else {
                submitted_while_open(earlier).push(job)
            },
            _ => submitted_while_open(earlier),
        }
    }
}

} // verus!
