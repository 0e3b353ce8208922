//! The pool itself: a fixed set of workers and the queue they share.

use crate::message::Message;
use crate::model::{slot_jobs, terminations, Outcome, PoolState, PoolView, Step};
use crate::preservation::{
    lemma_finish_inv, lemma_init_inv, lemma_join_inv, lemma_shutdown_inv, lemma_submit_inv,
    lemma_take_inv,
};
use crate::queue::Queue;
use crate::worker::{Reaction, Worker, WorkerState, WorkerView};
use vstd::prelude::*;

verus! {

/// A pool was requested with no workers.
#[derive(Clone, Copy, Debug, PartialEq, Eq, Structural)]
pub struct ConfigError;

/// A job was submitted to a pool that is shutting down or has stopped. The
/// job was not enqueued; it comes back to the caller.
#[derive(Debug)]
pub struct PoolClosedError<J> {
    /// The job that was turned away.
    pub job: J,
}

/// The record of what happened to every job. It exists for the proofs alone
/// and takes no space in the running program.
struct Ledger<J> {
    accepted: Seq<J>,
    dispatched: Seq<J>,
    running: Seq<Option<J>>,
    finished: Seq<J>,
    faults: nat,
}

/// A pool of a fixed number of workers that drain one shared queue of jobs.
pub struct ThreadPool<J> {
    workers: Vec<Worker>,
    queue: Queue<J>,
    state: PoolState,
    ledger: Ghost<Ledger<J>>,
}

impl<J> View for ThreadPool<J> {
    type V = PoolView<J>;

    closed spec fn view(&self) -> PoolView<J> {
        PoolView {
            state: self.state,
            workers: Seq::new(self.workers@.len(), |i: int| self.workers@[i]@),
            queue: self.queue@,
            accepted: self.ledger@.accepted,
            dispatched: self.ledger@.dispatched,
            running: self.ledger@.running,
            finished: self.ledger@.finished,
            faults: self.ledger@.faults,
        }
    }
}

impl<J> ThreadPool<J> {
    /// Whether the pool is in a state that its operations can have produced.
    pub open spec fn wf(&self) -> bool {
        self@.inv()
    }

    /// Creates a pool of `size` idle workers with an empty queue.
    ///
    /// Fails with [`ConfigError`] exactly when `size` is zero.
    pub fn new(size: usize) -> (created: Result<ThreadPool<J>, ConfigError>)
        ensures
            created is Err <==> size == 0,
            created matches Ok(pool) ==> pool.wf() && pool@ == PoolView::<J>::init(size as nat),
    {
        if size == 0 {
            return Err(ConfigError);
        }
        let mut workers: Vec<Worker> = Vec::with_capacity(size);
        let mut id: usize = 0;
        while id < size
            invariant
                id <= size,
                workers@.len() == id,
                forall|i: int| 0 <= i < id ==> (#[trigger] workers@[i])@ == WorkerView::fresh(i as nat),
            decreases size - id,
        {
            workers.push(Worker::new(id));
            id += 1;
        }
        let pool = ThreadPool {
            workers,
            queue: Queue::new(),
            state: PoolState::Running,
            ledger: Ghost(
                Ledger {
                    accepted: Seq::empty(),
                    dispatched: Seq::empty(),
                    running: Seq::new(size as nat, |i: int| None),
                    finished: Seq::empty(),
                    faults: 0,
                },
            ),
        };
        proof {
            lemma_init_inv::<J>(size as nat);
            assert(pool@.workers =~= PoolView::<J>::init(size as nat).workers);
        }
        Ok(pool)
    }

    /// The number of workers, which never changes.
    pub fn size(&self) -> (size: usize)
        ensures
            size == self@.workers.len(),
    {
        self.workers.len()
    }

    /// The lifecycle state.
    pub fn state(&self) -> (state: PoolState)
        ensures
            state == self@.state,
    {
        self.state
    }

    /// The number of messages that wait in the queue.
    pub fn pending(&self) -> (count: usize)
        ensures
            count == self@.queue.len(),
    {
        self.queue.len()
    }

    /// The worker with the given id, or `None` where the pool has no such
    /// worker.
    pub fn worker(&self, id: usize) -> (found: Option<Worker>)
        ensures
            found is Some <==> self@.knows(id as int),
            found matches Some(worker) ==> worker@ == self@.workers[id as int],
    {
        if id < self.workers.len() {
            Some(self.workers[id])
        } else {
            None
        }
    }

    /// Submits a job. A running pool puts it at the back of the queue and
    /// returns at once, without waiting for the job to run. A pool that is
    /// shutting down or has stopped enqueues nothing and hands the job back
    /// in a [`PoolClosedError`].
    pub fn execute(&mut self, job: J) -> (submitted: Result<(), PoolClosedError<J>>)
        ensures
            old(self).wf() ==> final(self).wf(),
            final(self)@ == old(self)@.submit(job),
            submitted is Ok <==> old(self)@.accepts(),
            submitted matches Err(refused) ==> refused.job == job,
    {
        match self.state {
            PoolState::Running => {
                proof {
                    if self.wf() {
                        lemma_submit_inv(self@, job);
                    }
                }
                self.queue.enqueue(Message::NewJob(job));
                self.ledger = Ghost(
                    Ledger { accepted: self.ledger@.accepted.push(job), ..self.ledger@ },
                );
                Ok(())
            },
            _ => Err(PoolClosedError { job }),
        }
    }

    /// Begins shutdown. On a running pool this closes the pool to further
    /// submissions and enqueues one termination order per worker, behind
    /// every job that already waits. On any other pool it does nothing.
    ///
    /// Returns the number of termination orders that this call enqueued.
    pub fn shutdown(&mut self) -> (sent: usize)
        ensures
            old(self).wf() ==> final(self).wf(),
            final(self)@ == old(self)@.shutdown(),
            sent == if old(self)@.state == PoolState::Running {
                old(self)@.workers.len()
            } else {
                0
            },
    {
        match self.state {
            PoolState::Running => {
                proof {
                    if self.wf() {
                        lemma_shutdown_inv(self@);
                    }
                }
                let count = self.workers.len();
                let mut sent: usize = 0;
                while sent < count
                    invariant
                        sent <= count,
                        count == self.workers@.len(),
                        self.workers == old(self).workers,
                        self.state == old(self).state,
                        self.ledger == old(self).ledger,
                        self.queue@ == old(self).queue@ + terminations::<J>(sent as nat),
                    decreases count - sent,
                {
                    self.queue.enqueue(Message::Terminate);
                    sent += 1;
                }
                self.state = PoolState::ShuttingDown;
                count
            },
            _ => 0,
        }
    }

    /// Worker `id` asks for its next message.
    ///
    /// An idle worker takes the oldest waiting message, which thereby goes
    /// to this worker and to no other. If it is a job, the worker is
    /// executing from now on and the job is handed out to be run; if it is a
    /// termination order, the worker retires. A worker that is executing, or
    /// that finds the queue empty, is told to wait, and a worker that has
    /// retired or that the pool does not know is told to exit; in these
    /// cases nothing changes.
    pub fn take(&mut self, id: usize) -> (step: Step<J>)
        ensures
            old(self).wf() ==> final(self).wf(),
            final(self)@ == old(self)@.take(id as int),
            step == old(self)@.step(id as int),
    {
        if id >= self.workers.len() {
            return Step::Exit;
        }
        proof {
            if self.wf() {
                lemma_take_inv(self@, id as int);
            }
        }
        let mut worker = self.workers[id];
        match worker.state() {
            WorkerState::Terminated => Step::Exit,
            WorkerState::Executing => Step::Wait,
            WorkerState::Idle => match self.queue.dequeue() {
                None => Step::Wait,
                Some(message) => match worker.receive(message) {
                    Reaction::Run(job) => {
                        self.workers.set(id, worker);
                        self.ledger = Ghost(
                            Ledger {
                                dispatched: self.ledger@.dispatched.push(job),
                                running: self.ledger@.running.update(id as int, Some(job)),
                                ..self.ledger@
                            },
                        );
                        assert(self@.workers =~= old(self)@.take(id as int).workers);
                        Step::Run(job)
                    },
                    Reaction::Exit => {
                        self.workers.set(id, worker);
                        assert(self@.workers =~= old(self)@.take(id as int).workers);
                        Step::Exit
                    },
                    Reaction::Refused(_) => vstd::pervasive::unreached(),
                },
            },
        }
    }

    /// Worker `id` reports that the job it was executing has ended with
    /// `outcome`.
    ///
    /// Whatever the outcome, the worker is idle again and can take its next
    /// message: a fault in a job costs the pool no worker. Returns whether
    /// worker `id` exists and was executing; where it was not, nothing
    /// changes.
    pub fn finish(&mut self, id: usize, outcome: Outcome) -> (ended: bool)
        ensures
            old(self).wf() ==> final(self).wf(),
            final(self)@ == old(self)@.finish(id as int, outcome),
            ended == old(self)@.can_finish(id as int),
    {
        if id >= self.workers.len() {
            return false;
        }
        proof {
            if self.wf() {
                lemma_finish_inv(self@, id as int, outcome);
            }
        }
        let mut worker = self.workers[id];
        if worker.finish() {
            self.workers.set(id, worker);
            self.ledger = Ghost(
                Ledger {
                    running: self.ledger@.running.update(id as int, None),
                    finished: self.ledger@.finished + slot_jobs(self.ledger@.running[id as int]),
                    faults: if outcome == Outcome::Faulted {
                        self.ledger@.faults + 1
                    } else {
                        self.ledger@.faults
                    },
                    ..self.ledger@
                },
            );
            assert(self@.workers =~= old(self)@.finish(id as int, outcome).workers);
            true
        } else {
            false
        }
    }

    /// Whether every worker has been joined.
    fn all_joined(&self) -> (all: bool)
        ensures
            all == self@.all_joined(),
    {
        let mut id: usize = 0;
        while id < self.workers.len()
            invariant
                id <= self.workers@.len(),
                forall|i: int| 0 <= i < id ==> !(#[trigger] self@.workers[i]).joinable,
            decreases self.workers@.len() - id,
        {
            if self.workers[id].is_joinable() {
                assert(self@.workers[id as int].joinable);
                return false;
            }
            id += 1;
        }
        true
    }

    /// The owner joins worker `id`.
    ///
    /// A worker that has retired and was not joined before gives up its
    /// execution handle, and once no handle is left the pool is stopped.
    /// Returns whether the handle was consumed by this call; where it was
    /// not (the worker is unknown, has not retired, or was joined before),
    /// nothing changes.
    pub fn join(&mut self, id: usize) -> (joined: bool)
        ensures
            old(self).wf() ==> final(self).wf(),
            final(self)@ == old(self)@.join(id as int),
            joined == old(self)@.can_join(id as int),
    {
        if id >= self.workers.len() {
            return false;
        }
        proof {
            if self.wf() {
                lemma_join_inv(self@, id as int);
            }
        }
        let mut worker = self.workers[id];
        if worker.join() {
            self.workers.set(id, worker);
            assert(self@.workers =~= old(self)@.join(id as int).workers);
            if self.all_joined() {
                self.state = PoolState::Stopped;
            }
            true
        } else {
            false
        }
    }
}

} // verus!
