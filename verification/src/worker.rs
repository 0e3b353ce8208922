//! One worker of the pool: a small state machine bound to an id.

use crate::message::Message;
use vstd::prelude::*;

verus! {

/// Where a worker stands in its loop.
#[derive(Clone, Copy, Debug, PartialEq, Eq, Structural)]
pub enum WorkerState {
    /// Waiting for its next message.
    Idle,
    /// Running the job it dequeued last.
    Executing,
    /// Has consumed a termination order and left its loop for good.
    Terminated,
}

/// What a worker is, as a plain value.
pub struct WorkerView {
    /// The position of the worker in its pool.
    pub id: nat,
    /// Where the worker stands in its loop.
    pub state: WorkerState,
    /// Whether the owner still holds the worker's execution handle, that is,
    /// whether the worker has not been joined yet.
    pub joinable: bool,
}

/// What a worker does with a message that is offered to it.
pub enum Reaction<J> {
    /// The message was a job: the worker is now executing it, and the caller
    /// runs it to completion.
    Run(J),
    /// The message was a termination order: the worker has retired.
    Exit,
    /// The worker was not idle. It keeps its state and hands the message back.
    Refused(Message<J>),
}

/// A worker: its id, its place in the loop, and whether it can still be
/// joined.
#[derive(Clone, Copy, Debug)]
pub struct Worker {
    id: usize,
    state: WorkerState,
    joinable: bool,
}

impl View for Worker {
    type V = WorkerView;

    closed spec fn view(&self) -> WorkerView {
        WorkerView { id: self.id as nat, state: self.state, joinable: self.joinable }
    }
}

impl WorkerView {
    /// The worker as it is right after construction.
    pub open spec fn fresh(id: nat) -> WorkerView {
        WorkerView { id, state: WorkerState::Idle, joinable: true }
    }

    /// The worker after `message` is offered to it: an idle worker starts
    /// executing on a job and retires on a termination order; a worker that
    /// is not idle does not change.
    pub open spec fn receive<J>(self, message: Message<J>) -> WorkerView {
        if self.state == WorkerState::Idle {
            match message {
                Message::NewJob(_) => WorkerView { state: WorkerState::Executing, ..self },
                Message::Terminate => WorkerView { state: WorkerState::Terminated, ..self },
            }
        } else {
            self
        }
    }

    /// How the worker answers when `message` is offered to it.
    pub open spec fn reaction<J>(self, message: Message<J>) -> Reaction<J> {
        if self.state == WorkerState::Idle {
            match message {
                Message::NewJob(job) => Reaction::Run(job),
                Message::Terminate => Reaction::Exit,
            }
        } else {
            Reaction::Refused(message)
        }
    }

    /// The worker after its job has ended: an executing worker is idle
    /// again; any other worker does not change.
    pub open spec fn finish(self) -> WorkerView {
        if self.state == WorkerState::Executing {
            WorkerView { state: WorkerState::Idle, ..self }
        } else {
            self
        }
    }

    /// Whether the worker's handle can be joined now: it has retired and has
    /// not been joined before.
    pub open spec fn can_join(self) -> bool {
        self.state == WorkerState::Terminated && self.joinable
    }

    /// The worker after its owner tried to join it: the handle is consumed
    /// where it could be joined; otherwise nothing changes.
    pub open spec fn join(self) -> WorkerView {
        if self.can_join() {
            WorkerView { joinable: false, ..self }
        } else {
            self
        }
    }
}

impl Worker {
    /// A new idle worker with the given id, not joined yet.
    pub fn new(id: usize) -> (worker: Worker)
        ensures
            worker@ == WorkerView::fresh(id as nat),
    {
        Worker { id, state: WorkerState::Idle, joinable: true }
    }

    /// The id this worker was made with.
    pub fn id(&self) -> (id: usize)
        ensures
            id == self@.id,
    {
        self.id
    }

    /// Where the worker stands in its loop.
    pub fn state(&self) -> (state: WorkerState)
        ensures
            state == self@.state,
    {
        self.state
    }

    /// Whether the worker has not been joined yet.
    pub fn is_joinable(&self) -> (b: bool)
        ensures
            b == self@.joinable,
    {
        self.joinable
    }

    /// Offers one dequeued message to the worker.
    ///
    /// An idle worker takes it: on a job it starts executing and hands the
    /// job out to be run; on a termination order it retires. A worker that is
    /// executing or has retired consumes nothing and hands the message back.
    pub fn receive<J>(&mut self, message: Message<J>) -> (reaction: Reaction<J>)
        ensures
            final(self)@ == old(self)@.receive(message),
            reaction == old(self)@.reaction(message),
    {
        match self.state {
            WorkerState::Idle => match message {
                Message::NewJob(job) => {
                    self.state = WorkerState::Executing;
                    Reaction::Run(job)
                },
                Message::Terminate => {
                    self.state = WorkerState::Terminated;
                    Reaction::Exit
                },
            },
            _ => Reaction::Refused(message),
        }
    }

    /// Records that the job the worker was executing has ended, whether it
    /// returned or faulted. Returns whether the worker was executing; if it
    /// was, it is idle again, and otherwise it does not change.
    pub fn finish(&mut self) -> (ended: bool)
        ensures
            final(self)@ == old(self)@.finish(),
            ended == (old(self)@.state == WorkerState::Executing),
    {
        match self.state {
            WorkerState::Executing => {
                self.state = WorkerState::Idle;
                true
            },
            _ => false,
        }
    }

    /// Consumes the worker's execution handle. Returns whether it was
    /// consumed by this call, which is so exactly when the worker has retired
    /// and had not been joined; a repeated join changes nothing.
    pub fn join(&mut self) -> (joined: bool)
        ensures
            final(self)@ == old(self)@.join(),
            joined == old(self)@.can_join(),
    {
        match self.state {
            WorkerState::Terminated => {
                let joined = self.joinable;
                self.joinable = false;
                joined
            },
            _ => false,
        }
    }
}

} // verus!
