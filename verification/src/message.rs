//! The two kinds of message that travel through the shared queue.

use vstd::prelude::*;

verus! {

/// One entry of the shared queue: a job to run, or the order to retire.
pub enum Message<J> {
    /// A unit of work for whichever worker dequeues it.
    NewJob(J),
    /// Tells the worker that dequeues it to leave its loop.
    Terminate,
}

/// The jobs carried by a sequence of messages, in order, with the
/// termination orders left out.
pub open spec fn jobs_of<J>(messages: Seq<Message<J>>) -> Seq<J>
    decreases messages.len(),
{
    if messages.len() == 0 {
        Seq::empty()
    } else {
        match messages.last() {
            Message::NewJob(job) => jobs_of(messages.drop_last()).push(job),
            Message::Terminate => jobs_of(messages.drop_last()),
        }
    }
}

/// How many termination orders a sequence of messages holds.
pub open spec fn terminations_in<J>(messages: Seq<Message<J>>) -> nat
    decreases messages.len(),
{
    if messages.len() == 0 {
        0
    } else {
        match messages.last() {
            Message::NewJob(_) => terminations_in(messages.drop_last()),
            Message::Terminate => terminations_in(messages.drop_last()) + 1,
        }
    }
}

} // verus!
