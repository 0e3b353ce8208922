//! A fixed-size worker pool, modelled as a deterministic state machine.
//!
//! The pool owns a first-in first-out queue of messages and a fixed set of
//! workers. Every operation is one atomic step of the protocol: a caller
//! submits a job, a worker takes its next message, a worker reports that its
//! job has ended, the owner begins shutdown, the owner joins a worker. An
//! embedding that runs real threads serialises these steps behind one lock;
//! whatever order the steps arrive in, the guarantees proved here hold.
//!
//! - [`message`], [`queue`] and [`worker`] are the parts.
//! - [`pool`] is the executable pool.
//! - [`model`] is the pool as a mathematical state machine, over which the
//!   contracts of [`pool`] are stated.
//! - [`preservation`] shows that every step keeps the invariant, and
//!   [`laws`] states what follows for every reachable state; [`counting`]
//!   holds the facts about sequences that both rest on.
//! - [`request`] is what a connection handler computes for one request.

pub mod counting;
pub mod laws;
pub mod message;
pub mod model;
pub mod pool;
pub mod preservation;
pub mod queue;
pub mod request;
pub mod worker;

pub use message::Message;
pub use model::{Outcome, PoolState, Step};
pub use pool::{ConfigError, PoolClosedError, ThreadPool};
pub use queue::Queue;
pub use worker::{Reaction, Worker, WorkerState};
