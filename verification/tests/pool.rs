use std::cell::{Cell, RefCell};
use std::rc::Rc;

use webserver::model::{Outcome, PoolState, Step};
use webserver::pool::{ConfigError, ThreadPool};
use webserver::worker::WorkerState;

type Job = Box<dyn FnOnce()>;

/// Lets every worker take and run jobs in turn until none of them makes
/// progress, and returns how many jobs were run.
fn run_until_quiet(pool: &mut ThreadPool<Job>) -> usize {
    let mut executed = 0;
    loop {
        let mut progress = false;
        for id in 0..pool.size() {
            let before = pool.worker(id).unwrap().state();
            match pool.take(id) {
                Step::Run(job) => {
                    job();
                    assert!(pool.finish(id, Outcome::Completed));
                    executed += 1;
                    progress = true;
                }
                Step::Exit => {
                    if before != WorkerState::Terminated {
                        progress = true;
                    }
                }
                Step::Wait => {}
            }
        }
        if !progress {
            return executed;
        }
    }
}

/// Joins every worker and returns how many handles were consumed.
fn join_all(pool: &mut ThreadPool<Job>) -> usize {
    let mut joined = 0;
    for id in 0..pool.size() {
        if pool.join(id) {
            joined += 1;
        }
    }
    joined
}

fn counting_job(counter: &Rc<Cell<usize>>) -> Job {
    let counter = Rc::clone(counter);
    Box::new(move || counter.set(counter.get() + 1))
}

#[test]
fn new_pool_is_running_with_idle_workers() {
    let pool: ThreadPool<Job> = ThreadPool::new(4).unwrap();
    assert_eq!(pool.size(), 4);
    assert_eq!(pool.state(), PoolState::Running);
    assert_eq!(pool.pending(), 0);
    for id in 0..4 {
        let worker = pool.worker(id).unwrap();
        assert_eq!(worker.id(), id);
        assert_eq!(worker.state(), WorkerState::Idle);
        assert!(worker.is_joinable());
    }
    assert!(pool.worker(4).is_none());
}

#[test]
fn zero_workers_is_a_config_error() {
    let created: Result<ThreadPool<Job>, ConfigError> = ThreadPool::new(0);
    assert_eq!(created.err(), Some(ConfigError));
}

#[test]
fn one_worker_is_enough() {
    let created: Result<ThreadPool<Job>, ConfigError> = ThreadPool::new(1);
    assert!(created.is_ok());
    assert_eq!(created.unwrap().size(), 1);
}

#[test]
fn four_workers_run_ten_jobs_once_each() {
    let counter = Rc::new(Cell::new(0));
    let mut pool: ThreadPool<Job> = ThreadPool::new(4).unwrap();
    for _ in 0..10 {
        assert!(pool.execute(counting_job(&counter)).is_ok());
    }
    assert_eq!(pool.pending(), 10);
    assert_eq!(pool.shutdown(), 4);
    assert_eq!(pool.pending(), 14);
    assert_eq!(run_until_quiet(&mut pool), 10);
    assert_eq!(join_all(&mut pool), 4);
    assert_eq!(pool.state(), PoolState::Stopped);
    assert_eq!(counter.get(), 10);
    assert_eq!(pool.pending(), 0);
}

#[test]
fn execute_does_not_run_the_job() {
    let counter = Rc::new(Cell::new(0));
    let mut pool: ThreadPool<Job> = ThreadPool::new(2).unwrap();
    assert!(pool.execute(counting_job(&counter)).is_ok());
    assert_eq!(counter.get(), 0);
    assert_eq!(pool.pending(), 1);
    assert_eq!(pool.state(), PoolState::Running);
}

#[test]
fn execute_after_shutdown_hands_the_job_back() {
    let counter = Rc::new(Cell::new(0));
    let mut pool: ThreadPool<Job> = ThreadPool::new(2).unwrap();
    pool.shutdown();
    assert_eq!(pool.state(), PoolState::ShuttingDown);
    let refused = pool.execute(counting_job(&counter));
    assert!(refused.is_err());
    assert_eq!(pool.pending(), 2);
    let job = refused.err().unwrap().job;
    job();
    assert_eq!(counter.get(), 1);
    run_until_quiet(&mut pool);
    join_all(&mut pool);
    assert_eq!(pool.state(), PoolState::Stopped);
    assert!(pool.execute(counting_job(&counter)).is_err());
    assert_eq!(pool.pending(), 0);
    assert_eq!(counter.get(), 1);
}

#[test]
fn shutdown_twice_sends_no_second_round() {
    let mut pool: ThreadPool<Job> = ThreadPool::new(3).unwrap();
    assert_eq!(pool.shutdown(), 3);
    assert_eq!(pool.pending(), 3);
    assert_eq!(pool.shutdown(), 0);
    assert_eq!(pool.pending(), 3);
    assert_eq!(pool.state(), PoolState::ShuttingDown);
    assert_eq!(run_until_quiet(&mut pool), 0);
    assert_eq!(join_all(&mut pool), 3);
    assert_eq!(pool.state(), PoolState::Stopped);
    assert_eq!(pool.shutdown(), 0);
    assert_eq!(pool.pending(), 0);
    assert_eq!(pool.state(), PoolState::Stopped);
}

#[test]
fn join_twice_consumes_the_handle_once() {
    let mut pool: ThreadPool<Job> = ThreadPool::new(2).unwrap();
    pool.shutdown();
    run_until_quiet(&mut pool);
    assert!(pool.join(0));
    assert!(!pool.worker(0).unwrap().is_joinable());
    assert_eq!(pool.state(), PoolState::ShuttingDown);
    assert!(!pool.join(0));
    assert_eq!(pool.state(), PoolState::ShuttingDown);
    assert!(pool.join(1));
    assert_eq!(pool.state(), PoolState::Stopped);
    assert!(!pool.join(1));
    assert_eq!(join_all(&mut pool), 0);
}

#[test]
fn join_waits_for_the_worker_to_retire() {
    let mut pool: ThreadPool<Job> = ThreadPool::new(1).unwrap();
    assert!(!pool.join(0));
    pool.shutdown();
    assert!(!pool.join(0));
    assert!(pool.worker(0).unwrap().is_joinable());
    assert!(matches!(pool.take(0), Step::Exit));
    assert!(pool.join(0));
    assert!(!pool.join(7));
}

#[test]
fn single_worker_runs_jobs_in_submission_order() {
    let log: Rc<RefCell<Vec<char>>> = Rc::new(RefCell::new(Vec::new()));
    let mut pool: ThreadPool<Job> = ThreadPool::new(1).unwrap();
    let a = Rc::clone(&log);
    let b = Rc::clone(&log);
    assert!(pool.execute(Box::new(move || a.borrow_mut().push('A'))).is_ok());
    assert!(pool.execute(Box::new(move || b.borrow_mut().push('B'))).is_ok());
    pool.shutdown();
    assert_eq!(run_until_quiet(&mut pool), 2);
    assert_eq!(join_all(&mut pool), 1);
    assert_eq!(*log.borrow(), vec!['A', 'B']);
}

#[test]
fn jobs_are_dispatched_oldest_first() {
    let mut pool: ThreadPool<u32> = ThreadPool::new(3).unwrap();
    for job in [10, 20, 30] {
        assert!(pool.execute(job).is_ok());
    }
    assert!(matches!(pool.take(2), Step::Run(10)));
    assert!(matches!(pool.take(0), Step::Run(20)));
    assert!(matches!(pool.take(1), Step::Run(30)));
    assert!(matches!(pool.take(1), Step::Wait));
    assert_eq!(pool.pending(), 0);
}

#[test]
fn eight_callers_of_fifty_jobs_give_four_hundred_runs() {
    let runs: Rc<RefCell<Vec<u32>>> = Rc::new(RefCell::new(vec![0; 400]));
    let mut pool: ThreadPool<Job> = ThreadPool::new(4).unwrap();
    let mut executed = 0;
    let mut in_flight: Vec<(usize, Job)> = Vec::new();
    for round in 0..50 {
        for caller in 0..8 {
            let runs = Rc::clone(&runs);
            let index = caller * 50 + round;
            assert!(pool.execute(Box::new(move || runs.borrow_mut()[index] += 1)).is_ok());
            // Workers take jobs while the callers are still submitting, and
            // several jobs are in flight at once.
            let id = (round + caller) % 4;
            if let Step::Run(job) = pool.take(id) {
                in_flight.push((id, job));
            }
            if in_flight.len() == 3 {
                for (id, job) in in_flight.drain(..) {
                    job();
                    assert!(pool.finish(id, Outcome::Completed));
                    executed += 1;
                }
            }
        }
    }
    for (id, job) in in_flight.drain(..) {
        job();
        assert!(pool.finish(id, Outcome::Completed));
        executed += 1;
    }
    assert_eq!(pool.shutdown(), 4);
    executed += run_until_quiet(&mut pool);
    assert_eq!(join_all(&mut pool), 4);
    assert_eq!(pool.state(), PoolState::Stopped);
    assert_eq!(executed, 400);
    assert_eq!(*runs.borrow(), vec![1; 400]);
}

#[test]
fn a_faulting_job_leaves_its_worker_available() {
    let counter = Rc::new(Cell::new(0));
    let mut pool: ThreadPool<Job> = ThreadPool::new(1).unwrap();
    assert!(pool.execute(Box::new(|| ())).is_ok());
    let job = match pool.take(0) {
        Step::Run(job) => job,
        _ => panic!("the idle worker takes the waiting job"),
    };
    drop(job);
    assert_eq!(pool.worker(0).unwrap().state(), WorkerState::Executing);
    assert!(pool.finish(0, Outcome::Faulted));
    assert_eq!(pool.worker(0).unwrap().state(), WorkerState::Idle);
    assert_eq!(pool.size(), 1);
    assert!(pool.execute(counting_job(&counter)).is_ok());
    assert_eq!(run_until_quiet(&mut pool), 1);
    assert_eq!(counter.get(), 1);
    assert_eq!(pool.state(), PoolState::Running);
}

#[test]
fn a_fault_on_one_worker_does_not_touch_another() {
    let mut pool: ThreadPool<u32> = ThreadPool::new(2).unwrap();
    assert!(pool.execute(1).is_ok());
    assert!(pool.execute(2).is_ok());
    assert!(matches!(pool.take(0), Step::Run(1)));
    assert!(matches!(pool.take(1), Step::Run(2)));
    assert!(pool.finish(0, Outcome::Faulted));
    assert_eq!(pool.worker(0).unwrap().state(), WorkerState::Idle);
    assert_eq!(pool.worker(1).unwrap().state(), WorkerState::Executing);
    assert!(pool.finish(1, Outcome::Completed));
    assert!(pool.execute(3).is_ok());
    assert!(matches!(pool.take(0), Step::Run(3)));
}

#[test]
fn a_stopped_pool_is_at_rest() {
    let mut pool: ThreadPool<Job> = ThreadPool::new(3).unwrap();
    assert!(pool.execute(Box::new(|| ())).is_ok());
    pool.shutdown();
    run_until_quiet(&mut pool);
    join_all(&mut pool);
    assert_eq!(pool.state(), PoolState::Stopped);
    for id in 0..3 {
        let worker = pool.worker(id).unwrap();
        assert_eq!(worker.state(), WorkerState::Terminated);
        assert!(!worker.is_joinable());
        assert!(matches!(pool.take(id), Step::Exit));
        assert!(!pool.finish(id, Outcome::Completed));
        assert!(!pool.join(id));
    }
    assert_eq!(pool.pending(), 0);
    assert_eq!(pool.state(), PoolState::Stopped);
}

#[test]
fn waiting_jobs_run_before_the_workers_retire() {
    let mut pool: ThreadPool<u32> = ThreadPool::new(2).unwrap();
    assert!(pool.execute(1).is_ok());
    assert!(pool.execute(2).is_ok());
    assert!(pool.execute(3).is_ok());
    assert_eq!(pool.shutdown(), 2);
    assert!(matches!(pool.take(0), Step::Run(1)));
    assert!(matches!(pool.take(1), Step::Run(2)));
    assert!(pool.finish(1, Outcome::Completed));
    assert!(matches!(pool.take(1), Step::Run(3)));
    assert!(pool.finish(0, Outcome::Completed));
    assert!(matches!(pool.take(0), Step::Exit));
    assert_eq!(pool.worker(0).unwrap().state(), WorkerState::Terminated);
    // The job that worker 1 holds runs to its end before that worker sees
    // its termination order.
    assert!(matches!(pool.take(1), Step::Wait));
    assert_eq!(pool.pending(), 1);
    assert!(pool.finish(1, Outcome::Completed));
    assert!(matches!(pool.take(1), Step::Exit));
    assert_eq!(pool.pending(), 0);
}

#[test]
fn a_worker_takes_one_message_at_a_time() {
    let mut pool: ThreadPool<u32> = ThreadPool::new(1).unwrap();
    assert!(pool.execute(1).is_ok());
    assert!(pool.execute(2).is_ok());
    assert!(matches!(pool.take(0), Step::Run(1)));
    assert!(matches!(pool.take(0), Step::Wait));
    assert_eq!(pool.pending(), 1);
    assert!(pool.finish(0, Outcome::Completed));
    assert!(!pool.finish(0, Outcome::Completed));
    assert!(matches!(pool.take(0), Step::Run(2)));
}

#[test]
fn an_idle_worker_waits_on_an_empty_queue() {
    let mut pool: ThreadPool<u32> = ThreadPool::new(2).unwrap();
    assert!(matches!(pool.take(0), Step::Wait));
    assert_eq!(pool.worker(0).unwrap().state(), WorkerState::Idle);
    assert!(!pool.finish(0, Outcome::Completed));
}

#[test]
fn an_unknown_worker_is_told_to_exit() {
    let mut pool: ThreadPool<u32> = ThreadPool::new(2).unwrap();
    assert!(pool.execute(5).is_ok());
    assert!(matches!(pool.take(2), Step::Exit));
    assert_eq!(pool.pending(), 1);
    assert!(!pool.finish(2, Outcome::Completed));
    assert!(!pool.join(2));
    assert_eq!(pool.state(), PoolState::Running);
}

#[test]
fn a_retired_worker_takes_nothing_more() {
    let mut pool: ThreadPool<u32> = ThreadPool::new(2).unwrap();
    assert_eq!(pool.shutdown(), 2);
    assert!(matches!(pool.take(0), Step::Exit));
    assert_eq!(pool.pending(), 1);
    assert!(matches!(pool.take(0), Step::Exit));
    assert_eq!(pool.pending(), 1);
    assert!(matches!(pool.take(1), Step::Exit));
    assert_eq!(pool.pending(), 0);
}
