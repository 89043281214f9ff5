use simple_tcp_listener::pool::{PoolError, ThreadPool};
use simple_tcp_listener::types::{Job, WorkerPhase};

fn job(id: u64) -> Job {
    Job { id, fails: false }
}

fn failing_job(id: u64) -> Job {
    Job { id, fails: true }
}

#[test]
fn pool_starts_with_size_idle_workers() {
    for size in 1..=5 {
        let pool = ThreadPool::new(size);
        assert_eq!(pool.size(), size);
        for w in 0..size {
            assert_eq!(pool.worker_phase(w), WorkerPhase::Idle);
        }
        assert_eq!(pool.pending(), 0);
        assert!(pool.executed().is_empty());
        assert!(pool.is_open());
    }
}

#[test]
fn enqueue_is_fifo_and_nonconsuming() {
    let mut pool = ThreadPool::new(2);
    pool.execute(job(10));
    pool.execute(job(20));
    pool.execute(job(30));
    assert_eq!(pool.pending(), 3);
    assert!(pool.executed().is_empty());
    assert_eq!(pool.worker_phase(0), WorkerPhase::Idle);
    assert_eq!(pool.worker_phase(1), WorkerPhase::Idle);
}

#[test]
fn jobs_run_exactly_once_in_order() {
    let mut pool = ThreadPool::new(4);
    for id in 1..=10 {
        pool.execute(job(id));
    }
    let verdict = pool.dispose();
    assert_eq!(verdict, Ok(()));
    let expected: Vec<u64> = (1..=10).collect();
    assert_eq!(pool.executed().clone(), expected);
    for w in 0..4 {
        assert_eq!(pool.worker_phase(w), WorkerPhase::Terminated);
    }
    assert_eq!(pool.pending(), 0);
}

#[test]
fn disposal_terminates_every_worker() {
    let mut pool = ThreadPool::new(3);
    let verdict = pool.dispose();
    assert_eq!(verdict, Ok(()));
    assert!(!pool.is_open());
    for w in 0..3 {
        assert_eq!(pool.worker_phase(w), WorkerPhase::Terminated);
    }
    assert_eq!(pool.pending(), 0);
    assert!(pool.executed().is_empty());
}

#[test]
fn second_job_runs_on_other_worker_while_first_in_flight() {
    let mut pool = ThreadPool::new(2);
    pool.execute(job(1));
    pool.execute(job(2));
    pool.claim(0);
    assert_eq!(pool.worker_phase(0), WorkerPhase::Busy(job(1)));
    assert_eq!(pool.worker_phase(1), WorkerPhase::Idle);
    pool.claim(1);
    assert_eq!(pool.worker_phase(0), WorkerPhase::Busy(job(1)));
    assert_eq!(pool.worker_phase(1), WorkerPhase::Busy(job(2)));
    pool.finish(1);
    pool.finish(0);
    assert_eq!(pool.executed().clone(), vec![2, 1]);
    let verdict = pool.dispose();
    assert_eq!(verdict, Ok(()));
}

#[test]
fn worker_claims_run_and_idle_again() {
    let mut pool = ThreadPool::new(1);
    pool.execute(job(42));
    pool.claim(0);
    assert_eq!(pool.worker_phase(0), WorkerPhase::Busy(job(42)));
    pool.finish(0);
    assert_eq!(pool.worker_phase(0), WorkerPhase::Idle);
    assert_eq!(pool.executed().clone(), vec![42]);
    let verdict = pool.dispose();
    assert_eq!(verdict, Ok(()));
}

#[test]
fn failing_job_costs_only_its_worker() {
    let mut pool = ThreadPool::new(3);
    pool.execute(job(1));
    pool.execute(failing_job(2));
    pool.execute(job(3));
    pool.execute(job(4));
    let verdict = pool.dispose();
    assert_eq!(verdict, Err(PoolError::WorkerFailed));
    assert_eq!(pool.executed().clone(), vec![1, 3, 4]);
    let mut failed = 0;
    let mut terminated = 0;
    for w in 0..3 {
        match pool.worker_phase(w) {
            WorkerPhase::Failed => failed += 1,
            WorkerPhase::Terminated => terminated += 1,
            other => panic!("worker {} still runnable: {:?}", w, other),
        }
    }
    assert_eq!(failed, 1);
    assert_eq!(terminated, 2);
}

#[test]
fn pool_keeps_serving_after_a_failure() {
    let mut pool = ThreadPool::new(2);
    pool.execute(failing_job(1));
    pool.claim(0);
    pool.finish(0);
    assert_eq!(pool.worker_phase(0), WorkerPhase::Failed);
    assert_eq!(pool.worker_phase(1), WorkerPhase::Idle);
    pool.execute(job(2));
    pool.execute(job(3));
    let verdict = pool.dispose();
    assert_eq!(verdict, Err(PoolError::WorkerFailed));
    assert_eq!(pool.executed().clone(), vec![2, 3]);
    assert_eq!(pool.worker_phase(0), WorkerPhase::Failed);
    assert_eq!(pool.worker_phase(1), WorkerPhase::Terminated);
}

#[test]
fn thousand_jobs_none_lost_none_duplicated() {
    let mut pool = ThreadPool::new(8);
    for id in 0..1000 {
        pool.execute(job(id));
    }
    let verdict = pool.dispose();
    assert_eq!(verdict, Ok(()));
    let log = pool.executed();
    assert_eq!(log.len(), 1000);
    for (i, id) in log.iter().enumerate() {
        assert_eq!(*id, i as u64);
    }
    for w in 0..8 {
        assert_eq!(pool.worker_phase(w), WorkerPhase::Terminated);
    }
}
