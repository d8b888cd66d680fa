//! The queue of reads and the wait for alerts.

use std::sync::mpsc;
use std::time::{Duration, Instant};

use torrentfs::download::types::SessionStats;
use torrentfs::fuse::worker_pool::{WorkerPool, WorkerStep};
use torrentfs::infrastructure::alert::{
    dispatch, drain_alerts, AlertType, NotifyState, NotifyWait, SharedSessionStats,
};

fn run(pool: &mut WorkerPool<u32>) -> Option<u32> {
    match pool.worker_step() {
        WorkerStep::Run(job) => Some(job),
        _ => None,
    }
}

#[test]
fn queue_is_bounded_with_backpressure() {
    let mut pool = WorkerPool::new(1, 2);
    // The first job is taken by the single worker.
    assert!(pool.try_submit(0).is_ok());
    assert_eq!(run(&mut pool), Some(0));
    // Fill the queue to capacity.
    for job in 1..3 {
        assert!(pool.try_submit(job).is_ok());
    }
    // The next submit must be rejected: the queue is full.
    assert_eq!(pool.try_submit(3), Err(3));
    pool.shutdown();
}

#[test]
fn jobs_are_drained_on_shutdown() {
    let mut pool = WorkerPool::new(2, 4);
    for job in 0..4 {
        assert!(pool.try_submit(job).is_ok());
    }
    pool.shutdown();
    let mut ran = Vec::new();
    while let Some(job) = run(&mut pool) {
        ran.push(job);
    }
    assert_eq!(ran, vec![0, 1, 2, 3]);
    assert!(matches!(pool.worker_step(), WorkerStep::Exit));
}

#[test]
fn accepted_jobs_run_once_and_in_order() {
    let mut pool = WorkerPool::new(2, 2);
    let mut accepted = Vec::new();
    let mut ran = Vec::new();
    for job in 0..10 {
        if pool.try_submit(job).is_ok() {
            accepted.push(job);
        }
        if job % 3 == 2 {
            ran.extend(run(&mut pool));
        }
    }
    pool.shutdown();
    assert_eq!(pool.try_submit(10), Err(10));
    while let Some(job) = run(&mut pool) {
        ran.push(job);
    }
    assert_eq!(accepted, vec![0, 1, 3, 6, 9]);
    assert_eq!(ran, accepted);
    assert!(matches!(pool.worker_step(), WorkerStep::Exit));
}

#[test]
fn shutdown_rejects_new_submissions() {
    let mut pool = WorkerPool::new(2, 4);
    assert!(matches!(pool.worker_step(), WorkerStep::Wait));
    pool.shutdown();
    assert!(pool.try_submit(1).is_err());
    // Idempotent.
    pool.shutdown();
    assert!(pool.stopping_flag());
    assert_eq!((pool.workers(), pool.queue_depth()), (2, 4));
}

#[test]
fn wait_returns_immediately_when_already_flagged() {
    // A notice that comes before the consumer blocks must make `wait` return at once instead of
    // blocking for the full timeout.
    let mut state = NotifyState::new();
    state.notify();
    let start = Instant::now();
    assert_eq!(state.wait(), NotifyWait::Notified);
    assert!(
        start.elapsed() < Duration::from_millis(500),
        "wait should return immediately when the flag is already set"
    );
    // The notice is used up.
    assert_eq!(state.wait(), NotifyWait::Block);
}

#[test]
fn wait_times_out_when_not_notified() {
    let mut state = NotifyState::new();
    let start = Instant::now();
    assert_eq!(state.wait(), NotifyWait::Block);
    let (_sender, receiver) = mpsc::channel::<()>();
    let timed_out = receiver.recv_timeout(Duration::from_millis(50)).is_err();
    assert!(!state.woken(timed_out));
    assert!(
        start.elapsed() >= Duration::from_millis(50),
        "wait should block for at least the timeout when not notified"
    );
}

#[test]
fn notify_cb_sets_flag() {
    let mut state = NotifyState::new();
    state.notify();
    assert!(state.flag);
}

fn told(n: i64) -> SessionStats {
    SessionStats {
        download_rate: n,
        ..SessionStats::default()
    }
}

#[test]
fn only_alerts_on_statistics_change_them() {
    let mut stats = SharedSessionStats::new();
    assert_eq!(stats.snapshot(), SessionStats::default());
    dispatch(AlertType::from(2), told(1), &mut stats);
    assert_eq!(stats.snapshot(), SessionStats::default());
    dispatch(AlertType::from(1), told(2), &mut stats);
    assert_eq!(stats.snapshot(), told(2));
    assert!(!drain_alerts(&None, &mut stats));
    assert!(!drain_alerts(&Some(vec![]), &mut stats));
    assert_eq!(stats.snapshot(), told(2));
    assert!(drain_alerts(
        &Some(vec![(1, told(3)), (1, told(4)), (0, told(5))]),
        &mut stats
    ));
    assert_eq!(stats.snapshot(), told(4));
    assert_eq!(AlertType::from(3), AlertType::TorrentRemoved);
    assert_eq!(AlertType::from(9), AlertType::Other(9));
}
