use std::sync::atomic::{AtomicUsize, Ordering};
use std::sync::Arc;

use signal_handler::time::Timestamp;
use signal_handler::worker::{Arrival, Worker, WorkerPhase};
use signal_handler::{Callback, CallbackInfo};

fn at(nanos: u128) -> CallbackInfo {
    CallbackInfo::at(Timestamp::from_nanos(nanos))
}

fn arrival(created: u128, finished: u128) -> Arrival {
    Arrival {
        created: Timestamp::from_nanos(created),
        finished: Timestamp::from_nanos(finished),
    }
}

const SECOND: u128 = 1_000_000_000;

#[test]
fn new_worker_is_idle_without_watermark() {
    let worker = Worker::new();
    assert_eq!(worker.phase, WorkerPhase::Idle);
    assert_eq!(worker.latest_finish_time, None);
}

#[test]
fn fresh_worker_invokes_first_snapshot() {
    let mut worker = Worker::new();
    assert!(!worker.is_stale(&at(10)));
    assert!(worker.accept(&at(10)));
    assert_eq!(worker.phase, WorkerPhase::Executing);
    assert_eq!(worker.latest_finish_time, None);
    worker.complete(Timestamp::from_nanos(50));
    assert_eq!(worker.phase, WorkerPhase::Idle);
    assert_eq!(worker.latest_finish_time, Some(Timestamp::from_nanos(50)));
}

#[test]
fn snapshot_taken_during_a_run_is_skipped_and_the_next_is_invoked() {
    // T1 < T2 < T3, and the run for T1 ends after T2 and before T3.
    let mut worker = Worker::new();
    assert!(worker.accept(&at(100)));
    worker.complete(Timestamp::from_nanos(300));
    assert!(worker.is_stale(&at(200)));
    assert!(!worker.accept(&at(200)));
    assert_eq!(worker.phase, WorkerPhase::Idle);
    assert_eq!(worker.latest_finish_time, Some(Timestamp::from_nanos(300)));
    assert!(worker.accept(&at(400)));
    worker.complete(Timestamp::from_nanos(450));
    assert_eq!(worker.latest_finish_time, Some(Timestamp::from_nanos(450)));
}

#[test]
fn snapshot_taken_at_the_watermark_is_invoked() {
    let mut worker = Worker::new();
    assert!(worker.accept(&at(1)));
    worker.complete(Timestamp::from_nanos(7));
    assert!(!worker.is_stale(&at(7)));
    assert!(worker.is_stale(&at(6)));
    assert!(worker.accept(&at(7)));
}

#[test]
fn executing_worker_accepts_nothing() {
    let mut worker = Worker::new();
    assert!(worker.accept(&at(5)));
    let before = worker;
    assert!(!worker.accept(&at(9)));
    assert_eq!(worker, before);
}

#[test]
fn complete_without_a_run_changes_nothing() {
    let mut worker = Worker::new();
    worker.complete(Timestamp::from_nanos(99));
    assert_eq!(worker, Worker::new());
}

#[test]
fn closed_worker_accepts_nothing() {
    let mut worker = Worker::new();
    assert!(worker.accept(&at(1)));
    worker.complete(Timestamp::from_nanos(2));
    worker.close();
    assert_eq!(worker.phase, WorkerPhase::Closed);
    assert_eq!(worker.latest_finish_time, Some(Timestamp::from_nanos(2)));
    assert!(!worker.accept(&at(10)));
    assert_eq!(worker.phase, WorkerPhase::Closed);
}

#[test]
fn close_does_not_cut_a_run_short() {
    let mut worker = Worker::new();
    assert!(worker.accept(&at(1)));
    worker.close();
    assert_eq!(worker.phase, WorkerPhase::Executing);
    worker.complete(Timestamp::from_nanos(2));
    worker.close();
    assert_eq!(worker.phase, WorkerPhase::Closed);
}

#[test]
fn five_signals_during_a_slow_reload_give_fewer_than_five_runs() {
    // The callback takes three seconds; five signals arrive within one.
    let arrivals = vec![
        arrival(0, 3 * SECOND),
        arrival(SECOND / 5, 6 * SECOND),
        arrival(2 * SECOND / 5, 9 * SECOND),
        arrival(3 * SECOND / 5, 12 * SECOND),
        arrival(4 * SECOND / 5, 15 * SECOND),
    ];
    let mut worker = Worker::new();
    let outcome = worker.replay(&arrivals);
    assert_eq!(outcome, vec![true, false, false, false, false]);
    let runs = outcome.iter().filter(|invoked| **invoked).count();
    assert!(runs < 5);
    assert_eq!(runs, 1);
    assert_eq!(worker.latest_finish_time, Some(Timestamp::from_nanos(3 * SECOND)));
    assert_eq!(worker.phase, WorkerPhase::Idle);
}

#[test]
fn runs_never_outnumber_arrivals_and_an_idle_arrival_always_runs() {
    let arrivals = vec![
        arrival(10, 40),
        arrival(20, 60),
        arrival(30, 80),
        arrival(40, 45),
        arrival(44, 70),
        arrival(100, 110),
    ];
    let mut worker = Worker::new();
    let outcome = worker.replay(&arrivals);
    assert_eq!(outcome, vec![true, false, false, true, false, true]);
    let runs = outcome.iter().filter(|invoked| **invoked).count();
    assert!(runs <= arrivals.len());
    assert!(runs >= 1);
    assert_eq!(worker.latest_finish_time, Some(Timestamp::from_nanos(110)));
}

#[test]
fn replay_of_nothing_changes_nothing() {
    let mut worker = Worker::new();
    let outcome = worker.replay(&Vec::new());
    assert!(outcome.is_empty());
    assert_eq!(worker, Worker::new());
}

#[test]
fn replay_on_a_busy_worker_invokes_nothing() {
    let mut worker = Worker::new();
    assert!(worker.accept(&at(1)));
    let before = worker;
    let outcome = worker.replay(&vec![arrival(5, 6), arrival(7, 8)]);
    assert_eq!(outcome, vec![false, false]);
    assert_eq!(worker, before);
}

#[test]
fn debounce_example_replayed() {
    let mut worker = Worker::new();
    let outcome = worker.replay(&vec![arrival(1, 5), arrival(2, 9), arrival(6, 7)]);
    assert_eq!(outcome, vec![true, false, true]);
}

#[test]
fn process_runs_the_callback_and_moves_the_watermark() {
    let count = Arc::new(AtomicUsize::new(0));
    let seen = Arc::clone(&count);
    let callback = Callback::with_sync(move |_info: CallbackInfo| {
        seen.fetch_add(1, Ordering::SeqCst);
    });
    let mut worker = Worker::new();
    let first = CallbackInfo::new();
    let first_time = *first.time();
    assert!(worker.process(&callback, first));
    assert_eq!(count.load(Ordering::SeqCst), 1);
    assert_eq!(worker.phase, WorkerPhase::Idle);
    let watermark = worker.latest_finish_time.expect("a finished run leaves a watermark");
    assert!(watermark >= first_time);

    // A snapshot from before the run ended is dropped, the callback is not called.
    let stale = CallbackInfo::at(Timestamp::from_nanos(0));
    assert!(!worker.process(&callback, stale));
    assert_eq!(count.load(Ordering::SeqCst), 1);
    assert_eq!(worker.latest_finish_time, Some(watermark));

    // A snapshot from far in the future is not stale.
    let later = CallbackInfo::at(Timestamp::from_nanos(u128::MAX));
    assert!(worker.process(&callback, later));
    assert_eq!(count.load(Ordering::SeqCst), 2);
}
