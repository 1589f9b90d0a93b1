use std::sync::atomic::{AtomicUsize, Ordering};
use std::sync::Arc;
use std::time::{SystemTime, UNIX_EPOCH};

use signal_handler::handler::dispatch::{
    first_panicked, Action, Dispatcher, Event, JoinOutcome, Phase, Stamped, POLL_INTERVAL_SECS,
    REGISTER_QUEUE_CAPACITY,
};
use signal_handler::handler::Run;
use signal_handler::register::RegisterType;
use signal_handler::time::Timestamp;
use signal_handler::worker::Worker;
use signal_handler::{Builder, Callback, CallbackInfo, CallbackType, HandleError, Handler};
use signal_hook::consts::{SIGHUP, SIGINT, SIGQUIT, SIGTERM, SIGUSR1};

fn counter() -> Arc<AtomicUsize> {
    Arc::new(AtomicUsize::new(0))
}

fn count_up(count: &Arc<AtomicUsize>) -> impl Fn(CallbackInfo) + Send + Sync + 'static {
    let seen = Arc::clone(count);
    move |_info: CallbackInfo| {
        seen.fetch_add(1, Ordering::SeqCst);
    }
}

fn suspend(
    count: &Arc<AtomicUsize>,
) -> impl Fn(CallbackInfo) -> std::future::Ready<()> + Send + Sync + 'static {
    let seen = Arc::clone(count);
    move |_info: CallbackInfo| {
        seen.fetch_add(1, Ordering::SeqCst);
        std::future::ready(())
    }
}

fn time(nanos: u128) -> Timestamp {
    Timestamp::from_nanos(nanos)
}

fn opened(handler: Handler) -> Run {
    match handler.handle() {
        Ok(run) => run,
        Err(error) => panic!("refused: {:?}", error),
    }
}

fn stamp(action: &Action) -> Option<Timestamp> {
    match action {
        Action::Ignore => None,
        Action::Initialize(info) => Some(info.time),
        Action::Enqueue(_, info) => Some(info.time),
        Action::Stop(info) => info.as_ref().map(|info| info.time),
    }
}

fn step(event: Event, nanos: u128) -> Stamped {
    Stamped { event, now: time(nanos) }
}

fn snapshot(nanos: u128) -> CallbackInfo {
    CallbackInfo::at(time(nanos))
}

fn use_outcomes(outcomes: &[JoinOutcome], expected: Option<usize>) {
    assert_eq!(first_panicked(outcomes), expected);
}

fn routing(initialized: bool, reload: bool, stop: bool, stats: bool) -> Dispatcher {
    Dispatcher { phase: Phase::Routing, ..Dispatcher::new(initialized, reload, stop, stats) }
}

#[test]
fn wait_for_stop_only_run_ends_after_one_callback() {
    let count = counter();
    let run = opened(Handler::builder().wait_for_stop(count_up(&count)).build());
    assert!(run.initialized.is_none());
    assert!(run.workers.is_empty());
    assert_eq!(run.registers.registrations().len(), 3);
    let callback = run.wait_for_stop.expect("the terminal callback is bound");

    let mut dispatcher = run.dispatcher;
    assert!(matches!(dispatcher.dispatch(Event::Start), Action::Ignore));
    assert!(matches!(dispatcher.dispatch(Event::Timeout), Action::Ignore));
    let mut stopped = false;
    match dispatcher.dispatch(Event::Signal(RegisterType::WaitForStop)) {
        Action::Stop(Some(info)) => {
            callback.call(info);
            stopped = true;
        }
        other => panic!("unexpected action {:?}", other),
    }
    assert!(stopped);
    assert_eq!(count.load(Ordering::SeqCst), 1);
    assert_eq!(dispatcher.phase, Phase::Stopped);
}

#[test]
fn nothing_is_routed_after_the_terminal_signal() {
    let mut dispatcher = routing(true, true, true, true);
    let stop = dispatcher.dispatch_at(Event::Signal(RegisterType::WaitForStop), time(5));
    assert!(matches!(stop, Action::Stop(Some(_))));
    let later = [
        Event::Signal(RegisterType::ReloadConfig),
        Event::Signal(RegisterType::WaitForStop),
        Event::Signal(RegisterType::PrintStats),
        Event::Start,
        Event::Timeout,
        Event::Closed,
        Event::Signal(RegisterType::WaitForStop),
    ];
    for (i, event) in later.iter().enumerate() {
        let action = dispatcher.dispatch_at(*event, time(6 + i as u128));
        assert!(matches!(action, Action::Ignore));
        assert_eq!(dispatcher.phase, Phase::Stopped);
    }
}

#[test]
fn initialized_runs_once_and_before_anything_is_routed() {
    let mut dispatcher = Dispatcher::new(true, true, true, false);
    assert_eq!(dispatcher.phase, Phase::Created);

    // Nothing is routed before the run was told to begin.
    let early = dispatcher.dispatch_at(Event::Signal(RegisterType::ReloadConfig), time(1));
    assert!(matches!(early, Action::Ignore));
    let early = dispatcher.dispatch_at(Event::Signal(RegisterType::WaitForStop), time(2));
    assert!(matches!(early, Action::Ignore));
    assert_eq!(dispatcher.phase, Phase::Created);

    let first = dispatcher.dispatch_at(Event::Start, time(3));
    match first {
        Action::Initialize(info) => assert_eq!(info.time, time(3)),
        other => panic!("unexpected action {:?}", other),
    }
    assert_eq!(dispatcher.phase, Phase::Routing);

    let again = dispatcher.dispatch_at(Event::Start, time(4));
    assert!(matches!(again, Action::Ignore));
    assert_eq!(dispatcher.phase, Phase::Routing);

    let routed = dispatcher.dispatch_at(Event::Signal(RegisterType::ReloadConfig), time(5));
    assert!(matches!(routed, Action::Enqueue(CallbackType::ReloadConfig, _)));
}

#[test]
fn start_without_initialized_callback_only_opens_the_routing() {
    let mut dispatcher = Dispatcher::new(false, false, true, false);
    assert!(matches!(dispatcher.dispatch_at(Event::Start, time(1)), Action::Ignore));
    assert_eq!(dispatcher.phase, Phase::Routing);
}

#[test]
fn signal_of_a_bound_category_is_enqueued_with_a_fresh_snapshot() {
    let mut dispatcher = routing(false, true, false, true);
    match dispatcher.dispatch_at(Event::Signal(RegisterType::ReloadConfig), time(11)) {
        Action::Enqueue(tp, info) => {
            assert_eq!(tp, CallbackType::ReloadConfig);
            assert_eq!(info.time, time(11));
        }
        other => panic!("unexpected action {:?}", other),
    }
    match dispatcher.dispatch_at(Event::Signal(RegisterType::PrintStats), time(12)) {
        Action::Enqueue(tp, info) => {
            assert_eq!(tp, CallbackType::PrintStats);
            assert_eq!(info.time, time(12));
        }
        other => panic!("unexpected action {:?}", other),
    }
    assert_eq!(dispatcher.phase, Phase::Routing);
}

#[test]
fn signal_of_an_unbound_category_is_ignored() {
    let mut dispatcher = routing(true, false, true, false);
    let action = dispatcher.dispatch_at(Event::Signal(RegisterType::ReloadConfig), time(1));
    assert!(matches!(action, Action::Ignore));
    let action = dispatcher.dispatch_at(Event::Signal(RegisterType::PrintStats), time(2));
    assert!(matches!(action, Action::Ignore));
    assert_eq!(dispatcher.phase, Phase::Routing);
}

#[test]
fn terminal_signal_without_callback_stops_without_snapshot() {
    let mut dispatcher = routing(false, true, false, false);
    let action = dispatcher.dispatch_at(Event::Signal(RegisterType::WaitForStop), time(1));
    assert!(matches!(action, Action::Stop(None)));
    assert_eq!(dispatcher.phase, Phase::Stopped);
}

#[test]
fn terminal_signal_with_callback_stops_with_snapshot() {
    let mut dispatcher = routing(false, false, true, false);
    match dispatcher.dispatch_at(Event::Signal(RegisterType::WaitForStop), time(21)) {
        Action::Stop(Some(info)) => assert_eq!(info.time, time(21)),
        other => panic!("unexpected action {:?}", other),
    }
    assert_eq!(dispatcher.phase, Phase::Stopped);
}

#[test]
fn closed_channel_stops_the_run_without_callback() {
    let mut dispatcher = routing(true, true, true, true);
    let action = dispatcher.dispatch_at(Event::Closed, time(1));
    assert!(matches!(action, Action::Stop(None)));
    assert_eq!(dispatcher.phase, Phase::Stopped);
}

#[test]
fn timeout_changes_nothing() {
    let mut dispatcher = routing(true, true, true, true);
    let before = dispatcher;
    assert!(matches!(dispatcher.dispatch_at(Event::Timeout, time(1)), Action::Ignore));
    assert_eq!(dispatcher, before);
}

#[test]
fn dispatch_stamps_with_the_system_clock() {
    let mut dispatcher = routing(false, true, false, false);
    let before = SystemTime::now().duration_since(UNIX_EPOCH).unwrap().as_nanos();
    let action = dispatcher.dispatch(Event::Signal(RegisterType::ReloadConfig));
    let after = SystemTime::now().duration_since(UNIX_EPOCH).unwrap().as_nanos();
    let stamped = stamp(&action).expect("an enqueued snapshot carries its time");
    assert!(before <= stamped.as_nanos());
    assert!(stamped.as_nanos() <= after);
}

#[test]
fn is_bound_tells_the_bindings() {
    let dispatcher = Dispatcher::new(true, false, true, false);
    assert!(dispatcher.is_bound(CallbackType::Initialized));
    assert!(!dispatcher.is_bound(CallbackType::ReloadConfig));
    assert!(dispatcher.is_bound(CallbackType::WaitForStop));
    assert!(!dispatcher.is_bound(CallbackType::PrintStats));
}

#[test]
fn blocking_run_with_a_suspending_callback_is_refused() {
    let count = counter();
    for slot in 0..4 {
        let builder = Handler::builder().wait_for_stop(count_up(&count));
        let builder = match slot {
            0 => builder.initialized_async(suspend(&count)),
            1 => builder.reload_config_async(suspend(&count)),
            2 => builder.wait_for_stop_async(suspend(&count)),
            _ => builder.print_stats_async(suspend(&count)),
        };
        match builder.build().handle() {
            Err(HandleError::AsyncRequired) => {}
            Err(other) => panic!("unexpected error {:?}", other),
            Ok(_) => panic!("a suspending callback was accepted"),
        }
    }
    assert_eq!(count.load(Ordering::SeqCst), 0);
}

#[test]
fn cooperative_run_takes_callbacks_of_both_kinds() {
    let count = counter();
    let handler = Handler::builder()
        .initialized_async(suspend(&count))
        .reload_config(count_up(&count))
        .print_stats_async(suspend(&count))
        .wait_for_stop_async(suspend(&count))
        .build();
    let run = match handler.handle_async() {
        Ok(run) => run,
        Err(error) => panic!("refused: {:?}", error),
    };
    assert!(run.initialized.as_ref().unwrap().is_async());
    assert!(run.wait_for_stop.as_ref().unwrap().is_async());
    let workers: Vec<(CallbackType, bool)> =
        run.workers.iter().map(|worker| (worker.0, worker.1.is_async())).collect();
    assert_eq!(
        workers,
        vec![(CallbackType::ReloadConfig, false), (CallbackType::PrintStats, true)]
    );
    assert_eq!(run.dispatcher, Dispatcher::new(true, true, true, true));
}

#[test]
fn run_gives_a_worker_to_every_category_but_the_inline_ones() {
    let count = counter();
    let handler = Handler::builder()
        .print_stats(count_up(&count))
        .initialized(count_up(&count))
        .wait_for_stop(count_up(&count))
        .reload_config(count_up(&count))
        .build();
    let run = opened(handler);
    let workers: Vec<CallbackType> = run.workers.iter().map(|worker| worker.0).collect();
    assert_eq!(workers, vec![CallbackType::ReloadConfig, CallbackType::PrintStats]);
    assert!(run.initialized.is_some());
    assert!(run.wait_for_stop.is_some());
    assert_eq!(run.dispatcher, Dispatcher::new(true, true, true, true));
    assert_eq!(run.registers.get(RegisterType::ReloadConfig), Some(&vec![SIGHUP]));
    assert_eq!(run.registers.get(RegisterType::WaitForStop), Some(&vec![SIGINT, SIGTERM, SIGQUIT]));
    assert_eq!(run.registers.get(RegisterType::PrintStats), Some(&vec![SIGUSR1]));
}

#[test]
fn terminal_category_is_always_installed() {
    let count = counter();
    let run = opened(Handler::builder().initialized(count_up(&count)).build());
    assert_eq!(run.registers.get(RegisterType::WaitForStop), Some(&vec![SIGINT, SIGTERM, SIGQUIT]));
    assert!(!run.registers.contains_key(RegisterType::ReloadConfig));
    assert!(!run.registers.contains_key(RegisterType::PrintStats));
    assert!(run.wait_for_stop.is_none());
    assert_eq!(run.dispatcher, Dispatcher::new(true, false, false, false));

    let empty = opened(Handler::builder().build());
    assert!(empty.registers.contains_key(RegisterType::WaitForStop));
    assert!(empty.workers.is_empty());
    assert_eq!(empty.dispatcher, Dispatcher::new(false, false, false, false));
}

#[test]
fn category_of_a_bound_callback_is_installed_even_if_not_requested() {
    let count = counter();
    let mut builder = Builder::new();
    builder.callbacks.insert(CallbackType::PrintStats, Callback::with_sync(count_up(&count)));
    builder.registers.insert(RegisterType::WaitForStop, vec![SIGTERM]);
    let run = opened(builder.build());
    assert_eq!(run.registers.get(RegisterType::PrintStats), Some(&vec![SIGUSR1]));
    assert_eq!(run.registers.get(RegisterType::WaitForStop), Some(&vec![SIGTERM]));
    assert!(!run.registers.contains_key(RegisterType::ReloadConfig));
    assert_eq!(run.workers.len(), 1);
}

#[test]
fn later_binding_replaces_the_earlier_one() {
    let first = counter();
    let second = counter();
    let handler =
        Handler::builder().wait_for_stop(count_up(&first)).wait_for_stop(count_up(&second)).build();
    let run = opened(handler);
    run.wait_for_stop.unwrap().call(CallbackInfo::new());
    assert_eq!(first.load(Ordering::SeqCst), 0);
    assert_eq!(second.load(Ordering::SeqCst), 1);
}

#[test]
fn default_builder_is_empty() {
    let builder = Builder::default();
    assert!(builder.callbacks.into_inner().is_empty());
    assert!(builder.registers.registrations().is_empty());
}

#[test]
fn only_a_panic_is_raised_again_at_the_join() {
    assert!(!JoinOutcome::Completed.must_reraise());
    assert!(!JoinOutcome::Cancelled.must_reraise());
    assert!(JoinOutcome::Panicked.must_reraise());
}

#[test]
fn panicked_worker_is_reported_after_the_others_have_drained() {
    // Two workers with queued snapshots. The join of the first reports a
    // panic; the second still drains its queue, and the panic is what the
    // caller gets raised again.
    let count = counter();
    let run = opened(
        Handler::builder()
            .reload_config(count_up(&count))
            .print_stats(count_up(&count))
            .wait_for_stop(count_up(&count))
            .build(),
    );
    let mut dispatcher = run.dispatcher;
    dispatcher.dispatch(Event::Start);
    let mut queue: Vec<CallbackInfo> = Vec::new();
    for event in [
        Event::Signal(RegisterType::ReloadConfig),
        Event::Signal(RegisterType::PrintStats),
        Event::Signal(RegisterType::WaitForStop),
    ] {
        match dispatcher.dispatch(event) {
            Action::Enqueue(CallbackType::ReloadConfig, _) => {}
            Action::Enqueue(CallbackType::PrintStats, info) => queue.push(info),
            Action::Stop(Some(info)) => run.wait_for_stop.as_ref().unwrap().call(info),
            other => panic!("unexpected action {:?}", other),
        }
    }
    assert_eq!(count.load(Ordering::SeqCst), 1);

    let mut outcomes = vec![JoinOutcome::Panicked];
    let mut worker = Worker::new();
    for info in queue {
        assert!(worker.process(&run.workers[1].1, info));
    }
    worker.close();
    outcomes.push(JoinOutcome::Completed);
    assert_eq!(count.load(Ordering::SeqCst), 2);

    let raised: Vec<bool> = outcomes.iter().map(|outcome| outcome.must_reraise()).collect();
    assert_eq!(raised, vec![true, false]);
    assert_eq!(first_panicked(&outcomes), Some(0));
}

#[test]
fn shutdown_raises_the_first_panic_in_join_order() {
    use_outcomes(&[], None);
    use_outcomes(&[JoinOutcome::Completed], None);
    use_outcomes(&[JoinOutcome::Cancelled, JoinOutcome::Completed], None);
    use_outcomes(&[JoinOutcome::Panicked], Some(0));
    use_outcomes(
        &[JoinOutcome::Completed, JoinOutcome::Cancelled, JoinOutcome::Panicked],
        Some(2),
    );
    use_outcomes(
        &[JoinOutcome::Cancelled, JoinOutcome::Panicked, JoinOutcome::Panicked],
        Some(1),
    );
}

#[test]
fn queue_capacity_and_poll_interval() {
    assert_eq!(REGISTER_QUEUE_CAPACITY, 6);
    assert_eq!(POLL_INTERVAL_SECS, 1);
}

#[test]
fn handle_error_labels() {
    assert_eq!(HandleError::AsyncRequired.label(), "AsyncRequired");
    let failed = HandleError::RegisterFailed(std::io::Error::from(std::io::ErrorKind::Other));
    assert_eq!(failed.label(), "RegisterFailed");
    assert_eq!(HandleError::Other(String::from("escalated")).label(), "Other");
}

#[test]
fn batch_is_answered_step_by_step() {
    let mut dispatcher = Dispatcher::new(true, true, true, true);
    let actions = dispatcher.dispatch_all(&[
        step(Event::Signal(RegisterType::PrintStats), 1),
        step(Event::Start, 2),
        step(Event::Signal(RegisterType::ReloadConfig), 3),
        step(Event::Timeout, 4),
        step(Event::Signal(RegisterType::PrintStats), 5),
        step(Event::Start, 6),
        step(Event::Signal(RegisterType::WaitForStop), 7),
        step(Event::Signal(RegisterType::ReloadConfig), 8),
        step(Event::Signal(RegisterType::WaitForStop), 9),
        step(Event::Closed, 10),
    ]);
    assert_eq!(
        actions,
        vec![
            Action::Ignore,
            Action::Initialize(snapshot(2)),
            Action::Enqueue(CallbackType::ReloadConfig, snapshot(3)),
            Action::Ignore,
            Action::Enqueue(CallbackType::PrintStats, snapshot(5)),
            Action::Ignore,
            Action::Stop(Some(snapshot(7))),
            Action::Ignore,
            Action::Ignore,
            Action::Ignore,
        ]
    );
    assert_eq!(dispatcher.phase, Phase::Stopped);
}

#[test]
fn batch_of_nothing_changes_nothing() {
    let mut dispatcher = Dispatcher::new(true, false, true, false);
    assert!(dispatcher.dispatch_all(&[]).is_empty());
    assert_eq!(dispatcher, Dispatcher::new(true, false, true, false));
}

#[test]
fn initialize_is_answered_once_in_any_batch() {
    let events = [
        Event::Start,
        Event::Signal(RegisterType::ReloadConfig),
        Event::Signal(RegisterType::WaitForStop),
        Event::Timeout,
        Event::Closed,
    ];
    // Every batch of three events, with and without a start among them.
    for a in events {
        for b in events {
            for c in events {
                let mut dispatcher = Dispatcher::new(true, true, true, true);
                let actions = dispatcher.dispatch_all(&[step(a, 1), step(b, 2), step(c, 3)]);
                let first = actions.iter().position(|x| matches!(x, Action::Initialize(_)));
                let count = actions.iter().filter(|x| matches!(x, Action::Initialize(_))).count();
                let started = [a, b, c].contains(&Event::Start);
                assert_eq!(count, if started { 1 } else { 0 });
                for (j, action) in actions.iter().enumerate() {
                    if matches!(action, Action::Enqueue(_, _) | Action::Stop(_)) {
                        assert!(first.expect("routed without initializing") < j);
                    }
                }
                if let Some(stop) = actions.iter().position(|x| matches!(x, Action::Stop(_))) {
                    for action in &actions[stop + 1..] {
                        assert_eq!(*action, Action::Ignore);
                    }
                }
            }
        }
    }
}
