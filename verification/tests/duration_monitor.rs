use p4tg_controller::duration_monitor::{
    DurationMonitor, MultipleTests, RunAction, RunEvent, RunPhase, WatchAction, WatchOutcome,
    WatchPhase,
};

#[test]
fn test_ends_when_its_time_is_over() {
    let mut watch = DurationMonitor::start(Some(10_000));
    assert_eq!(watch.next_action(0), WatchAction::Wait { millis: 100 });
    watch.on_tick(true, 100);
    assert_eq!(watch.next_action(9_950), WatchAction::Wait { millis: 50 });
    watch.on_tick(true, 9_999);
    assert_eq!(watch.phase, WatchPhase::Polling);
    watch.on_tick(true, 10_000);
    assert_eq!(watch.next_action(10_000), WatchAction::StopGeneration);
    watch.on_stop_result(true);
    assert_eq!(watch.next_action(10_001), WatchAction::Finish { outcome: WatchOutcome::Elapsed });
}

#[test]
fn failure_to_stop_is_told_apart() {
    let mut watch = DurationMonitor::start(Some(1_000));
    watch.on_tick(true, 5_000);
    watch.on_stop_result(false);
    assert_eq!(watch.phase, WatchPhase::Finished { outcome: WatchOutcome::StopFailed });
    let mut cancelled = DurationMonitor::start(Some(1_000));
    cancelled.on_cancel(true);
    assert_eq!(cancelled.next_action(10), WatchAction::StopGeneration);
    cancelled.on_stop_result(false);
    assert_eq!(cancelled.phase, WatchPhase::Finished { outcome: WatchOutcome::StopFailed });
}

#[test]
fn test_that_was_stopped_by_someone_else() {
    let mut watch = DurationMonitor::start(Some(10_000));
    watch.on_tick(false, 300);
    assert_eq!(
        watch.next_action(300),
        WatchAction::Finish { outcome: WatchOutcome::StoppedExternally }
    );
}

#[test]
fn cancelled_test_is_stopped() {
    let mut watch = DurationMonitor::start(None);
    watch.on_tick(true, 1_000_000);
    assert_eq!(watch.next_action(1_000_000), WatchAction::Wait { millis: 100 });
    watch.on_cancel(true);
    assert_eq!(watch.next_action(1_000_000), WatchAction::StopGeneration);
    watch.on_stop_result(true);
    assert_eq!(watch.phase, WatchPhase::Finished { outcome: WatchOutcome::Cancelled });
    watch.on_tick(true, 3);
    watch.on_cancel(true);
    watch.on_stop_result(false);
    assert_eq!(watch.phase, WatchPhase::Finished { outcome: WatchOutcome::Cancelled });

    let mut idle = DurationMonitor::start(None);
    idle.on_cancel(false);
    assert_eq!(idle.phase, WatchPhase::Finished { outcome: WatchOutcome::Cancelled });
}

#[test]
fn tests_of_a_run_follow_one_another() {
    let mut run = MultipleTests::new(2);
    assert_eq!(run.next_action(), RunAction::StartTest { index: 0 });
    run.on_event(RunEvent::Started);
    assert_eq!(run.next_action(), RunAction::Wait { millis: 100 });
    run.on_event(RunEvent::Tick { running: true });
    assert_eq!(run.next_action(), RunAction::Wait { millis: 100 });
    run.on_event(RunEvent::Tick { running: false });
    assert_eq!(run.next_action(), RunAction::CopyStatistics { settle_millis: 2000 });
    run.on_event(RunEvent::Settled);
    assert_eq!(run.next_action(), RunAction::StartTest { index: 1 });
    run.on_event(RunEvent::Started);
    run.on_event(RunEvent::Tick { running: false });
    run.on_event(RunEvent::Settled);
    assert_eq!(run.next_action(), RunAction::Finish);
    assert!(!run.cancelled);
}

#[test]
fn run_without_tests_is_over_at_once() {
    assert_eq!(MultipleTests::new(0).next_action(), RunAction::Finish);
}

#[test]
fn cancelled_run_starts_no_further_test() {
    let mut run = MultipleTests::new(3);
    run.on_event(RunEvent::Started);
    run.on_event(RunEvent::Cancel);
    assert!(run.cancelled);
    assert_eq!(run.next_action(), RunAction::StopGeneration);
    for event in [
        RunEvent::Tick { running: false },
        RunEvent::Settled,
        RunEvent::Started,
        RunEvent::Cancel,
        RunEvent::Tick { running: true },
    ] {
        run.on_event(event);
        assert_eq!(run.next_action(), RunAction::StopGeneration);
    }
    run.on_event(RunEvent::Stopped);
    assert_eq!(run.next_action(), RunAction::Finish);
    for event in [RunEvent::Settled, RunEvent::Started, RunEvent::Tick { running: false }] {
        run.on_event(event);
        assert_eq!(run.phase, RunPhase::Finished);
    }
}

#[test]
fn run_cancelled_between_tests_just_ends() {
    let mut run = MultipleTests::new(3);
    run.on_event(RunEvent::Started);
    run.on_event(RunEvent::Tick { running: false });
    run.on_event(RunEvent::Cancel);
    assert_eq!(run.next_action(), RunAction::Finish);
    run.on_event(RunEvent::Settled);
    assert_eq!(run.next_action(), RunAction::Finish);
}
