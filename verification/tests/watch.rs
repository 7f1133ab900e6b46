use file_watcher::debounce::{Arrival, DebouncedReceiver, Received};
use file_watcher::path::WatchPath;
use file_watcher::watch::{
    watch_func, Action, Event, Notice, Orchestrator, Phase, PrintConfig, SETTLE_YIELDS,
};

fn paths(list: &[&str]) -> Vec<WatchPath> {
    list.iter().map(|text| WatchPath::new(text.to_string())).collect()
}

fn config(clear_screen: bool) -> PrintConfig {
    PrintConfig { job_name: "Test".to_string(), clear_screen }
}

fn restart() -> Vec<Action> {
    vec![
        Action::Log(Notice::ChangeDetected),
        Action::Abandon,
        Action::Settle(10),
        Action::CreateWatcher,
    ]
}

fn running() -> Orchestrator {
    let mut watch = Orchestrator::new(config(false));
    watch.step(Event::WatcherReady);
    watch
}

#[test]
fn a_loop_begins_by_settling_and_constructing_a_watcher() {
    let (watch, actions) = watch_func(config(false));
    assert_eq!(SETTLE_YIELDS, 10);
    assert_eq!(watch.phase(), Phase::Starting);
    assert_eq!(actions, vec![Action::Settle(10), Action::CreateWatcher]);
    assert_eq!(watch.watched_len(), 0);
    assert_eq!(watch.job_name(), "Test");
}

#[test]
fn the_first_run_reloads_and_has_no_changed_paths() {
    let mut watch = Orchestrator::new(config(false));
    assert_eq!(
        watch.step(Event::WatcherReady),
        vec![
            Action::Log(Notice::Started),
            Action::DrainRegistrations,
            Action::Run { reload: true, changed_paths: None },
        ]
    );
    assert_eq!(watch.phase(), Phase::RunningWithRegistration);
}

#[test]
fn a_watcher_that_cannot_be_constructed_ends_the_loop_without_a_started_line() {
    let mut watch = Orchestrator::new(config(true));
    assert_eq!(watch.step(Event::WatcherFailed), vec![Action::Fail]);
    assert_eq!(watch.phase(), Phase::Failed);
    assert_eq!(watch.step(Event::WatcherReady), Vec::new());
    assert_eq!(
        watch.step(Event::Changed { paths: paths(&["/a"]), interactive: true }),
        Vec::new()
    );
    assert_eq!(watch.phase(), Phase::Failed);
}

#[test]
fn a_watcher_that_fails_in_a_later_cycle_ends_the_loop_too() {
    let mut watch = running();
    watch.step(Event::Changed { paths: paths(&["/a"]), interactive: false });
    assert_eq!(watch.step(Event::WatcherFailed), vec![Action::Fail]);
    assert_eq!(watch.phase(), Phase::Failed);
}

#[test]
fn an_operation_that_cannot_be_set_up_ends_the_loop() {
    let mut watch = running();
    assert_eq!(watch.step(Event::OperationRejected), vec![Action::Fail]);
    assert_eq!(watch.phase(), Phase::Failed);
    assert_eq!(watch.step(Event::Finished { success: true }), Vec::new());
}

#[test]
fn registered_paths_are_watched_once() {
    let mut watch = running();
    assert_eq!(
        watch.step(Event::Registered(paths(&["/proj/src", "/proj/src/util.ts", "/proj/src"]))),
        vec![Action::Watch(paths(&["/proj/src", "/proj/src/util.ts"]))]
    );
    assert_eq!(watch.watched_len(), 2);
    assert_eq!(
        watch.step(Event::Registered(paths(&["/proj/src/util.ts", "/proj/deps.ts"]))),
        vec![Action::Watch(paths(&["/proj/deps.ts"]))]
    );
    assert_eq!(
        watch.step(Event::Registered(paths(&["/proj/src"]))),
        vec![Action::Watch(Vec::new())]
    );
    assert_eq!(watch.watched_len(), 3);
    assert_eq!(watch.watched_paths(), paths(&["/proj/src", "/proj/src/util.ts", "/proj/deps.ts"]));
    assert_eq!(watch.phase(), Phase::RunningWithRegistration);
}

#[test]
fn a_change_during_a_run_restarts_with_the_changed_paths() {
    let mut watch = running();
    watch.step(Event::Registered(paths(&["/proj/src"])));
    assert_eq!(
        watch.step(Event::Changed { paths: paths(&["/proj/src/a.ts"]), interactive: true }),
        restart()
    );
    assert_eq!(watch.phase(), Phase::Starting);
    assert_eq!(watch.watched_len(), 0);
    assert_eq!(
        watch.step(Event::WatcherReady),
        vec![
            Action::DrainRegistrations,
            Action::Run { reload: false, changed_paths: Some(paths(&["/proj/src/a.ts"])) },
        ]
    );
    assert_eq!(watch.phase(), Phase::RunningWithRegistration);
}

#[test]
fn every_later_run_carries_the_most_recent_change() {
    let mut watch = running();
    for round in 0..5 {
        let changed = paths(&[&format!("/proj/file{}.ts", round)]);
        if round % 2 == 0 {
            watch.step(Event::Finished { success: true });
        }
        watch.step(Event::Changed { paths: changed.clone(), interactive: false });
        let actions = watch.step(Event::WatcherReady);
        assert_eq!(
            actions,
            vec![
                Action::DrainRegistrations,
                Action::Run { reload: false, changed_paths: Some(changed) },
            ]
        );
    }
}

#[test]
fn a_finished_run_is_logged_and_the_loop_waits() {
    let mut watch = running();
    assert_eq!(
        watch.step(Event::Finished { success: true }),
        vec![Action::DrainRegistrations, Action::Log(Notice::Finished)]
    );
    assert_eq!(watch.phase(), Phase::AwaitingAfterCompletion);
    assert_eq!(
        watch.step(Event::Registered(paths(&["/late"]))),
        vec![Action::Watch(paths(&["/late"]))]
    );
    assert_eq!(watch.step(Event::Finished { success: true }), Vec::new());
    assert_eq!(watch.phase(), Phase::AwaitingAfterCompletion);
}

#[test]
fn a_failed_run_does_not_stop_the_loop() {
    let mut watch = running();
    assert_eq!(
        watch.step(Event::Finished { success: false }),
        vec![Action::DrainRegistrations, Action::Log(Notice::Failed)]
    );
    assert_eq!(watch.phase(), Phase::AwaitingAfterCompletion);
    assert_eq!(
        watch.step(Event::Changed { paths: paths(&["/fixed.ts"]), interactive: false }),
        restart()
    );
    assert_eq!(
        watch.step(Event::WatcherReady),
        vec![
            Action::DrainRegistrations,
            Action::Run { reload: false, changed_paths: Some(paths(&["/fixed.ts"])) },
        ]
    );
}

#[test]
fn the_screen_is_cleared_only_if_asked_and_interactive() {
    for (clear_screen, interactive) in [(false, false), (false, true), (true, false), (true, true)] {
        let mut watch = Orchestrator::new(config(clear_screen));
        watch.step(Event::WatcherReady);
        let actions = watch.step(Event::Changed { paths: paths(&["/a"]), interactive });
        let mut expected = Vec::new();
        if clear_screen && interactive {
            expected.push(Action::ClearScreen);
        }
        expected.extend(restart());
        assert_eq!(actions, expected);
    }
}

#[test]
fn events_out_of_turn_are_ignored() {
    let mut watch = Orchestrator::new(config(false));
    assert_eq!(watch.step(Event::Registered(paths(&["/a"]))), Vec::new());
    assert_eq!(watch.step(Event::Finished { success: true }), Vec::new());
    assert_eq!(watch.step(Event::OperationRejected), Vec::new());
    assert_eq!(
        watch.step(Event::Changed { paths: paths(&["/a"]), interactive: false }),
        Vec::new()
    );
    assert_eq!(watch.phase(), Phase::Starting);
    assert_eq!(watch.watched_len(), 0);
    let mut watch = running();
    assert_eq!(watch.step(Event::WatcherReady), Vec::new());
    assert_eq!(watch.step(Event::WatcherFailed), Vec::new());
    assert_eq!(watch.phase(), Phase::RunningWithRegistration);
}

#[test]
fn status_lines_carry_the_job_name() {
    let watch = Orchestrator::new(PrintConfig { job_name: "Bundle".to_string(), clear_screen: false });
    assert_eq!(watch.notice(Notice::Started), "Bundle started.");
    assert_eq!(watch.notice(Notice::Failed), "Bundle failed. Restarting on file change...");
}

#[test]
fn two_modifications_of_one_file_restart_the_operation_once() {
    let mut watch = Orchestrator::new(config(false));
    let mut receiver = DebouncedReceiver::new();
    let mut notices = Vec::new();
    let mut runs = Vec::new();
    let mut record = |actions: Vec<Action>| {
        for action in actions {
            match action {
                Action::Log(notice) => notices.push(notice),
                Action::Run { reload, changed_paths } => runs.push((reload, changed_paths)),
                _ => {}
            }
        }
    };
    record(watch.step(Event::WatcherReady));
    assert_eq!(
        watch.step(Event::Registered(paths(&["/proj/src"]))),
        vec![Action::Watch(paths(&["/proj/src"]))]
    );
    assert_eq!(
        watch.step(Event::Registered(paths(&["/proj/src/util.ts"]))),
        vec![Action::Watch(paths(&["/proj/src/util.ts"]))]
    );
    let mut flushes = Vec::new();
    let arrivals = [
        (50, Arrival::Batch(paths(&["/proj/src/util.ts"]))),
        (130, Arrival::Batch(paths(&["/proj/src/util.ts"]))),
        (200, Arrival::Timeout),
        (329, Arrival::Timeout),
        (330, Arrival::Timeout),
        (530, Arrival::Timeout),
        (1000, Arrival::Timeout),
    ];
    for (at, arrival) in arrivals {
        if let Received::Changed(changed) = receiver.recv(at, arrival) {
            flushes.push(changed.clone());
            record(watch.step(Event::Changed { paths: changed, interactive: false }));
            record(watch.step(Event::WatcherReady));
        }
    }
    assert_eq!(flushes, vec![paths(&["/proj/src/util.ts"])]);
    assert_eq!(notices, vec![Notice::Started, Notice::ChangeDetected]);
    assert_eq!(
        runs,
        vec![(true, None), (false, Some(paths(&["/proj/src/util.ts"])))]
    );
}
