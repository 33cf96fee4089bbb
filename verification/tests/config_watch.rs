use window_switcher::config::reload::{preflight, ConfigCandidate, PreflightError};
use window_switcher::config::types::WatchMode;
use window_switcher::config::watch::{
    ConfigEvent, Control, PendingEvents, Step, WatchLoop, WatchMessage, NOTIFICATION_RETRY_MS,
};
use window_switcher::config::watch_state::ChangeTracker;

fn tracker() -> ChangeTracker {
    ChangeTracker::new(b"old".to_vec(), 1000, 2000, 2)
}

#[test]
fn repeated_saves_coalesce_and_only_active_ack_applies_a_version() {
    let now = 0;
    let mut state = tracker();
    state.observe(b"first".to_vec(), now);
    state.observe(b"last".to_vec(), now + 500);
    assert!(state.next(now + 1000).is_none());
    let candidate = state.next(now + 2000).unwrap();
    state.validate(candidate.generation);
    assert_eq!(state.applied(), b"old");
    assert!(state.next(now + 3000).is_none());
    state.complete(candidate.generation, true, false, now);
    assert_eq!(state.applied(), b"last");
    assert!(state.next(now + 10_000).is_none());
}

#[test]
fn same_bytes_retry_with_backoff_and_stop_at_the_budget() {
    let now = 0;
    let mut state = tracker();
    state.observe(b"new".to_vec(), now);
    for second in [1, 3, 7] {
        let time = now + second * 1000;
        let candidate = state.next(time).unwrap();
        state.complete(candidate.generation, false, true, time);
        assert!(state.next(time + 500).is_none());
    }
    assert!(state.next(now + 60_000).is_none());
    assert_eq!(state.applied(), b"old");
    state.observe(b"newer".to_vec(), now + 61_000);
    assert!(state.next(now + 62_000).is_some());
}

#[test]
fn stale_completion_cannot_discard_a_newer_observation_or_ack_it() {
    let now = 0;
    let mut state = tracker();
    state.observe(b"a".to_vec(), now);
    let a = state.next(now + 1000).unwrap();
    state.observe(b"b".to_vec(), now + 2000);
    state.complete(a.generation, false, true, now + 3000);
    let b = state.next(now + 3000).unwrap();
    assert_eq!(b.contents, b"b");
    state.complete(a.generation, true, false, now);
    assert_eq!(state.applied_generation, 0);
}

#[test]
fn blank_missing_and_invalid_files_preserve_the_running_configuration() {
    let now = 0;
    let mut state = tracker();
    state.observe(Vec::new(), now);
    assert!(state.next(now + 2000).is_none());
    state.observe(b"bad".to_vec(), now);
    let invalid = state.next(now + 2000).unwrap();
    state.complete(invalid.generation, false, false, now);
    assert!(state.next(now + 20_000).is_none());
    state.unavailable();
    state.observe(b"old".to_vec(), now);
    assert!(state.next(now + 30_000).is_none());
}

#[test]
fn a_watcher_without_notifications_polls_and_reports_candidates() {
    let mut watch = WatchLoop::new(b"old=1\n".to_vec(), WatchMode::Poll, 0, 100, 200, 1, 0);
    assert!(!watch.needs_notification(0));
    assert!(watch.needs_read(true, 0));
    watch.file_read(Some(b"trayicon=no\n".to_vec()), 1);
    match watch.try_candidate(2) {
        Some(ConfigEvent::Candidate(candidate)) => {
            assert_eq!(candidate.contents, b"trayicon=no\n");
        }
        _ => panic!("no candidate"),
    }
    assert!(watch.try_candidate(3).is_none());
}

#[test]
fn invalid_files_are_reported_and_not_tried_again() {
    let mut watch = WatchLoop::new(b"old=1\n".to_vec(), WatchMode::Poll, 0, 100, 200, 1, 0);
    watch.file_read(Some(b"trayicon=maybe\n".to_vec()), 1);
    assert!(matches!(
        watch.try_candidate(2),
        Some(ConfigEvent::Message(_))
    ));
    assert!(watch.try_candidate(1000).is_none());
}

#[test]
fn a_failed_read_is_reported_once() {
    let mut watch = WatchLoop::new(b"old=1\n".to_vec(), WatchMode::Poll, 0, 100, 200, 1, 0);
    assert!(watch.file_read(None, 1));
    assert!(!watch.file_read(None, 2));
}

#[test]
fn notifications_that_fail_fall_back_to_polling() {
    let mut watch = WatchLoop::new(b"old=1\n".to_vec(), WatchMode::Auto, 0, 100, 200, 1, 0);
    assert!(watch.needs_notification(0));
    watch.notification_set_up(false, 0);
    assert!(!watch.needs_notification(1));
    assert!(watch.needs_read(false, 1_000_000));
}

#[test]
fn stop_ends_the_loop_and_drops_events() {
    let mut watch = WatchLoop::new(b"old=1\n".to_vec(), WatchMode::Poll, 0, 100, 200, 1, 0);
    assert!(!watch.control(Control::Stop, 5));
    let mut events = PendingEvents::new();
    assert!(events.notify(ConfigEvent::Message(WatchMessage::Unreadable)));
    events.stop();
    assert!(!events.notify(ConfigEvent::Message(WatchMessage::Unreadable)));
    assert!(events.next_event().is_none());
}

#[test]
fn a_version_is_taken_over_only_while_the_file_holds_it() {
    let candidate = ConfigCandidate {
        generation: 1,
        contents: b"trayicon=no\n".to_vec(),
    };
    let disk = b"trayicon=no\n";
    let loaded = preflight(&candidate, false, true, true, disk).unwrap();
    assert!(!loaded.config.trayicon);
    assert!(!loaded.migrated);
    assert!(matches!(
        preflight(&candidate, true, true, true, disk),
        Err(PreflightError::Recovery)
    ));
    assert!(matches!(
        preflight(&candidate, false, false, true, disk),
        Err(PreflightError::LogDestination)
    ));
    assert!(matches!(
        preflight(&candidate, false, true, false, disk),
        Err(PreflightError::Log)
    ));
    assert!(matches!(
        preflight(&candidate, false, true, true, b"trayicon=yes\n"),
        Err(PreflightError::Outdated)
    ));
    let blank = ConfigCandidate {
        generation: 2,
        contents: b"; saving\n".to_vec(),
    };
    assert!(matches!(
        preflight(&blank, false, true, true, b"; saving\n"),
        Err(PreflightError::Load(_))
    ));
}

#[test]
fn a_lost_notification_counts_as_a_change_or_ends_the_watch() {
    let mut watch = WatchLoop::new(b"old=1\n".to_vec(), WatchMode::Auto, 0, 100, 200, 1, 0);
    assert!(watch.needs_notification(0));
    assert_eq!(watch.notification_set_up(false, 0), Step::Continue);
    assert!(!watch.needs_notification(NOTIFICATION_RETRY_MS - 1));
    assert!(watch.needs_notification(NOTIFICATION_RETRY_MS));
    assert_eq!(
        watch.notification_set_up(true, NOTIFICATION_RETRY_MS),
        Step::Continue
    );
    assert_eq!(
        watch.notification_asked(Some(false), 40_000),
        (Step::Continue, false)
    );
    assert_eq!(
        watch.notification_asked(Some(true), 40_000),
        (Step::Continue, true)
    );
    assert_eq!(
        watch.notification_asked(None, 40_000),
        (Step::Continue, true)
    );
    assert!(!watch.needs_notification(40_001));
    assert_eq!(
        watch.notification_asked(None, 40_001),
        (Step::Continue, false)
    );
    let mut strict = WatchLoop::new(b"old=1\n".to_vec(), WatchMode::Notify, 0, 100, 200, 1, 0);
    assert_eq!(strict.notification_set_up(false, 0), Step::StopUnavailable);
    assert_eq!(strict.notification_set_up(true, 0), Step::Continue);
    assert_eq!(strict.notification_asked(None, 1), (Step::StopLost, true));
}
