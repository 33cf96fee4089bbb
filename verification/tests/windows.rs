use window_switcher::config::schema::Config;
use window_switcher::config::types::{ForegroundPolicy, SwitchOrder};
use window_switcher::foreground::{window_event, ForegroundStatus, Snapshot, WindowEvent};
use window_switcher::keyboard::state::SwitchKind;
use window_switcher::mru::{Mru, WindowRecord, WindowSnapshot};
use window_switcher::window_identity::{ProcessIdentity, WindowIdentity, WindowLifetimes};

fn fixture(window: u64) -> WindowIdentity {
    WindowIdentity {
        window,
        process: ProcessIdentity {
            pid: window as u32,
            created: window,
        },
        epoch: 0,
        lifetime: 0,
    }
}

fn recorded(limit: u32) -> Mru {
    Mru::new(&Config {
        switch_apps_order: SwitchOrder::Mru,
        mru_limit: limit,
        ..Default::default()
    })
}

#[test]
fn first_snapshot_follows_observed_foreground_then_seeds_stable_tail() {
    let ids: Vec<_> = (1..=5).map(fixture).collect();
    let mut history = recorded(4);
    history.observe(ids[2]);
    history.seed(&ids);
    assert_eq!(history.recent, [ids[2], ids[0], ids[1], ids[3]]);
    history.seed(&[ids[4]]);
    assert_eq!(history.recent.len(), 4);
    history.observe(ids[4]);
    assert_eq!(history.recent, [ids[4], ids[2], ids[0], ids[1]]);
    assert!(!history.observe(ids[4]));
}

#[test]
fn reused_window_does_not_inherit_rank_and_history_is_bounded() {
    let original = fixture(1);
    let mut reused = original;
    reused.process.created += 1;
    let mut history = recorded(16);
    history.observe(original);
    assert!(history.rank(&reused).is_none());
    history.observe(reused);
    assert!(history.rank(&original).is_none());
    for window in 2..1000 {
        history.observe(fixture(window));
    }
    assert_eq!(history.recent.len(), 16);
    assert_eq!(history.recent.first().unwrap().window, 999);
    assert_eq!(history.recent.last().unwrap().window, 984);
}

#[test]
fn existing_order_does_not_allocate_or_record_history() {
    let mut history = Mru::new(&Config::default());
    history.observe(fixture(1));
    history.seed(&[fixture(2)]);
    assert!(history.recent.is_empty());
    assert_eq!(history.recent.capacity(), 0);
}

#[test]
fn lifecycle_events_evict_destroyed_and_reused_windows_without_process_queries() {
    let mut registry = WindowLifetimes::new();
    let mut history = recorded(16);
    history.observe(fixture(1));
    history.observe(fixture(2));
    registry.event(1, false);
    history.observe_foreground(None, &registry);
    assert_eq!(history.recent.len(), 2);
    registry.event(1, true);
    history.observe_foreground(None, &registry);
    assert_eq!(history.recent.len(), 1);
    assert_eq!(history.recent.first().unwrap().window, 2);
    registry.invalidate_all();
    history.observe_foreground(None, &registry);
    assert!(history.recent.is_empty());
}

fn snapshot() -> WindowSnapshot {
    WindowSnapshot {
        revision: 1,
        groups: [("alpha", [1, 2]), ("beta", [3, 4])]
            .into_iter()
            .map(|(group, windows)| {
                (
                    group.to_string(),
                    windows
                        .into_iter()
                        .map(|window| WindowRecord {
                            identity: fixture(window),
                            executable: "fixture.exe".to_string(),
                            title: String::new(),
                            minimized: false,
                        })
                        .collect(),
                )
            })
            .collect(),
    }
}

fn window_order(snapshot: &WindowSnapshot) -> Vec<u64> {
    snapshot
        .groups
        .values()
        .flatten()
        .map(|record| record.identity.window)
        .collect()
}

#[test]
fn app_and_window_order_are_independent_and_choose_the_recent_group_member() {
    let config = Config {
        switch_apps_order: SwitchOrder::Mru,
        ..Default::default()
    };
    let mut history = Mru::new(&config);
    history.observe(fixture(2));
    history.observe(fixture(4));
    let mut apps = snapshot();
    history.order(&mut apps, SwitchKind::Apps, &config);
    assert_eq!(
        apps.groups.keys().map(String::as_str).collect::<Vec<&str>>(),
        ["beta", "alpha"]
    );
    assert_eq!(window_order(&apps), [4, 3, 2, 1]);
    let mut windows = snapshot();
    history.order(&mut windows, SwitchKind::Windows, &config);
    assert_eq!(window_order(&windows), [1, 2, 3, 4]);
}

#[test]
fn searches_are_never_reordered() {
    let config = Config {
        switch_apps_order: SwitchOrder::Mru,
        switch_windows_order: SwitchOrder::Mru,
        ..Default::default()
    };
    let mut history = Mru::new(&config);
    history.observe(fixture(4));
    let mut found = snapshot();
    history.order(&mut found, SwitchKind::Search, &config);
    assert_eq!(window_order(&found), [1, 2, 3, 4]);
    history.order(&mut found, SwitchKind::Windows, &config);
    assert_eq!(window_order(&found), [4, 3, 1, 2]);
}

#[test]
fn observed_windows_get_their_current_lifetime() {
    let mut registry = WindowLifetimes::new();
    registry.event(7, true);
    let process = ProcessIdentity {
        pid: 3,
        created: 4,
    };
    let identity = registry.identify(7, process).unwrap();
    assert!(registry.is_current(&identity));
    assert_eq!(identity.lifetime, 1);
    assert!(registry.identify(0, process).is_none());
    let mut history = recorded(4);
    history.observe_foreground(Some((7, process)), &registry);
    assert_eq!(history.rank(&identity), Some(0));
    registry.event(7, true);
    assert!(!registry.is_current(&identity));
}

#[test]
fn independent_blacklists_and_unknown_foregrounds_do_not_reuse_old_conclusions() {
    let config = Config {
        switch_apps_blacklist: vec!["games.exe".to_string()],
        switch_windows_blacklist: vec!["editor.exe".to_string()],
        ..Default::default()
    };
    let mut status = ForegroundStatus::new(&config, 99, 0);
    let version = status.version;
    status.snapshot = Some(Snapshot {
        window: 10,
        version,
        windows: true,
        apps: false,
    });
    assert!(status.allows(false, 10, false, false));
    assert!(!status.allows(true, 10, false, false));
    assert!(status.allows(false, 99, false, false));
    assert!(!status.allows(false, 11, false, false));
    assert!(!status.allows(false, 0, false, false));
    status.request(11);
    assert!(!status.allows(false, 10, false, false));
    assert!(!status.allows(false, 99, false, false));
    let handle = ForegroundStatus::new(
        &Config {
            unknown_foreground: ForegroundPolicy::Handle,
            ..config
        },
        0,
        0,
    );
    assert!(handle.allows(true, 11, false, false));
}

#[test]
fn processes_are_looked_up_once_and_in_lower_case() {
    let config = Config {
        switch_apps_blacklist: vec!["ÄGAMES.exe".to_string()],
        ..Default::default()
    };
    let mut status = ForegroundStatus::new(&config, 99, 10);
    let (version, window) = status.pending(0).unwrap();
    assert_eq!((version, window), (1, 10));
    assert!(status.resolve(version, window, Some("ägames.exe")));
    assert!(!status.allows(true, 10, false, false));
    assert!(status.allows(false, 10, false, false));
    assert!(status.pending(version).is_none());
    status.request(99);
    assert!(status.pending(version).is_none());
    status.request(11);
    assert!(!status.resolve(version, window, Some("other.exe")));
    let (version, window) = status.pending(version).unwrap();
    assert!(status.resolve(version, window, Some("other.exe")));
    assert!(status.allows(true, 11, false, false));
    assert!(status.allows(true, 12, true, false));
    assert!(!status.allows(true, 11, false, true));
    status.retire();
    assert!(!status.allows(true, 11, false, false));
}

#[test]
fn system_events_are_told_apart() {
    assert_eq!(window_event(0x3, 5, 7, 8), WindowEvent::Foreground);
    assert_eq!(
        window_event(0x8000, 5, 0, 0),
        WindowEvent::Changed { lifetime: true }
    );
    assert_eq!(
        window_event(0x800c, 5, 0, 0),
        WindowEvent::Changed { lifetime: false }
    );
    assert_eq!(window_event(0x800c, 5, 1, 0), WindowEvent::Ignored);
    assert_eq!(window_event(0x800c, 5, 0, 1), WindowEvent::Ignored);
    assert_eq!(window_event(0x800c, 0, 0, 0), WindowEvent::Ignored);
    assert_eq!(window_event(0x8005, 5, 0, 0), WindowEvent::Ignored);
}
