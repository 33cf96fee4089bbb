use window_switcher::config::hotkey::{
    Hotkey, DETAILS_HOTKEY_ID, PAUSE_HOTKEY_ID, SEARCH_HOTKEY_ID, SWITCH_APPS_HOTKEY_ID,
    SWITCH_WINDOWS_HOTKEY_ID,
};
use window_switcher::config::types::InjectedPolicy;
use window_switcher::keyboard::activation::InputActivation;
use window_switcher::keyboard::dispatch::{InputDispatch, Submission, INPUT_QUEUE_CAPACITY};
use window_switcher::keyboard::hook::{
    apply_activation, can_read_keyboard_data, conclude, process, HookStep,
};
use window_switcher::keyboard::state::{
    InputAction, InputEvent, InputMachine, InputPermissions, InputSurface, KeyInput, SwitchKind,
};

const KEY_DOWN: u32 = 0x100;

fn hotkeys() -> Vec<Hotkey> {
    vec![
        Hotkey::create(SWITCH_APPS_HOTKEY_ID, "apps", "alt+tab").unwrap(),
        Hotkey::create(SWITCH_WINDOWS_HOTKEY_ID, "windows", "alt+`").unwrap(),
    ]
}

fn machine() -> InputMachine {
    InputMachine::new(hotkeys())
}

fn machine_with(more: Vec<Hotkey>) -> InputMachine {
    let mut all = hotkeys();
    all.extend(more);
    InputMachine::new(all)
}

fn key(scan: u32, extended: bool, down: bool) -> KeyInput {
    KeyInput {
        scan,
        extended,
        down,
    }
}

fn permit(windows: bool) -> InputPermissions {
    InputPermissions {
        windows,
        apps: true,
        surface: InputSurface::Panel,
    }
}

#[test]
fn details_is_panel_scoped_survives_release_and_returns_to_sticky_navigation() {
    let mut state = machine_with(vec![Hotkey::create(
        DETAILS_HOTKEY_ID,
        "details",
        "ctrl+enter",
    )
    .unwrap()]);
    let outside = InputPermissions {
        apps: true,
        windows: true,
        surface: InputSurface::Outside,
    };
    let panel = InputPermissions {
        surface: InputSurface::Panel,
        ..outside
    };
    let details = InputPermissions {
        surface: InputSurface::Details,
        ..outside
    };
    state.handle(key(0x1d, false, true), outside, 0, 0);
    assert!(!state.handle(key(0x1c, false, true), outside, 0, 0).consume);
    state.handle(key(0x1c, false, false), outside, 0, 0);
    state.handle(key(0x38, false, true), panel, 0, 0);
    let session = state
        .handle(key(0x0f, false, true), panel, 0, 0)
        .event
        .unwrap()
        .session;
    let trigger = key(0x1c, false, true);
    let entered = state.handle(trigger, panel, 0, 0);
    assert_eq!(entered.event.unwrap().action, InputAction::ShowDetails);
    state.accepted(trigger, entered.consume);
    let repeated = state.handle(trigger, details, 0, 0);
    assert!(repeated.consume && repeated.event.is_none());
    assert!(state.handle(key(0x1c, false, false), details, 0, 0).consume);
    assert!(state
        .handle(key(0x38, false, false), details, 0, 0)
        .event
        .is_none());
    state.handle(key(0x1d, false, false), details, 0, 0);
    for scan in [0x48, 0x50, 0x1c, 0x01] {
        let result = state.handle(key(scan, scan != 0x1c && scan != 0x01, true), details, 0, 0);
        assert!(!result.consume && result.event.is_none());
        state.handle(
            key(scan, scan != 0x1c && scan != 0x01, false),
            details,
            0,
            0,
        );
    }
    assert!(!state.handle(key(0x48, true, true), outside, 0, 0).consume);
    assert_eq!(
        state
            .handle(key(0x50, true, true), panel, 0, 0)
            .event
            .unwrap()
            .action,
        InputAction::Cycle(SwitchKind::Apps, false)
    );
    let finish = state
        .handle(key(0x1c, false, true), panel, 0, 0)
        .event
        .unwrap();
    assert_eq!(finish.session, session);
    assert_eq!(finish.action, InputAction::Finish(SwitchKind::Apps));
}

#[test]
fn a_global_binding_replaces_details_with_a_new_session() {
    let mut state = machine_with(vec![
        Hotkey::create(DETAILS_HOTKEY_ID, "details", "ctrl+enter").unwrap(),
        Hotkey::create(SEARCH_HOTKEY_ID, "search", "ctrl+space").unwrap(),
    ]);
    state.handle(key(0x38, false, true), permit(true), 0, 0);
    let first = state
        .handle(key(0x0f, false, true), permit(true), 0, 0)
        .event
        .unwrap();
    state.handle(key(0x1d, false, true), permit(true), 0, 0);
    state.handle(key(0x1c, false, true), permit(true), 0, 0);
    let next = state
        .handle(
            key(0x39, false, true),
            InputPermissions {
                apps: true,
                windows: true,
                surface: InputSurface::Details,
            },
            0,
            0,
        )
        .event
        .unwrap();
    assert!(next.session > first.session);
    assert_eq!(next.action, InputAction::Cycle(SwitchKind::Search, false));
}

#[test]
fn pause_recovery_bypasses_permissions_without_repeating_or_leaking_release() {
    let mut state = machine_with(vec![
        Hotkey::create(PAUSE_HOTKEY_ID, "pause", "ctrl+f10").unwrap()
    ]);
    let denied = InputPermissions {
        apps: false,
        windows: false,
        surface: InputSurface::Outside,
    };
    state.handle(key(0x1d, false, true), denied, 0, 0);
    let down = key(0x44, false, true);
    let first = state.handle(down, denied, 0, 0);
    assert!(first.consume);
    assert_eq!(first.event.unwrap().action, InputAction::TogglePause);
    state.accepted(down, first.consume);
    assert!(state.handle(down, denied, 0, 0).event.is_none());
    assert!(state.handle(key(0x44, false, false), denied, 0, 0).consume);
    assert!(!state.handle(key(0x1d, false, false), denied, 0, 0).consume);
    state.handle(key(0x38, false, true), denied, 0, 0);
    let normal = state.handle(key(0x0f, false, true), denied, 0, 0);
    assert!(!normal.consume && normal.event.is_none());
}

#[test]
fn search_survives_modifier_release_and_preserves_native_text_input() {
    let mut state = machine_with(vec![
        Hotkey::create(SEARCH_HOTKEY_ID, "search", "ctrl+space").unwrap()
    ]);
    state.handle(key(0x1d, false, true), permit(true), 0, 0);
    let search = state
        .handle(key(0x39, false, true), permit(true), 0, 0)
        .event
        .unwrap();
    assert_eq!(search.action, InputAction::Cycle(SwitchKind::Search, false));
    assert!(state
        .handle(key(0x1d, false, false), permit(true), 0, 0)
        .event
        .is_none());
    for scan in [0x1e, 0x0e, 0x1c, 0x01, 0x48] {
        let decision = state.handle(key(scan, scan == 0x48, true), permit(true), 0, 0);
        assert!(!decision.consume && decision.event.is_none());
    }
    state.handle(key(0x38, false, true), permit(true), 0, 0);
    let apps = state
        .handle(key(0x0f, false, true), permit(true), 0, 0)
        .event
        .unwrap();
    assert!(apps.session > search.session);
    assert_eq!(apps.action, InputAction::Cycle(SwitchKind::Apps, false));
    assert_eq!(
        state
            .handle(key(0x38, false, false), permit(true), 0, 0)
            .event
            .unwrap()
            .action,
        InputAction::Finish(SwitchKind::Apps)
    );
}

#[test]
fn apps_blacklist_is_independent_and_altgr_is_not_an_alt_binding() {
    let mut state = machine();
    let permissions = InputPermissions {
        windows: true,
        apps: false,
        surface: InputSurface::Outside,
    };
    state.handle(key(0x38, false, true), permissions, 0, 0);
    assert!(
        !state
            .handle(key(0x0f, false, true), permissions, 0, 0)
            .consume
    );
    assert!(
        state
            .handle(key(0x29, false, true), permissions, 0, 0)
            .consume
    );
    state.reset();
    state.handle(key(0x1d, false, true), permit(true), 0, 0);
    state.handle(key(0x38, true, true), permit(true), 0, 0);
    assert!(
        !state
            .handle(key(0x0f, false, true), permit(true), 0, 0)
            .consume
    );
    state.reset();
    state.observe_injected_passthrough(key(0x1d, false, true));
    state.handle(key(0x38, true, true), permit(true), 0, 0);
    assert!(
        !state
            .handle(key(0x0f, false, true), permit(true), 0, 0)
            .consume
    );
    state.observe_injected_passthrough(key(0x1d, false, false));
    assert!(
        state
            .handle(key(0x0f, false, true), permit(true), 0, 0)
            .consume
    );
}

#[test]
fn overlapping_modifiers_and_shift_release_preserve_other_side() {
    let mut state = machine();
    state.handle(key(0x38, false, true), permit(true), 0, 0);
    state.handle(key(0x38, true, true), permit(true), 0, 0);
    state.handle(key(0x2a, false, true), permit(true), 0, 0);
    state.handle(key(0x36, false, true), permit(true), 0, 0);
    state.handle(key(0x2a, false, false), permit(true), 0, 0);
    assert_eq!(
        state
            .handle(key(0x0f, false, true), permit(true), 0, 0)
            .event
            .unwrap()
            .action,
        InputAction::Cycle(SwitchKind::Apps, true)
    );
    assert!(state
        .handle(key(0x38, false, false), permit(true), 0, 0)
        .event
        .is_none());
    assert_eq!(
        state
            .handle(key(0x38, true, false), permit(true), 0, 0)
            .event
            .unwrap()
            .action,
        InputAction::Finish(SwitchKind::Apps)
    );
}

#[test]
fn esc_only_consumed_in_active_apps_and_numpad_is_not_arrow() {
    let mut state = machine();
    state.handle(key(0x38, false, true), permit(true), 0, 0);
    assert!(
        !state
            .handle(key(0x01, false, true), permit(true), 0, 0)
            .consume
    );
    state.handle(key(0x0f, false, true), permit(true), 0, 0);
    assert!(
        !state
            .handle(key(0x48, false, true), permit(true), 0, 0)
            .consume
    );
    assert!(
        state
            .handle(key(0x48, true, true), permit(true), 0, 0)
            .consume
    );
    assert_eq!(
        state
            .handle(key(0x01, false, true), permit(true), 0, 0)
            .event
            .unwrap()
            .action,
        InputAction::Cancel
    );
    assert!(
        !state
            .handle(key(0x0f, false, true), permit(true), 0, 0)
            .consume
    );
    assert!(
        state
            .handle(key(0x0f, false, true), permit(true), 1, 0)
            .consume
    );
}

#[test]
fn finish_does_not_depend_on_last_key_and_blacklist_fails_open() {
    let mut state = machine();
    state.handle(key(0x38, false, true), permit(true), 0, 0);
    assert!(
        !state
            .handle(key(0x29, false, true), permit(false), 0, 0)
            .consume
    );
    let event = state
        .handle(key(0x0f, false, true), permit(true), 0, 0)
        .event
        .unwrap();
    state.handle(key(0x1e, false, true), permit(true), 0, 0);
    assert_eq!(
        state
            .handle(key(0x38, false, false), permit(true), 0, 0)
            .event
            .unwrap()
            .session,
        event.session
    );
    state.rejected(key(0x0f, false, true));
    assert!(
        !state
            .handle(key(0x0f, false, false), permit(true), 0, event.session)
            .consume
    );
}

#[test]
fn pausing_is_not_quiescent_until_the_input_thread_acknowledges() {
    let mut activation = InputActivation::new(true);
    activation.requested = 2;
    assert!(activation.active());
    assert!(!activation.acknowledged(false));
    activation.acknowledge(2);
    assert!(!activation.active());
    assert!(activation.acknowledged(false));
    activation.requested = 5;
    assert!(!activation.acknowledged(true));
    activation.acknowledge(5);
    assert!(activation.acknowledged(true));
}

#[test]
fn requests_count_changes_and_repeat_nothing() {
    let mut activation = InputActivation::new(true);
    activation.request(true);
    assert_eq!(activation.pending(), 1);
    activation.request(false);
    assert_eq!(activation.pending(), 2);
    assert!(activation.active());
    activation.request(true);
    assert_eq!(activation.pending(), 5);
    activation.acknowledge(5);
    assert!(activation.acknowledged(true));
}

fn cycle(session: u64) -> InputEvent {
    InputEvent {
        session,
        action: InputAction::Cycle(SwitchKind::Apps, false),
    }
}

fn enqueue(queue: &mut InputDispatch, event: InputEvent, posted: bool) -> bool {
    match queue.enqueue(event, None) {
        Submission::Wake => queue.wake(posted),
        Submission::Accepted => true,
        _ => false,
    }
}

fn submit(queue: &mut InputDispatch, event: InputEvent, posted: bool) -> bool {
    match queue.submit(event, None) {
        Submission::Wake => {
            let accepted = queue.wake(posted);
            if !accepted {
                queue.cancel(event.session);
            }
            accepted
        }
        Submission::Accepted | Submission::AcceptedWake => true,
        Submission::Rejected | Submission::RejectedWake => false,
    }
}

#[test]
fn recovery_has_a_separate_slot_while_paused_or_queue_contended() {
    let mut queue = InputDispatch::with_metrics(true);
    queue.set_paused(true);
    assert!(!queue.permits(1));
    assert!(queue.take(true).is_empty());
    let recovery = InputEvent {
        session: 0,
        action: InputAction::TogglePause,
    };
    assert!(submit(&mut queue, recovery, true));
    assert!(submit(&mut queue, recovery, true));
    assert!(queue.take_pause_request());
    assert!(!queue.take_pause_request());
    queue.set_paused(false);
    assert!(queue.permits(1));
    queue.close();
    assert!(!submit(&mut queue, recovery, true));
}

#[test]
fn bounded_queue_reserves_a_terminal_slot_and_requires_ack() {
    let mut queue = InputDispatch::with_metrics(true);
    for _ in 0..INPUT_QUEUE_CAPACITY - 1 {
        assert!(enqueue(&mut queue, cycle(1), true));
    }
    assert!(!enqueue(&mut queue, cycle(1), true));
    assert!(enqueue(
        &mut queue,
        InputEvent {
            session: 1,
            action: InputAction::Finish(SwitchKind::Apps)
        },
        true
    ));
    assert_eq!(queue.status.acknowledged, 0);
    let events = queue.take(false);
    assert_eq!(events.len(), INPUT_QUEUE_CAPACITY);
    assert!(events[..INPUT_QUEUE_CAPACITY - 1]
        .iter()
        .all(|event| *event == cycle(1)));
    assert_eq!(
        events.last().unwrap().action,
        InputAction::Finish(SwitchKind::Apps)
    );
    assert_eq!(queue.queue.len(), 0);
    queue.acknowledge(1);
    assert_eq!(queue.status.acknowledged, 1);
}

#[test]
fn consumer_contention_and_failed_notifications_keep_input_for_polling() {
    let mut queue = InputDispatch::with_metrics(true);
    assert!(enqueue(&mut queue, cycle(1), true));
    assert!(
        queue.take(true).is_empty(),
        "a busy receiver must not block the UI"
    );
    assert_eq!(queue.take(false), vec![cycle(1)]);
    assert!(enqueue(&mut queue, cycle(1), false));
    assert_eq!(queue.counters.notification_deferrals, 1);
    assert_eq!(queue.take(false), vec![cycle(1)]);
    assert_eq!(queue.counters.rejected, 0);
    queue.status.revoked = 1;
    assert!(!enqueue(&mut queue, cycle(1), true));
    queue.close();
    assert!(!enqueue(&mut queue, cycle(2), true));
    assert_eq!(queue.counters.inactive_rejections, 2);
    assert_eq!(queue.counters.queue_full_rejections, 0);
}

#[test]
fn failed_native_notifications_preserve_cycle_and_finish_order() {
    let mut queue = InputDispatch::with_metrics(true);
    let finish = InputEvent {
        session: 1,
        action: InputAction::Finish(SwitchKind::Apps),
    };
    assert!(submit(&mut queue, cycle(1), false));
    assert!(submit(&mut queue, finish, false));
    assert_eq!(queue.counters.notification_deferrals, 2);
    assert_eq!(queue.take(false), vec![cycle(1), finish]);
    assert_eq!(queue.status.revoked, 0);
    assert_eq!(queue.counters.rejected, 0);
    queue.acknowledge(1);
    assert!(!queue.permits(1));
}

#[test]
fn explicit_cancel_survives_failed_notification_but_not_retirement() {
    let mut queue = InputDispatch::with_metrics(true);
    assert!(submit(
        &mut queue,
        InputEvent {
            session: 1,
            action: InputAction::Cancel,
        },
        false
    ));
    assert!(!queue.permits(1));
    queue.close();
    assert!(!submit(
        &mut queue,
        InputEvent {
            session: 2,
            action: InputAction::Cancel,
        },
        false
    ));
}

#[test]
fn a_cancellation_passes_a_full_queue() {
    let mut queue = InputDispatch::with_metrics(false);
    for _ in 0..INPUT_QUEUE_CAPACITY - 1 {
        assert!(enqueue(&mut queue, cycle(1), true));
    }
    assert!(submit(
        &mut queue,
        InputEvent {
            session: 1,
            action: InputAction::Cancel,
        },
        true
    ));
    assert_eq!(queue.status.revoked, 1);
    assert_eq!(queue.counters.rejected, 0);
    let events = queue.take(false);
    assert!(events.iter().all(|event| !queue.permits(event.session)));
}

#[test]
fn activation_rechecks_revocation_acknowledgement_and_retirement() {
    let mut queue = InputDispatch::with_metrics(true);
    assert!(!queue.permits(0));
    assert!(queue.permits(1));
    queue.cancel(1);
    assert!(
        !queue.permits(1),
        "a slow query must not activate after cancellation"
    );
    assert!(queue.permits(2));
    queue.acknowledge(2);
    assert!(
        !queue.permits(2),
        "a clicked session must ignore its queued finish"
    );
    assert!(!enqueue(&mut queue, cycle(2), true));
    assert!(queue.permits(3));
    queue.close();
    assert!(!queue.permits(3));
}

#[test]
fn surfaces_and_callbacks_are_tracked() {
    let mut queue = InputDispatch::with_metrics(true);
    queue.set_surface(InputSurface::Panel, 7);
    assert_eq!(queue.surface(7), InputSurface::Panel);
    assert_eq!(queue.surface(8), InputSurface::Outside);
    queue.set_surface(InputSurface::Details, 8);
    assert_eq!(queue.surface(7), InputSurface::Outside);
    assert_eq!(queue.surface(8), InputSurface::Details);
    queue.set_surface(InputSurface::Outside, 9);
    assert_eq!(queue.surface(0), InputSurface::Outside);
    queue.observe_callback(5);
    queue.observe_callback(3);
    assert_eq!(queue.counters.callbacks, 2);
    assert_eq!(queue.counters.max_callback_us, 5);
    assert_eq!(queue.sample_start(9), Some(9));
    assert_eq!(InputDispatch::with_metrics(false).sample_start(9), None);
}

#[test]
fn negative_code_unknown_message_null_and_unaligned_parameters_are_forwarded() {
    assert!(!can_read_keyboard_data(-1, KEY_DOWN, 1, 8));
    assert!(!can_read_keyboard_data(0, 0, 8, 8));
    assert!(!can_read_keyboard_data(0, KEY_DOWN, 0, 8));
    assert!(!can_read_keyboard_data(0, KEY_DOWN, 1, 8));
    assert!(can_read_keyboard_data(0, KEY_DOWN, 16, 8));
}

fn press(
    machine: &mut InputMachine,
    dispatch: &mut InputDispatch,
    scan: u32,
    flags: u32,
    posted: bool,
) -> bool {
    match process(
        machine,
        dispatch,
        true,
        InjectedPolicy::Passthrough,
        scan,
        flags,
        true,
        true,
        0,
        None,
    ) {
        HookStep::Finished { consume, .. } => consume,
        HookStep::Post { key, decision } => {
            conclude(machine, dispatch, key, decision, posted).0
        }
    }
}

#[test]
fn the_hook_swallows_only_what_it_delivers() {
    let mut machine = machine();
    let mut dispatch = InputDispatch::with_metrics(false);
    assert!(!press(&mut machine, &mut dispatch, 0x38, 0, true));
    assert!(press(&mut machine, &mut dispatch, 0x0f, 0, true));
    assert!(press(&mut machine, &mut dispatch, 0x0f, 0x80, true));
    assert_eq!(dispatch.take(false).len(), 1);
    dispatch.close();
    assert!(!press(&mut machine, &mut dispatch, 0x0f, 0, true));
}

#[test]
fn the_hook_passes_injected_keys_and_inactive_input() {
    let mut machine = machine();
    let mut dispatch = InputDispatch::with_metrics(false);
    assert!(!press(&mut machine, &mut dispatch, 0x38, 0, true));
    assert!(!press(&mut machine, &mut dispatch, 0x0f, 0x10, true));
    assert!(dispatch.take(false).is_empty());
    let step = process(
        &mut machine,
        &mut dispatch,
        false,
        InjectedPolicy::Handle,
        0x0f,
        0,
        true,
        true,
        0,
        None,
    );
    assert_eq!(
        step,
        HookStep::Finished {
            consume: false,
            wake: false
        }
    );
}

#[test]
fn applying_a_pause_cancels_the_open_session() {
    let mut machine = machine();
    let mut dispatch = InputDispatch::with_metrics(false);
    let mut activation = InputActivation::new(true);
    let held = [false; 8];
    assert!(!apply_activation(&mut activation, &mut machine, &mut dispatch, &held));
    assert!(!press(&mut machine, &mut dispatch, 0x38, 0, true));
    assert!(press(&mut machine, &mut dispatch, 0x0f, 0, true));
    activation.request(false);
    assert!(apply_activation(&mut activation, &mut machine, &mut dispatch, &held));
    assert!(activation.acknowledged(false));
    assert_eq!(dispatch.status.revoked, 1);
    activation.request(true);
    let mut held = [false; 8];
    held[0] = true;
    assert!(!apply_activation(&mut activation, &mut machine, &mut dispatch, &held));
    assert!(press(&mut machine, &mut dispatch, 0x0f, 0, true));
}
