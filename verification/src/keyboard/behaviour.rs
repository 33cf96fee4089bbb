//! What key presses and releases do.

use vstd::prelude::*;

use crate::config::hotkey::{
    Hotkey, DETAILS_HOTKEY_ID, PAUSE_HOTKEY_ID, SEARCH_HOTKEY_ID, SWITCH_APPS_HOTKEY_ID,
    SWITCH_WINDOWS_HOTKEY_ID,
};
use crate::keyboard::state::{
    slot, Decision, Gesture, InputAction, InputPermissions, InputSurface, KeyInput, Machine, SwitchKind,
};

verus! {

/// The number of a key: its scan code, and 256 more for an extended key.
pub open spec fn key_number(key: KeyInput) -> int {
    if key.extended {
        key.scan + 256
    } else {
        key.scan as int
    }
}

/// Whether a key has a scan code of one byte other than zero.
pub open spec fn known_key(key: KeyInput) -> bool {
    1 <= key.scan <= 255
}

/// The keys that are held after a key transition.
pub open spec fn held_after(machine: Machine, key: KeyInput) -> Seq<bool> {
    machine.pressed.update(key_number(key), key.down)
}

/// Whether the modifier of a binding is held: either Alt key, either Control key, or either
/// Windows key.
pub open spec fn modifier_is_held(held: Seq<bool>, modifier: u32) -> bool {
    ||| modifier == 0x38 && (held[0x38] || held[0x138])
    ||| modifier == 0x1d && (held[0x1d] || held[0x11d])
    ||| modifier == 0x5b && (held[0x15b] || held[0x15c])
}

/// Whether AltGr is held: the right Alt key together with the left Control key, which the
/// keyboard layout may send by itself.
pub open spec fn altgr_is_held(held: Seq<bool>, injected_control: bool) -> bool {
    held[0x138] && (held[0x1d] || injected_control)
}

/// Whether a key strikes a binding: it is the binding's key and not one of the numeric keypad, the
/// modifier is held, and AltGr stands for neither Alt nor Control.
pub open spec fn strikes(machine: Machine, key: KeyInput, hotkey: Hotkey) -> bool {
    let held = held_after(machine, key);
    &&& key.down
    &&& hotkey.code == key.scan
    &&& key.extended || key.scan < 0x47 || key.scan > 0x53
    &&& modifier_is_held(held, hotkey.modifier@[0])
    &&& hotkey.modifier@[0] == 0x5b || !altgr_is_held(held, machine.injected_control)
}

/// Whether a key strikes one of the bindings of a function.
pub open spec fn strikes_function(machine: Machine, key: KeyInput, id: u32) -> bool {
    exists|i: int|
        0 <= i < machine.hotkeys.len() && (#[trigger] machine.hotkeys[i]).id == id && strikes(
            machine,
            key,
            machine.hotkeys[i],
        )
}

/// What a binding switches between; nothing for the bindings that do not switch.
pub open spec fn switched_kind(hotkey: Hotkey) -> Option<SwitchKind> {
    if hotkey.id == SWITCH_WINDOWS_HOTKEY_ID {
        Some(SwitchKind::Windows)
    } else if hotkey.id == SWITCH_APPS_HOTKEY_ID {
        Some(SwitchKind::Apps)
    } else if hotkey.id == SEARCH_HOTKEY_ID {
        Some(SwitchKind::Search)
    } else {
        None
    }
}

/// Whether the foreground application permits a kind of switching.
pub open spec fn is_permitted(kind: SwitchKind, permissions: InputPermissions) -> bool {
    match kind {
        SwitchKind::Windows => permissions.windows,
        SwitchKind::Apps => permissions.apps,
        SwitchKind::Search => permissions.apps,
    }
}

/// Whether a key strikes a binding that switches and is permitted.
pub open spec fn strikes_switch(
    machine: Machine,
    key: KeyInput,
    permissions: InputPermissions,
    hotkey: Hotkey,
) -> bool {
    &&& switched_kind(hotkey) matches Some(kind) && is_permitted(kind, permissions)
    &&& strikes(machine, key, hotkey)
}

/// Whether the binding at a place is the first one that a key strikes for switching.
pub open spec fn first_struck(
    machine: Machine,
    key: KeyInput,
    permissions: InputPermissions,
    i: int,
) -> bool {
    &&& 0 <= i < machine.hotkeys.len()
    &&& strikes_switch(machine, key, permissions, machine.hotkeys[i])
    &&& forall|k: int|
        0 <= k < i ==> !strikes_switch(machine, key, permissions, #[trigger] machine.hotkeys[k])
}

/// Whether a key strikes no binding for switching.
pub open spec fn strikes_no_switch(
    machine: Machine,
    key: KeyInput,
    permissions: InputPermissions,
) -> bool {
    forall|k: int|
        0 <= k < machine.hotkeys.len() ==> !strikes_switch(
            machine,
            key,
            permissions,
            #[trigger] machine.hotkeys[k],
        )
}

/// Whether a Shift key is held.
pub open spec fn shift_is_held(held: Seq<bool>) -> bool {
    held[0x2a] || held[0x36]
}

/// Whether the session of a gesture is neither acknowledged nor revoked.
pub open spec fn is_live(gesture: Gesture, acknowledged: u64, revoked: u64) -> bool {
    gesture.session > acknowledged && gesture.session > revoked
}

/// The session that is open when a key arrives.
pub open spec fn live_session(machine: Machine, acknowledged: u64, revoked: u64) -> Option<
    Gesture,
> {
    match machine.active {
        Some(gesture) => if is_live(gesture, acknowledged, revoked) {
            Some(gesture)
        } else {
            None
        },
        None => None,
    }
}

/// Whether a decision causes an action.
pub open spec fn causes(decision: Decision, action: InputAction) -> bool {
    decision.event is Some && (decision.event->0).action == action
}

/// Whether a decision causes an action of a session.
pub open spec fn causes_in(decision: Decision, session: u64, action: InputAction) -> bool {
    decision.event is Some && (decision.event->0).session == session && (decision.event->0).action
        == action
}

proof fn slots_are_numbers(key: KeyInput)
    ensures
        slot(key) == (if known_key(key) {
            Some(key_number(key))
        } else {
            None
        }),
        known_key(key) ==> 0 < key_number(key) < 512,
{
}

proof fn noted_state(machine: Machine, key: KeyInput, acknowledged: u64, revoked: u64) -> (next:
    Machine)
    requires
        machine.valid(),
        known_key(key),
    ensures
        next == machine.noted(key_number(key), key.down, acknowledged, revoked),
        next.hotkeys == machine.hotkeys,
        next.pressed == held_after(machine, key),
        next.consumed == machine.consumed,
        next.next_session == machine.next_session,
        next.injected_control == machine.injected_control,
        next.active == live_session(machine, acknowledged, revoked),
        key.down ==> forall|i: int|
            0 <= i < machine.hotkeys.len() ==> (next.completes(#[trigger] machine.hotkeys[i], key)
                == strikes(machine, key, machine.hotkeys[i])),
        key.down ==> forall|id: u32| #[trigger]
            next.completes_any(id, key) == strikes_function(machine, key, id),
{
    let next = machine.noted(key_number(key), key.down, acknowledged, revoked);
    if key.down {
        assert forall|i: int| 0 <= i < machine.hotkeys.len() implies (next.completes(
            #[trigger] machine.hotkeys[i],
            key,
        ) == strikes(machine, key, machine.hotkeys[i])) by {}
        assert forall|id: u32| #[trigger]
            next.completes_any(id, key) == strikes_function(machine, key, id) by {
            if next.completes_any(id, key) {
                let i = choose|i: int|
                    0 <= i < next.hotkeys.len() && (#[trigger] next.hotkeys[i]).id == id
                        && next.completes(next.hotkeys[i], key);
                assert(machine.hotkeys[i].id == id && strikes(machine, key, machine.hotkeys[i]));
            }
            if strikes_function(machine, key, id) {
                let i = choose|i: int|
                    0 <= i < machine.hotkeys.len() && (#[trigger] machine.hotkeys[i]).id == id
                        && strikes(machine, key, machine.hotkeys[i]);
                assert(next.hotkeys[i].id == id && next.completes(next.hotkeys[i], key));
            }
        }
    }
    next
}

proof fn first_is_found(
    machine: Machine,
    next: Machine,
    key: KeyInput,
    permissions: InputPermissions,
    from: int,
)
    requires
        next.hotkeys == machine.hotkeys,
        0 <= from <= machine.hotkeys.len(),
        forall|i: int|
            0 <= i < machine.hotkeys.len() ==> (next.completes(#[trigger] machine.hotkeys[i], key)
                == strikes(machine, key, machine.hotkeys[i])),
        forall|k: int|
            0 <= k < from ==> !strikes_switch(
                machine,
                key,
                permissions,
                #[trigger] machine.hotkeys[k],
            ),
    ensures
        match next.first_switch(key, permissions, from) {
            Some(hotkey) => exists|i: int| #[trigger]
                first_struck(machine, key, permissions, i) && hotkey == machine.hotkeys[i],
            None => strikes_no_switch(machine, key, permissions),
        },
    decreases machine.hotkeys.len() - from,
{
    if from < machine.hotkeys.len() {
        let hotkey = machine.hotkeys[from];
        assert(next.completes(hotkey, key) == strikes(machine, key, hotkey));
        if next.switches(from, key, permissions) {
            assert(first_struck(machine, key, permissions, from));
        } else {
            first_is_found(machine, next, key, permissions, from + 1);
        }
    }
}

proof fn struck_is_unique(
    machine: Machine,
    key: KeyInput,
    permissions: InputPermissions,
    i: int,
    j: int,
)
    requires
        first_struck(machine, key, permissions, i),
        first_struck(machine, key, permissions, j),
    ensures
        i == j,
{
    if i < j {
        assert(!strikes_switch(machine, key, permissions, machine.hotkeys[i]));
    } else if j < i {
        assert(!strikes_switch(machine, key, permissions, machine.hotkeys[j]));
    }
}

proof fn switch_of(
    machine: Machine,
    key: KeyInput,
    permissions: InputPermissions,
    acknowledged: u64,
    revoked: u64,
)
    requires
        machine.valid(),
        known_key(key),
        key.down,
    ensures
        ({
            let next = machine.noted(key_number(key), true, acknowledged, revoked);
            &&& forall|i: int| #[trigger]
                first_struck(machine, key, permissions, i) ==> next.first_switch(
                    key,
                    permissions,
                    0,
                ) == Some(machine.hotkeys[i])
            &&& next.first_switch(key, permissions, 0) is None <==> strikes_no_switch(
                machine,
                key,
                permissions,
            )
            &&& next.first_switch(key, permissions, 0) is Some ==> exists|i: int| #[trigger]
                first_struck(machine, key, permissions, i)
        }),
{
    let next = noted_state(machine, key, acknowledged, revoked);
    first_is_found(machine, next, key, permissions, 0);
    assert forall|i: int| #[trigger]
        first_struck(machine, key, permissions, i) implies next.first_switch(key, permissions, 0)
        == Some(machine.hotkeys[i]) by {
        assert(!strikes_no_switch(machine, key, permissions)) by {
            assert(strikes_switch(machine, key, permissions, machine.hotkeys[i]));
        }
        let j = choose|j: int| #[trigger]
            first_struck(machine, key, permissions, j) && next.first_switch(key, permissions, 0)
                == Some(machine.hotkeys[j]);
        struck_is_unique(machine, key, permissions, i, j);
    }
}

/// Every key transition is noted, under the number of its key, and changes no other key. A key
/// with an unknown scan code is let through and changes nothing. The bindings never change, and a
/// press takes nothing back that was swallowed before.
pub proof fn keys_are_noted(
    machine: Machine,
    key: KeyInput,
    permissions: InputPermissions,
    acknowledged: u64,
    revoked: u64,
)
    requires
        machine.valid(),
    ensures
        ({
            let (after, decision) = machine.step(key, permissions, acknowledged, revoked);
            &&& known_key(key) ==> after.pressed == held_after(machine, key)
            &&& !known_key(key) ==> after == machine && !decision.consume && decision.event is None
            &&& after.hotkeys == machine.hotkeys
            &&& after.injected_control == machine.injected_control
            &&& key.down ==> after.consumed == machine.consumed
            &&& forall|i: int|
                0 <= i < 512 && i != key_number(key) ==> after.consumed[i] == machine.consumed[i]
        }),
{
    slots_are_numbers(key);
    if known_key(key) {
        let next = noted_state(machine, key, acknowledged, revoked);
    }
}

/// Which way a switch goes: a binding for switching goes back exactly while a Shift key is held,
/// in a session that it opens and in one that is open, and switches between what the first struck
/// binding stands for. Without such a binding only an extended arrow key of an open panel
/// switches, between applications, and it goes back exactly for Up and Left.
pub proof fn switch_direction(
    machine: Machine,
    key: KeyInput,
    permissions: InputPermissions,
    acknowledged: u64,
    revoked: u64,
)
    requires
        machine.valid(),
    ensures
        machine.step(key, permissions, acknowledged, revoked).1.event matches Some(event)
            ==> event.action matches InputAction::Cycle(kind, reverse) ==> {
            let held = held_after(machine, key);
            &&& known_key(key) && key.down
            &&& !strikes_no_switch(machine, key, permissions) ==> reverse == shift_is_held(held)
            &&& forall|i: int| #[trigger]
                first_struck(machine, key, permissions, i) ==> switched_kind(machine.hotkeys[i])
                    == Some(kind)
            &&& strikes_no_switch(machine, key, permissions) ==> {
                &&& key.extended
                &&& kind == SwitchKind::Apps
                &&& reverse <==> key.scan == 0x48 || key.scan == 0x4b
                &&& !reverse <==> key.scan == 0x4d || key.scan == 0x50
                &&& live_session(machine, acknowledged, revoked) is Some
                &&& event.session == machine.active->0.session
            }
        },
{
    slots_are_numbers(key);
    if known_key(key) {
        let next = noted_state(machine, key, acknowledged, revoked);
        if key.down {
            switch_of(machine, key, permissions, acknowledged, revoked);
        }
    }
}

/// A pause binding is the first thing that counts: the event comes exactly for its first press,
/// its repeats are swallowed too, and the open session stays as it is.
pub proof fn pausing(
    machine: Machine,
    key: KeyInput,
    permissions: InputPermissions,
    acknowledged: u64,
    revoked: u64,
)
    requires
        machine.valid(),
    ensures
        ({
            let (after, decision) = machine.step(key, permissions, acknowledged, revoked);
            let struck = known_key(key) && strikes_function(machine, key, PAUSE_HOTKEY_ID);
            &&& causes(decision, InputAction::TogglePause) <==> struck
                && !machine.pressed[key_number(key)]
            &&& causes(decision, InputAction::TogglePause) ==> (decision.event->0).session == 0
            &&& struck ==> {
                &&& decision.consume
                &&& machine.pressed[key_number(key)] ==> decision.event is None
                &&& after.active == live_session(machine, acknowledged, revoked)
                &&& after.next_session == machine.next_session
            }
        }),
{
    slots_are_numbers(key);
    if known_key(key) {
        let next = noted_state(machine, key, acknowledged, revoked);
        if !key.down {
            assert(!strikes_function(machine, key, PAUSE_HOTKEY_ID));
        }
    }
}

/// With no session open, a press of a permitted switch binding opens the next session for the
/// first struck binding. It is swallowed, and the session waits for the release of the binding's
/// modifier, but for a search, which stays open. Any other press is let through.
pub proof fn opening_a_session(
    machine: Machine,
    key: KeyInput,
    permissions: InputPermissions,
    acknowledged: u64,
    revoked: u64,
)
    requires
        machine.valid(),
        known_key(key),
        key.down,
        live_session(machine, acknowledged, revoked) is None,
        !strikes_function(machine, key, PAUSE_HOTKEY_ID),
        machine.next_session < u64::MAX,
    ensures
        ({
            let (after, decision) = machine.step(key, permissions, acknowledged, revoked);
            &&& forall|i: int| #[trigger]
                first_struck(machine, key, permissions, i) ==> {
                    let hotkey = machine.hotkeys[i];
                    let kind = switched_kind(hotkey)->0;
                    &&& decision.consume
                    &&& decision.event matches Some(event) && event.session
                        == machine.next_session + 1 && event.action == InputAction::Cycle(
                        kind,
                        shift_is_held(held_after(machine, key)),
                    )
                    &&& after.next_session == machine.next_session + 1
                    &&& after.active matches Some(gesture) && gesture.session
                        == after.next_session && gesture.kind == kind && gesture.modifier
                        == hotkey.modifier@[0] && !gesture.finishing && (gesture.sticky <==> kind
                        == SwitchKind::Search)
                }
            &&& strikes_no_switch(machine, key, permissions) ==> {
                &&& !decision.consume
                &&& decision.event is None
                &&& after.active is None
                &&& after.next_session == machine.next_session
            }
        }),
{
    let next = noted_state(machine, key, acknowledged, revoked);
    switch_of(machine, key, permissions, acknowledged, revoked);
}

/// Whether a key press is handled within the open session: nothing comes before it.
pub open spec fn within(
    machine: Machine,
    key: KeyInput,
    permissions: InputPermissions,
    acknowledged: u64,
    revoked: u64,
    gesture: Gesture,
) -> bool {
    &&& known_key(key)
    &&& live_session(machine, acknowledged, revoked) == Some(gesture)
    &&& !gesture.finishing
    &&& is_permitted(gesture.kind, permissions)
    &&& gesture.sticky || modifier_is_held(held_after(machine, key), gesture.modifier)
    &&& !(key.down && strikes_function(machine, key, PAUSE_HOTKEY_ID))
}

/// Whether a key press belongs to the view of details: it strikes its binding in an open panel of
/// applications, or repeats the press that opened the view.
pub open spec fn is_for_details(
    machine: Machine,
    key: KeyInput,
    permissions: InputPermissions,
    gesture: Gesture,
) -> bool {
    ||| permissions.surface == InputSurface::Panel && permissions.apps && gesture.kind
        == SwitchKind::Apps && strikes_function(machine, key, DETAILS_HOTKEY_ID)
    ||| machine.pressed[key_number(key)] && machine.consumed[key_number(key)] && gesture.sticky
        && exists|i: int|
        0 <= i < machine.hotkeys.len() && (#[trigger] machine.hotkeys[i]).id == DETAILS_HOTKEY_ID
            && machine.hotkeys[i].code == key.scan
}

/// A switch binding with the modifier of the open session goes on within it: the session keeps
/// its number and takes over the kind of the binding. One with another modifier is let through.
/// A session that stays open is replaced by a new one, unless both search; a search replaces any
/// session that is none.
pub proof fn going_on_in_a_session(
    machine: Machine,
    key: KeyInput,
    permissions: InputPermissions,
    acknowledged: u64,
    revoked: u64,
    gesture: Gesture,
    i: int,
)
    requires
        machine.valid(),
        key.down,
        within(machine, key, permissions, acknowledged, revoked, gesture),
        !is_for_details(machine, key, permissions, gesture),
        first_struck(machine, key, permissions, i),
        machine.next_session < u64::MAX,
    ensures
        ({
            let (after, decision) = machine.step(key, permissions, acknowledged, revoked);
            let hotkey = machine.hotkeys[i];
            let kind = switched_kind(hotkey)->0;
            let both_search = kind == SwitchKind::Search && gesture.kind == SwitchKind::Search;
            let either_search = kind == SwitchKind::Search || gesture.sticky;
            let reverse = shift_is_held(held_after(machine, key));
            if either_search && !both_search {
                &&& decision.consume
                &&& decision.event matches Some(event) && event.session == machine.next_session + 1
                    && event.action == InputAction::Cycle(kind, reverse)
                &&& after.next_session == machine.next_session + 1
                &&& after.active matches Some(g) && g.session == after.next_session && g.kind
                    == kind && g.modifier == hotkey.modifier@[0] && !g.finishing && (g.sticky <==>
                kind == SwitchKind::Search)
            } else if gesture.modifier == hotkey.modifier@[0] {
                &&& decision.consume
                &&& decision.event matches Some(event) && event.session == gesture.session
                    && event.action == InputAction::Cycle(kind, reverse)
                &&& after.next_session == machine.next_session
                &&& after.active matches Some(g) && g.session == gesture.session && g.kind == kind
                    && g.modifier == gesture.modifier && !g.finishing && g.sticky == gesture.sticky
            } else {
                &&& !decision.consume
                &&& decision.event is None
                &&& after.next_session == machine.next_session
                &&& after.active == Some(gesture)
            }
        }),
{
    let next = noted_state(machine, key, acknowledged, revoked);
    switch_of(machine, key, permissions, acknowledged, revoked);
    no_details(machine, next, key, permissions, gesture);
}

proof fn no_details(
    machine: Machine,
    next: Machine,
    key: KeyInput,
    permissions: InputPermissions,
    gesture: Gesture,
)
    requires
        next.hotkeys == machine.hotkeys,
        !is_for_details(machine, key, permissions, gesture),
    ensures
        machine.pressed[key_number(key)] && machine.consumed[key_number(key)] && gesture.sticky
            ==> !next.binds_code(DETAILS_HOTKEY_ID, key.scan),
{
    if machine.pressed[key_number(key)] && machine.consumed[key_number(key)] && gesture.sticky
        && next.binds_code(DETAILS_HOTKEY_ID, key.scan) {
        let i = choose|i: int|
            0 <= i < next.hotkeys.len() && (#[trigger] next.hotkeys[i]).id == DETAILS_HOTKEY_ID
                && next.hotkeys[i].code == key.scan;
        assert(machine.hotkeys[i].id == DETAILS_HOTKEY_ID);
    }
}

/// A session ends where its kind is no longer permitted, which cancels it, or else where the
/// modifier that it waits for is held no more, which finishes it. The key itself is let through.
/// Both come before everything but the pause binding, for every key.
pub proof fn ending_a_session(
    machine: Machine,
    key: KeyInput,
    permissions: InputPermissions,
    acknowledged: u64,
    revoked: u64,
    gesture: Gesture,
)
    requires
        machine.valid(),
        known_key(key),
        live_session(machine, acknowledged, revoked) == Some(gesture),
        !gesture.finishing,
        !strikes_function(machine, key, PAUSE_HOTKEY_ID),
    ensures
        ({
            let (after, decision) = machine.step(key, permissions, acknowledged, revoked);
            let ended = Some(Gesture { finishing: true, ..gesture });
            let waits = !gesture.sticky && !modifier_is_held(
                held_after(machine, key),
                gesture.modifier,
            );
            &&& !is_permitted(gesture.kind, permissions) ==> {
                &&& causes_in(decision, gesture.session, InputAction::Cancel)
                &&& !decision.consume
                &&& after.active == ended
            }
            &&& is_permitted(gesture.kind, permissions) && waits ==> {
                &&& causes_in(decision, gesture.session, InputAction::Finish(gesture.kind))
                &&& !decision.consume
                &&& after.active == ended
            }
        }),
{
    let next = noted_state(machine, key, acknowledged, revoked);
}

/// Nothing else finishes or cancels: a finish comes from a modifier that is held no more, or from
/// Enter in a panel of applications that stays open; a cancel from a kind that is not permitted,
/// or from Escape in a panel of applications. Each names the open session.
pub proof fn endings_have_a_cause(
    machine: Machine,
    key: KeyInput,
    permissions: InputPermissions,
    acknowledged: u64,
    revoked: u64,
)
    requires
        machine.valid(),
    ensures
        ({
            let (after, decision) = machine.step(key, permissions, acknowledged, revoked);
            &&& decision.event matches Some(event) ==> event.action matches InputAction::Finish(
                kind,
            ) ==> {
                let gesture = machine.active->0;
                &&& live_session(machine, acknowledged, revoked) is Some
                &&& !gesture.finishing
                &&& event.session == gesture.session
                &&& kind == gesture.kind
                &&& if gesture.sticky {
                    key.down && key.scan == 0x1c && kind == SwitchKind::Apps && permissions.surface
                        == InputSurface::Panel && decision.consume
                } else {
                    !modifier_is_held(held_after(machine, key), gesture.modifier)
                        && !decision.consume
                }
            }
            &&& causes(decision, InputAction::Cancel) ==> {
                let gesture = machine.active->0;
                &&& live_session(machine, acknowledged, revoked) is Some
                &&& !gesture.finishing
                &&& (decision.event->0).session == gesture.session
                &&& if is_permitted(gesture.kind, permissions) {
                    key.down && key.scan == 0x01 && gesture.kind == SwitchKind::Apps
                        && decision.consume && (!gesture.sticky || permissions.surface
                        == InputSurface::Panel)
                } else {
                    !decision.consume
                }
            }
        }),
{
    slots_are_numbers(key);
    if known_key(key) {
        let next = noted_state(machine, key, acknowledged, revoked);
    }
}

/// Within a session a press that strikes no switch binding and is not for the details acts on an
/// open panel of applications alone: Escape cancels, Enter finishes a panel that stays open, the
/// extended arrow keys switch, and they are swallowed. Every other press is let through, and the
/// session stays as it is.
pub proof fn navigating_the_panel(
    machine: Machine,
    key: KeyInput,
    permissions: InputPermissions,
    acknowledged: u64,
    revoked: u64,
    gesture: Gesture,
)
    requires
        machine.valid(),
        key.down,
        within(machine, key, permissions, acknowledged, revoked, gesture),
        !is_for_details(machine, key, permissions, gesture),
        strikes_no_switch(machine, key, permissions),
    ensures
        ({
            let (after, decision) = machine.step(key, permissions, acknowledged, revoked);
            let panel = gesture.kind == SwitchKind::Apps && (!gesture.sticky || permissions.surface
                == InputSurface::Panel);
            let ended = Some(Gesture { finishing: true, ..gesture });
            if panel && key.scan == 0x01 {
                &&& causes_in(decision, gesture.session, InputAction::Cancel)
                &&& decision.consume
                &&& after.active == ended
            } else if panel && key.scan == 0x1c && gesture.sticky {
                &&& causes_in(decision, gesture.session, InputAction::Finish(SwitchKind::Apps))
                &&& decision.consume
                &&& after.active == ended
            } else if panel && key.extended && (key.scan == 0x48 || key.scan == 0x4b) {
                &&& causes_in(
                    decision,
                    gesture.session,
                    InputAction::Cycle(SwitchKind::Apps, true),
                )
                &&& decision.consume
                &&& after.active == Some(gesture)
            } else if panel && key.extended && (key.scan == 0x4d || key.scan == 0x50) {
                &&& causes_in(
                    decision,
                    gesture.session,
                    InputAction::Cycle(SwitchKind::Apps, false),
                )
                &&& decision.consume
                &&& after.active == Some(gesture)
            } else {
                &&& decision.event is None
                &&& !decision.consume
                &&& after.active == Some(gesture)
            }
        }),
{
    let next = noted_state(machine, key, acknowledged, revoked);
    switch_of(machine, key, permissions, acknowledged, revoked);
    no_details(machine, next, key, permissions, gesture);
}

/// The details binding opens the view of details once for each press, in a panel of applications
/// that has the focus. It is swallowed, with its repeats, and the session stays open from there
/// on without its modifier.
pub proof fn showing_details(
    machine: Machine,
    key: KeyInput,
    permissions: InputPermissions,
    acknowledged: u64,
    revoked: u64,
    gesture: Gesture,
)
    requires
        machine.valid(),
        key.down,
        within(machine, key, permissions, acknowledged, revoked, gesture),
    ensures
        ({
            let (after, decision) = machine.step(key, permissions, acknowledged, revoked);
            let asked = permissions.surface == InputSurface::Panel && gesture.kind
                == SwitchKind::Apps && strikes_function(machine, key, DETAILS_HOTKEY_ID);
            &&& causes(decision, InputAction::ShowDetails) <==> asked
                && !machine.pressed[key_number(key)]
            &&& causes(decision, InputAction::ShowDetails) ==> {
                &&& (decision.event->0).session == gesture.session
                &&& after.active == Some(Gesture { sticky: true, ..gesture })
            }
            &&& is_for_details(machine, key, permissions, gesture) ==> {
                &&& decision.consume
                &&& machine.pressed[key_number(key)] ==> decision.event is None
                &&& after.active matches Some(g) && g.session == gesture.session && g.sticky
            }
        }),
{
    let next = noted_state(machine, key, acknowledged, revoked);
    switch_of(machine, key, permissions, acknowledged, revoked);
    if is_for_details(machine, key, permissions, gesture) {
        if machine.pressed[key_number(key)] && machine.consumed[key_number(key)] && gesture.sticky {
            if next.binds_code(DETAILS_HOTKEY_ID, key.scan) {
            } else {
                assert forall|i: int|
                    0 <= i < machine.hotkeys.len() && (#[trigger] machine.hotkeys[i]).id
                        == DETAILS_HOTKEY_ID implies machine.hotkeys[i].code != key.scan by {
                    assert(next.hotkeys[i].id == DETAILS_HOTKEY_ID);
                }
            }
        }
    } else {
        no_details(machine, next, key, permissions, gesture);
    }
}

/// Outside of a permitted open session nothing asks for the details.
pub proof fn details_need_a_session(
    machine: Machine,
    key: KeyInput,
    permissions: InputPermissions,
    acknowledged: u64,
    revoked: u64,
)
    requires
        machine.valid(),
        causes(
            machine.step(key, permissions, acknowledged, revoked).1,
            InputAction::ShowDetails,
        ),
    ensures
        key.down,
        live_session(machine, acknowledged, revoked) is Some,
        within(machine, key, permissions, acknowledged, revoked, machine.active->0),
        permissions.surface == InputSurface::Panel,
        strikes_function(machine, key, DETAILS_HOTKEY_ID),
{
    slots_are_numbers(key);
    let next = noted_state(machine, key, acknowledged, revoked);
    switch_of(machine, key, permissions, acknowledged, revoked);
}

/// A release that ends no session is swallowed exactly if the press was, and this is forgotten
/// with it. It causes no event and leaves the session as it is.
pub proof fn releasing_a_key(
    machine: Machine,
    key: KeyInput,
    permissions: InputPermissions,
    acknowledged: u64,
    revoked: u64,
)
    requires
        machine.valid(),
        known_key(key),
        !key.down,
        live_session(machine, acknowledged, revoked) matches Some(gesture) ==> gesture.finishing
            || within(machine, key, permissions, acknowledged, revoked, gesture),
    ensures
        ({
            let (after, decision) = machine.step(key, permissions, acknowledged, revoked);
            &&& decision.consume == machine.consumed[key_number(key)]
            &&& decision.event is None
            &&& !after.consumed[key_number(key)]
            &&& after.active == live_session(machine, acknowledged, revoked)
            &&& after.next_session == machine.next_session
        }),
{
    let next = noted_state(machine, key, acknowledged, revoked);
}

/// A session that is finishing lets every press through, but for the pause binding.
pub proof fn finishing_lets_through(
    machine: Machine,
    key: KeyInput,
    permissions: InputPermissions,
    acknowledged: u64,
    revoked: u64,
    gesture: Gesture,
)
    requires
        machine.valid(),
        known_key(key),
        key.down,
        live_session(machine, acknowledged, revoked) == Some(gesture),
        gesture.finishing,
        !strikes_function(machine, key, PAUSE_HOTKEY_ID),
    ensures
        ({
            let (after, decision) = machine.step(key, permissions, acknowledged, revoked);
            &&& !decision.consume
            &&& decision.event is None
            &&& after.active == Some(gesture)
        }),
{
    let next = noted_state(machine, key, acknowledged, revoked);
}

}
