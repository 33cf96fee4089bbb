//! The key event state machine: which keys are swallowed and which switch events they cause.

use vstd::prelude::*;

use crate::config::hotkey::{
    Hotkey, DETAILS_HOTKEY_ID, PAUSE_HOTKEY_ID, SEARCH_HOTKEY_ID, SWITCH_APPS_HOTKEY_ID,
    SWITCH_WINDOWS_HOTKEY_ID,
};

verus! {

/// What a gesture switches between.
#[derive(Debug, Clone, Copy, PartialEq, Eq, Structural)]
pub enum SwitchKind {
    Apps,
    Windows,
    Search,
}

/// The surface of the switcher that has the keyboard focus.
#[derive(Debug, Clone, Copy, PartialEq, Eq, Structural)]
pub enum InputSurface {
    Outside,
    Panel,
    Details,
}

/// What the foreground application permits.
#[derive(Debug, Clone, Copy, PartialEq, Eq, Structural)]
pub struct InputPermissions {
    pub windows: bool,
    pub apps: bool,
    pub surface: InputSurface,
}

/// What the switcher has to do.
#[derive(Debug, Clone, Copy, PartialEq, Eq, Structural)]
pub enum InputAction {
    Cycle(SwitchKind, bool),
    Finish(SwitchKind),
    Cancel,
    TogglePause,
    ShowDetails,
}

/// An action of one switching session; session zero is a control command.
#[derive(Debug, Clone, Copy, PartialEq, Eq, Structural)]
pub struct InputEvent {
    pub session: u64,
    pub action: InputAction,
}

/// One key transition.
#[derive(Debug, Clone, Copy, PartialEq, Eq, Structural)]
pub struct KeyInput {
    pub scan: u32,
    pub extended: bool,
    pub down: bool,
}

/// Whether the key is swallowed and which event it causes.
#[derive(Debug, Clone, Copy, PartialEq, Eq, Structural)]
pub struct Decision {
    pub consume: bool,
    pub event: Option<InputEvent>,
}

/// A switching session in progress.
#[derive(Debug, Clone, Copy, PartialEq, Eq, Structural)]
pub struct Gesture {
    pub session: u64,
    pub kind: SwitchKind,
    pub modifier: u32,
    pub finishing: bool,
    pub sticky: bool,
}

/// Number of key slots: every scan code, plain and extended.
pub const KEY_SLOTS: usize = 512;

/// The slot of a key; keys outside the table have none.
pub open spec fn slot(key: KeyInput) -> Option<int> {
    if key.scan == 0 || key.scan > 255 {
        None
    } else {
        Some(key.scan + (if key.extended {
            256int
        } else {
            0int
        }))
    }
}

/// The state of the machine.
#[verifier::ext_equal]
pub struct Machine {
    pub hotkeys: Seq<Hotkey>,
    pub pressed: Seq<bool>,
    pub consumed: Seq<bool>,
    pub active: Option<Gesture>,
    pub next_session: u64,
    pub injected_control: bool,
}

/// A decision that lets the key through.
pub open spec fn pass() -> Decision {
    Decision { consume: false, event: None }
}

/// An event of a session.
pub open spec fn event(session: u64, action: InputAction) -> Option<InputEvent> {
    Some(InputEvent { session, action })
}

/// Whether either key of a modifier is held.
pub open spec fn modifier_held(pressed: Seq<bool>, modifier: u32) -> bool {
    if modifier == 0x38 || modifier == 0x1d {
        pressed[modifier as int] || pressed[modifier + 256]
    } else if modifier == 0x5b {
        pressed[0x15b] || pressed[0x15c]
    } else {
        false
    }
}

impl Machine {
    /// The invariant: a slot for every key, and sessions that were handed out.
    pub open spec fn valid(self) -> bool {
        &&& self.pressed.len() == KEY_SLOTS
        &&& self.consumed.len() == KEY_SLOTS
        &&& match self.active {
            Some(gesture) => 1 <= gesture.session <= self.next_session,
            None => true,
        }
    }

    /// Whether the right Alt key acts as AltGr: Control is held or synthesised with it.
    pub open spec fn altgr(self) -> bool {
        self.pressed[0x138] && (self.pressed[0x1d] || self.injected_control)
    }

    /// Whether a key completes a binding whose modifier is held.
    pub open spec fn completes(self, hotkey: Hotkey, key: KeyInput) -> bool {
        let modifier = hotkey.modifier@[0];
        &&& !(self.altgr() && (modifier == 0x38 || modifier == 0x1d))
        &&& modifier_held(self.pressed, modifier)
        &&& hotkey.code == key.scan
        &&& (!(0x47 <= key.scan <= 0x53) || key.extended)
    }

    /// Whether a key completes one of the bindings with the given identifier.
    pub open spec fn completes_any(self, id: u32, key: KeyInput) -> bool {
        exists|i: int|
            0 <= i < self.hotkeys.len() && (#[trigger] self.hotkeys[i]).id == id && self.completes(
                self.hotkeys[i],
                key,
            )
    }

    /// Whether one of the bindings with the given identifier has the key's scan code.
    pub open spec fn binds_code(self, id: u32, code: u32) -> bool {
        exists|i: int|
            0 <= i < self.hotkeys.len() && (#[trigger] self.hotkeys[i]).id == id
                && self.hotkeys[i].code == code
    }

    /// Whether binding `i` starts or continues a switch with this key.
    pub open spec fn switches(self, i: int, key: KeyInput, permissions: InputPermissions) -> bool {
        let hotkey = self.hotkeys[i];
        &&& ((hotkey.id == SWITCH_APPS_HOTKEY_ID || hotkey.id == SEARCH_HOTKEY_ID)
            && permissions.apps) || (hotkey.id == SWITCH_WINDOWS_HOTKEY_ID && permissions.windows)
        &&& self.completes(hotkey, key)
    }

    /// The first switching binding at or after position `from`.
    pub open spec fn first_switch(
        self,
        key: KeyInput,
        permissions: InputPermissions,
        from: int,
    ) -> Option<Hotkey>
        decreases self.hotkeys.len() - from,
    {
        if from < 0 || from >= self.hotkeys.len() {
            None
        } else if self.switches(from, key, permissions) {
            Some(self.hotkeys[from])
        } else {
            self.first_switch(key, permissions, from + 1)
        }
    }

    /// The state after the key is recorded and a settled session is dropped.
    pub open spec fn noted(self, slot: int, down: bool, acknowledged: u64, revoked: u64) -> Machine {
        let active = match self.active {
            Some(gesture) => if gesture.session <= revoked || gesture.session <= acknowledged {
                None
            } else {
                Some(gesture)
            },
            None => None,
        };
        Machine { active, pressed: self.pressed.update(slot, down), ..self }
    }

    /// The state with the active session finishing.
    pub open spec fn finishing(self) -> Machine {
        match self.active {
            Some(gesture) => Machine {
                active: Some(Gesture { finishing: true, ..gesture }),
                ..self
            },
            None => self,
        }
    }

    /// Whether the active session is still open although its kind is no longer permitted.
    pub open spec fn forbidden(self, permissions: InputPermissions) -> bool {
        match self.active {
            Some(gesture) => !gesture.finishing && !(if gesture.kind != SwitchKind::Windows {
                permissions.apps
            } else {
                permissions.windows
            }),
            None => false,
        }
    }

    /// Whether the active session waits on a modifier that is no longer held.
    pub open spec fn released(self) -> bool {
        match self.active {
            Some(gesture) => !gesture.sticky && !gesture.finishing && !modifier_held(
                self.pressed,
                gesture.modifier,
            ),
            None => false,
        }
    }

    /// Whether the active session satisfies the flags.
    pub open spec fn is_finishing(self) -> bool {
        self.active is Some && self.active->0.finishing
    }

    pub open spec fn is_sticky(self) -> bool {
        self.active is Some && self.active->0.sticky
    }

    pub open spec fn is_apps(self) -> bool {
        self.active is Some && self.active->0.kind == SwitchKind::Apps
    }

    /// Starts or continues a switch of the given kind.
    pub open spec fn cycled(self, hotkey: Hotkey) -> (Machine, Decision) {
        let kind = kind_of(hotkey.id);
        let modifier = hotkey.modifier@[0];
        let kept = match self.active {
            Some(gesture) => if (gesture.sticky && (kind != SwitchKind::Search || gesture.kind
                != SwitchKind::Search)) || (kind == SwitchKind::Search && gesture.kind
                != SwitchKind::Search) {
                None
            } else {
                Some(gesture)
            },
            None => None,
        };
        let reverse = self.pressed[0x2a] || self.pressed[0x36];
        match kept {
            Some(gesture) => if gesture.modifier != modifier {
                (Machine { active: kept, ..self }, pass())
            } else {
                (
                    Machine { active: Some(Gesture { kind, ..gesture }), ..self },
                    Decision {
                        consume: true,
                        event: event(gesture.session, InputAction::Cycle(kind, reverse)),
                    },
                )
            },
            None => if self.next_session == u64::MAX {
                (Machine { active: None, ..self }, pass())
            } else {
                let session = (self.next_session + 1) as u64;
                (
                    Machine {
                        next_session: session,
                        active: Some(
                            Gesture {
                                session,
                                kind,
                                modifier,
                                finishing: false,
                                sticky: kind == SwitchKind::Search,
                            },
                        ),
                        ..self
                    },
                    Decision {
                        consume: true,
                        event: event(session, InputAction::Cycle(kind, reverse)),
                    },
                )
            },
        }
    }

    /// Handles the navigation keys of an open application panel.
    pub open spec fn navigated(self, key: KeyInput, permissions: InputPermissions) -> (
        Machine,
        Decision,
    ) {
        match self.active {
            Some(gesture) => if gesture.kind == SwitchKind::Apps && (!gesture.sticky
                || permissions.surface == InputSurface::Panel) {
                if key.scan == 0x01 {
                    (
                        self.finishing(),
                        Decision {
                            consume: true,
                            event: event(gesture.session, InputAction::Cancel),
                        },
                    )
                } else if key.scan == 0x1c && gesture.sticky {
                    (
                        self.finishing(),
                        Decision {
                            consume: true,
                            event: event(gesture.session, InputAction::Finish(SwitchKind::Apps)),
                        },
                    )
                } else if key.extended && (key.scan == 0x48 || key.scan == 0x4b || key.scan == 0x4d
                    || key.scan == 0x50) {
                    (
                        self,
                        Decision {
                            consume: true,
                            event: event(
                                gesture.session,
                                InputAction::Cycle(
                                    SwitchKind::Apps,
                                    key.scan == 0x48 || key.scan == 0x4b,
                                ),
                            ),
                        },
                    )
                } else {
                    (self, pass())
                }
            } else {
                (self, pass())
            },
            None => (self, pass()),
        }
    }

    /// The state and the decision after a key transition.
    pub open spec fn step(
        self,
        key: KeyInput,
        permissions: InputPermissions,
        acknowledged: u64,
        revoked: u64,
    ) -> (Machine, Decision) {
        match slot(key) {
            None => (self, pass()),
            Some(slot) => {
                let repeated = self.pressed[slot];
                let next = self.noted(slot, key.down, acknowledged, revoked);
                if key.down && next.completes_any(PAUSE_HOTKEY_ID, key) {
                    let event = if repeated {
                        None
                    } else {
                        event(0, InputAction::TogglePause)
                    };
                    (next, Decision { consume: true, event })
                } else if next.forbidden(permissions) {
                    (
                        next.finishing(),
                        Decision {
                            consume: false,
                            event: event(next.active->0.session, InputAction::Cancel),
                        },
                    )
                } else if next.released() {
                    (
                        next.finishing(),
                        Decision {
                            consume: false,
                            event: event(
                                next.active->0.session,
                                InputAction::Finish(next.active->0.kind),
                            ),
                        },
                    )
                } else if !key.down {
                    (
                        Machine { consumed: next.consumed.update(slot, false), ..next },
                        Decision { consume: next.consumed[slot], event: None },
                    )
                } else if next.is_finishing() {
                    (next, pass())
                } else if repeated && next.consumed[slot] && next.is_sticky() && next.binds_code(
                    DETAILS_HOTKEY_ID,
                    key.scan,
                ) {
                    (next, Decision { consume: true, event: None })
                } else if permissions.surface == InputSurface::Panel && permissions.apps
                    && next.is_apps() && next.completes_any(DETAILS_HOTKEY_ID, key) {
                    let gesture = next.active->0;
                    let event = if repeated {
                        None
                    } else {
                        event(gesture.session, InputAction::ShowDetails)
                    };
                    (
                        Machine { active: Some(Gesture { sticky: true, ..gesture }), ..next },
                        Decision { consume: true, event },
                    )
                } else {
                    match next.first_switch(key, permissions, 0) {
                        Some(hotkey) => next.cycled(hotkey),
                        None => next.navigated(key, permissions),
                    }
                }
            },
        }
    }

    /// The state after a decision on a key was delivered.
    pub open spec fn recorded(self, key: KeyInput, consume: bool) -> Machine {
        match slot(key) {
            Some(slot) => if key.down {
                Machine { consumed: self.consumed.update(slot, consume), ..self }
            } else {
                self
            },
            None => self,
        }
    }

    /// The state after every key is forgotten.
    pub open spec fn cleared(self) -> Machine {
        Machine {
            pressed: Seq::new(KEY_SLOTS as nat, |i: int| false),
            consumed: Seq::new(KEY_SLOTS as nat, |i: int| false),
            injected_control: false,
            active: None,
            ..self
        }
    }
}

/// The kind of switch that a binding starts.
pub open spec fn kind_of(id: u32) -> SwitchKind {
    if id == SWITCH_APPS_HOTKEY_ID {
        SwitchKind::Apps
    } else if id == SEARCH_HOTKEY_ID {
        SwitchKind::Search
    } else {
        SwitchKind::Windows
    }
}

impl KeyInput {
    fn index(self) -> (r: Option<usize>)
        ensures
            r is Some == slot(self) is Some,
            r is Some ==> r->0 == slot(self)->0 && r->0 < KEY_SLOTS,
    {
        if self.scan == 0 || self.scan > 255 {
            None
        } else if self.extended {
            Some(self.scan as usize + 256)
        } else {
            Some(self.scan as usize)
        }
    }
}

impl Decision {
    fn pass() -> (r: Decision)
        ensures
            r == pass(),
    {
        Decision { consume: false, event: None }
    }
}

/// The key event state machine.
pub struct InputMachine {
    hotkeys: Vec<Hotkey>,
    pressed: Vec<bool>,
    consumed: Vec<bool>,
    active: Option<Gesture>,
    next_session: u64,
    injected_control: bool,
}

impl View for InputMachine {
    type V = Machine;

    closed spec fn view(&self) -> Machine {
        Machine {
            hotkeys: self.hotkeys@,
            pressed: self.pressed@,
            consumed: self.consumed@,
            active: self.active,
            next_session: self.next_session,
            injected_control: self.injected_control,
        }
    }
}

fn no_keys() -> (r: Vec<bool>)
    ensures
        r@ == Seq::new(KEY_SLOTS as nat, |i: int| false),
{
    let mut r: Vec<bool> = Vec::new();
    for i in 0..KEY_SLOTS
        invariant
            r@ == Seq::new(i as nat, |i: int| false),
    {
        r.push(false);
    }
    r
}

impl InputMachine {
    pub fn new(hotkeys: Vec<Hotkey>) -> (r: Self)
        ensures
            r@.valid(),
            r@ == (Machine {
                hotkeys: hotkeys@,
                pressed: Seq::new(KEY_SLOTS as nat, |i: int| false),
                consumed: Seq::new(KEY_SLOTS as nat, |i: int| false),
                active: None,
                next_session: 0,
                injected_control: false,
            }),
    {
        InputMachine {
            hotkeys,
            pressed: no_keys(),
            consumed: no_keys(),
            active: None,
            next_session: 0,
            injected_control: false,
        }
    }

    /// Sets the state of a modifier key that was held before events are observed.
    pub fn seed_modifier(&mut self, scan: u32, extended: bool, down: bool)
        requires
            old(self)@.valid(),
        ensures
            final(self)@.valid(),
            final(self)@ == (match slot(KeyInput { scan, extended, down }) {
                Some(slot) => (Machine {
                    pressed: old(self)@.pressed.update(slot, down),
                    ..old(self)@
                }),
                None => old(self)@,
            }),
    {
        if let Some(index) = (KeyInput { scan, extended, down }).index() {
            self.pressed.set(index, down);
        }
    }

    /// Forgets every key and returns the session that was open. The session counter stays, so
    /// that an acknowledgement of an earlier session never names a later one.
    pub fn reset(&mut self) -> (r: Option<u64>)
        requires
            old(self)@.valid(),
        ensures
            final(self)@.valid(),
            final(self)@ == old(self)@.cleared(),
            r == (match old(self)@.active {
                Some(gesture) => Some(gesture.session),
                None => None,
            }),
    {
        let session = match self.active {
            Some(gesture) => Some(gesture.session),
            None => None,
        };
        self.pressed = no_keys();
        self.consumed = no_keys();
        self.injected_control = false;
        self.active = None;
        session
    }

    /// Decides what a key transition does.
    pub fn handle(
        &mut self,
        key: KeyInput,
        permissions: InputPermissions,
        acknowledged: u64,
        revoked: u64,
    ) -> (r: Decision)
        requires
            old(self)@.valid(),
        ensures
            final(self)@.valid(),
            (final(self)@, r) == old(self)@.step(key, permissions, acknowledged, revoked),
    {
        let Some(index) = key.index() else {
            return Decision::pass();
        };
        if let Some(gesture) = self.active {
            if gesture.session <= revoked || gesture.session <= acknowledged {
                self.active = None;
            }
        }
        let repeated = self.pressed[index];
        self.pressed.set(index, key.down);
        let ghost next = self@;
        proof {
            assert(next =~= old(self)@.noted(index as int, key.down, acknowledged, revoked));
        }
        // Recovery is independent of permissions and of sticky sessions. Session zero denotes a
        // control command.
        if key.down && self.completes_any(PAUSE_HOTKEY_ID, key) {
            return Decision {
                consume: true,
                event: if repeated {
                    None
                } else {
                    Some(InputEvent { session: 0, action: InputAction::TogglePause })
                },
            };
        }
        if let Some(gesture) = self.active {
            let allowed = if gesture.kind != SwitchKind::Windows {
                permissions.apps
            } else {
                permissions.windows
            };
            if !allowed && !gesture.finishing {
                self.finish(gesture);
                return Decision {
                    consume: false,
                    event: Some(
                        InputEvent { session: gesture.session, action: InputAction::Cancel },
                    ),
                };
            }
            if !gesture.sticky && !gesture.finishing && !self.modifier_pressed(gesture.modifier) {
                self.finish(gesture);
                return Decision {
                    consume: false,
                    event: Some(
                        InputEvent {
                            session: gesture.session,
                            action: InputAction::Finish(gesture.kind),
                        },
                    ),
                };
            }
        }
        if !key.down {
            let consume = self.consumed[index];
            self.consumed.set(index, false);
            return Decision { consume, event: None };
        }
        if let Some(gesture) = self.active {
            if gesture.finishing {
                return Decision::pass();
            }
            // A consumed trigger stays owned until its release, even when opening the view moves
            // the keyboard focus before the repeat arrives.
            if repeated && self.consumed[index] && gesture.sticky && self.binds_code(
                DETAILS_HOTKEY_ID,
                key.scan,
            ) {
                return Decision { consume: true, event: None };
            }
            if permissions.surface == InputSurface::Panel && permissions.apps && gesture.kind
                == SwitchKind::Apps && self.completes_any(DETAILS_HOTKEY_ID, key) {
                self.active = Some(
                    Gesture {
                        session: gesture.session,
                        kind: gesture.kind,
                        modifier: gesture.modifier,
                        finishing: gesture.finishing,
                        sticky: true,
                    },
                );
                return Decision {
                    consume: true,
                    event: if repeated {
                        None
                    } else {
                        Some(
                            InputEvent {
                                session: gesture.session,
                                action: InputAction::ShowDetails,
                            },
                        )
                    },
                };
            }
        }
        if let Some(at) = self.find_switch(key, permissions) {
            let id = self.hotkeys[at].id;
            let modifier = self.hotkeys[at].get_modifier();
            return self.cycle(id, modifier, Ghost(self.hotkeys@[at as int]));
        }
        self.navigate(key, permissions)
    }

    fn finish(&mut self, gesture: Gesture)
        requires
            old(self)@.valid(),
            old(self)@.active == Some(gesture),
        ensures
            final(self)@ == old(self)@.finishing(),
            final(self)@.valid(),
    {
        self.active = Some(
            Gesture {
                session: gesture.session,
                kind: gesture.kind,
                modifier: gesture.modifier,
                finishing: true,
                sticky: gesture.sticky,
            },
        );
    }

    fn cycle(&mut self, id: u32, modifier: u32, hotkey: Ghost<Hotkey>) -> (r: Decision)
        requires
            old(self)@.valid(),
            hotkey@.id == id,
            hotkey@.modifier@[0] == modifier,
        ensures
            final(self)@.valid(),
            (final(self)@, r) == old(self)@.cycled(hotkey@),
    {
        let kind = if id == SWITCH_APPS_HOTKEY_ID {
            SwitchKind::Apps
        } else if id == SEARCH_HOTKEY_ID {
            SwitchKind::Search
        } else {
            SwitchKind::Windows
        };
        // A switch of another kind replaces a sticky session with a new one.
        if let Some(gesture) = self.active {
            if (gesture.sticky && (kind != SwitchKind::Search || gesture.kind
                != SwitchKind::Search)) || (kind == SwitchKind::Search && gesture.kind
                != SwitchKind::Search) {
                self.active = None;
            }
        }
        let reverse = self.pressed[0x2a] || self.pressed[0x36];
        match self.active {
            Some(gesture) => {
                if gesture.modifier != modifier {
                    return Decision::pass();
                }
                self.active = Some(
                    Gesture {
                        session: gesture.session,
                        kind,
                        modifier: gesture.modifier,
                        finishing: gesture.finishing,
                        sticky: gesture.sticky,
                    },
                );
                Decision {
                    consume: true,
                    event: Some(
                        InputEvent {
                            session: gesture.session,
                            action: InputAction::Cycle(kind, reverse),
                        },
                    ),
                }
            },
            None => {
                if self.next_session == u64::MAX {
                    return Decision::pass();
                }
                let session: u64 = self.next_session + 1;
                self.next_session = session;
                self.active = Some(
                    Gesture {
                        session,
                        kind,
                        modifier,
                        finishing: false,
                        sticky: kind == SwitchKind::Search,
                    },
                );
                Decision {
                    consume: true,
                    event: Some(
                        InputEvent { session, action: InputAction::Cycle(kind, reverse) },
                    ),
                }
            },
        }
    }

    fn navigate(&mut self, key: KeyInput, permissions: InputPermissions) -> (r: Decision)
        requires
            old(self)@.valid(),
        ensures
            final(self)@.valid(),
            (final(self)@, r) == old(self)@.navigated(key, permissions),
    {
        if let Some(gesture) = self.active {
            if gesture.kind == SwitchKind::Apps && (!gesture.sticky || permissions.surface
                == InputSurface::Panel) {
                if key.scan == 0x01 {
                    self.finish(gesture);
                    return Decision {
                        consume: true,
                        event: Some(
                            InputEvent { session: gesture.session, action: InputAction::Cancel },
                        ),
                    };
                }
                if key.scan == 0x1c && gesture.sticky {
                    self.finish(gesture);
                    return Decision {
                        consume: true,
                        event: Some(
                            InputEvent {
                                session: gesture.session,
                                action: InputAction::Finish(SwitchKind::Apps),
                            },
                        ),
                    };
                }
                if key.extended && (key.scan == 0x48 || key.scan == 0x4b || key.scan == 0x4d
                    || key.scan == 0x50) {
                    return Decision {
                        consume: true,
                        event: Some(
                            InputEvent {
                                session: gesture.session,
                                action: InputAction::Cycle(
                                    SwitchKind::Apps,
                                    key.scan == 0x48 || key.scan == 0x4b,
                                ),
                            },
                        ),
                    };
                }
            }
        }
        Decision::pass()
    }

    /// Records that a decision on a key press took effect.
    pub fn accepted(&mut self, key: KeyInput, consume: bool)
        requires
            old(self)@.valid(),
        ensures
            final(self)@.valid(),
            final(self)@ == old(self)@.recorded(key, consume),
    {
        if key.down {
            if let Some(index) = key.index() {
                self.consumed.set(index, consume);
            }
        }
    }

    /// Records that an event could not be delivered: its session ends and the key passes.
    pub fn rejected(&mut self, key: KeyInput)
        requires
            old(self)@.valid(),
        ensures
            final(self)@.valid(),
            final(self)@ == (Machine { active: None, ..old(self)@ }).recorded(key, false),
    {
        self.active = None;
        self.accepted(key, false);
    }

    /// Observes an injected key that is passed through. The left Control that AltGr synthesises
    /// counts towards AltGr, never as the modifier of a binding.
    pub fn observe_injected_passthrough(&mut self, key: KeyInput)
        requires
            old(self)@.valid(),
        ensures
            final(self)@.valid(),
            final(self)@ == (if key.scan == 0x1d && !key.extended {
                (Machine { injected_control: key.down, ..old(self)@ })
            } else {
                old(self)@
            }),
    {
        if key.scan == 0x1d && !key.extended {
            self.injected_control = key.down;
        }
    }

    fn completes_any(&self, id: u32, key: KeyInput) -> (r: bool)
        requires
            self@.valid(),
        ensures
            r == self@.completes_any(id, key),
    {
        for i in 0..self.hotkeys.len()
            invariant
                self@.valid(),
                forall|k: int|
                    0 <= k < i ==> !((#[trigger] self@.hotkeys[k]).id == id && self@.completes(
                        self@.hotkeys[k],
                        key,
                    )),
        {
            if self.hotkeys[i].id == id && self.matches_hotkey(&self.hotkeys[i], key) {
                assert(self@.hotkeys[i as int].id == id);
                return true;
            }
        }
        false
    }

    fn binds_code(&self, id: u32, code: u32) -> (r: bool)
        ensures
            r == self@.binds_code(id, code),
    {
        for i in 0..self.hotkeys.len()
            invariant
                forall|k: int|
                    0 <= k < i ==> !((#[trigger] self@.hotkeys[k]).id == id
                        && self@.hotkeys[k].code == code),
        {
            if self.hotkeys[i].id == id && self.hotkeys[i].code == code {
                assert(self@.hotkeys[i as int].id == id);
                return true;
            }
        }
        false
    }

    fn find_switch(&self, key: KeyInput, permissions: InputPermissions) -> (r: Option<usize>)
        requires
            self@.valid(),
        ensures
            match r {
                Some(at) => at < self@.hotkeys.len() && self@.first_switch(key, permissions, 0)
                    == Some(self@.hotkeys[at as int]),
                None => self@.first_switch(key, permissions, 0) is None,
            },
    {
        let mut i: usize = 0;
        while i < self.hotkeys.len()
            invariant
                self@.valid(),
                i <= self@.hotkeys.len(),
                self@.first_switch(key, permissions, 0) == self@.first_switch(
                    key,
                    permissions,
                    i as int,
                ),
            decreases self@.hotkeys.len() - i,
        {
            let id = self.hotkeys[i].id;
            let allowed = ((id == SWITCH_APPS_HOTKEY_ID || id == SEARCH_HOTKEY_ID)
                && permissions.apps) || (id == SWITCH_WINDOWS_HOTKEY_ID && permissions.windows);
            if allowed && self.matches_hotkey(&self.hotkeys[i], key) {
                return Some(i);
            }
            i += 1;
        }
        None
    }

    fn matches_hotkey(&self, hotkey: &Hotkey, key: KeyInput) -> (r: bool)
        requires
            self@.valid(),
        ensures
            r == self@.completes(*hotkey, key),
    {
        let altgr = self.pressed[0x38 + 256] && (self.pressed[0x1d] || self.injected_control);
        let modifier = hotkey.get_modifier();
        !(altgr && (modifier == 0x38 || modifier == 0x1d)) && self.modifier_pressed(modifier)
            && hotkey.code == key.scan && (!(0x47 <= key.scan && key.scan <= 0x53) || key.extended)
    }

    fn modifier_pressed(&self, modifier: u32) -> (r: bool)
        requires
            self@.valid(),
        ensures
            r == modifier_held(self@.pressed, modifier),
    {
        if modifier == 0x38 || modifier == 0x1d {
            self.pressed[modifier as usize] || self.pressed[modifier as usize + 256]
        } else if modifier == 0x5b {
            self.pressed[0x5b + 256] || self.pressed[0x5c + 256]
        } else {
            false
        }
    }
}

// ---------------------------------------------------------------------------
// Laws of the machine

/// The session counter never goes back, and every event names the open session, a session that
/// starts with it, or the control session zero.
pub proof fn sessions_only_grow(
    machine: Machine,
    key: KeyInput,
    permissions: InputPermissions,
    acknowledged: u64,
    revoked: u64,
)
    requires
        machine.valid(),
    ensures
        ({
            let (after, decision) = machine.step(key, permissions, acknowledged, revoked);
            &&& after.valid()
            &&& after.next_session == machine.next_session || after.next_session
                == machine.next_session + 1
            &&& match decision.event {
                None => true,
                Some(event) => {
                    ||| event.session == 0 && event.action == InputAction::TogglePause
                    ||| machine.active is Some && event.session == machine.active->0.session
                    ||| event.session == after.next_session && after.next_session
                        > machine.next_session && event.action is Cycle
                },
            }
        }),
{
}

/// A pause binding works in every state, whatever is permitted: it is swallowed, and only its
/// first press causes the event.
pub proof fn pause_bypasses_permissions(
    machine: Machine,
    key: KeyInput,
    permissions: InputPermissions,
    acknowledged: u64,
    revoked: u64,
)
    requires
        machine.valid(),
        key.down,
        slot(key) is Some,
        machine.noted(slot(key)->0, true, acknowledged, revoked).completes_any(
            PAUSE_HOTKEY_ID,
            key,
        ),
    ensures
        machine.step(key, permissions, acknowledged, revoked).1.consume,
        machine.step(key, permissions, acknowledged, revoked).1.event == (
        if machine.pressed[slot(key)->0] {
            None
        } else {
            event(0, InputAction::TogglePause)
        }),
{
}

/// Where nothing is permitted, a key press other than the pause binding is never swallowed.
pub proof fn forbidden_input_passes(
    machine: Machine,
    key: KeyInput,
    permissions: InputPermissions,
    acknowledged: u64,
    revoked: u64,
)
    requires
        machine.valid(),
        key.down,
        !permissions.apps,
        !permissions.windows,
        slot(key) is Some ==> !machine.noted(
            slot(key)->0,
            true,
            acknowledged,
            revoked,
        ).completes_any(PAUSE_HOTKEY_ID, key),
    ensures
        !machine.step(key, permissions, acknowledged, revoked).1.consume,
{
    if let Some(slot) = slot(key) {
        let next = machine.noted(slot, true, acknowledged, revoked);
        no_switch_when_forbidden(next, key, permissions, 0);
    }
}

proof fn no_switch_when_forbidden(
    machine: Machine,
    key: KeyInput,
    permissions: InputPermissions,
    from: int,
)
    requires
        !permissions.apps,
        !permissions.windows,
    ensures
        machine.first_switch(key, permissions, from) is None,
    decreases machine.hotkeys.len() - from,
{
    if 0 <= from < machine.hotkeys.len() {
        no_switch_when_forbidden(machine, key, permissions, from + 1);
    }
}

/// A session ends once: after its finish or cancel event it stays as it is and no key causes
/// another event of it, until the session is acknowledged or revoked.
pub proof fn finished_session_is_silent(
    machine: Machine,
    key: KeyInput,
    permissions: InputPermissions,
    acknowledged: u64,
    revoked: u64,
)
    requires
        machine.valid(),
        machine.is_finishing(),
        machine.active->0.session > acknowledged,
        machine.active->0.session > revoked,
    ensures
        ({
            let (after, decision) = machine.step(key, permissions, acknowledged, revoked);
            &&& after.active == machine.active
            &&& decision.event is Some ==> decision.event == event(0, InputAction::TogglePause)
        }),
{
}

/// A finish or cancel event leaves its session finishing.
pub proof fn ending_event_finishes_its_session(
    machine: Machine,
    key: KeyInput,
    permissions: InputPermissions,
    acknowledged: u64,
    revoked: u64,
)
    requires
        machine.valid(),
    ensures
        ({
            let (after, decision) = machine.step(key, permissions, acknowledged, revoked);
            match decision.event {
                Some(event) => (event.action is Finish || event.action is Cancel)
                    ==> after.is_finishing() && after.active->0.session == event.session,
                None => true,
            }
        }),
{
}

/// An acknowledged or revoked session has no further influence: the machine behaves as if it had
/// never been open.
pub proof fn settled_session_is_forgotten(
    machine: Machine,
    key: KeyInput,
    permissions: InputPermissions,
    acknowledged: u64,
    revoked: u64,
)
    requires
        machine.valid(),
        machine.active is Some,
        machine.active->0.session <= acknowledged || machine.active->0.session <= revoked,
        slot(key) is Some,
    ensures
        machine.step(key, permissions, acknowledged, revoked) == (Machine {
            active: None,
            ..machine
        }).step(key, permissions, acknowledged, revoked),
{
    assert(machine.noted(slot(key)->0, key.down, acknowledged, revoked) == (Machine {
        active: None,
        ..machine
    }).noted(slot(key)->0, key.down, acknowledged, revoked));
}

/// The release of a key whose press was swallowed is swallowed too, once: of two releases in a
/// row, with no session open, the second passes.
pub proof fn release_follows_press(
    machine: Machine,
    press: KeyInput,
    release: KeyInput,
    consume: bool,
    permissions: InputPermissions,
)
    requires
        machine.valid(),
        machine.active is None,
        press.down,
        !release.down,
        slot(press) is Some,
        slot(release) == slot(press),
    ensures
        ({
            let (first, decision) = machine.recorded(press, consume).step(
                release,
                permissions,
                0,
                0,
            );
            &&& decision.consume == consume
            &&& decision.event is None
            &&& !first.step(release, permissions, 0, 0).1.consume
        }),
{
}

/// A switch event is always swallowed.
pub proof fn switching_keys_are_swallowed(
    machine: Machine,
    key: KeyInput,
    permissions: InputPermissions,
    acknowledged: u64,
    revoked: u64,
)
    requires
        machine.valid(),
    ensures
        ({
            let decision = machine.step(key, permissions, acknowledged, revoked).1;
            decision.event is Some && (decision.event->0.action is Cycle
                || decision.event->0.action is ShowDetails || decision.event->0.action
                is TogglePause) ==> decision.consume
        }),
{
}

}
