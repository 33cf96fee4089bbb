//! What the keyboard hook does with a key event.

use vstd::prelude::*;

use crate::config::types::InjectedPolicy;
use crate::keyboard::activation::{is_active, InputActivation};
use crate::keyboard::dispatch::{surface_of, Dispatch, InputDispatch, Submission};
use crate::keyboard::state::{
    slot, Decision, InputMachine, InputPermissions, KeyInput, Machine,
};

verus! {

/// The flag of an extended key.
pub const FLAG_EXTENDED: u32 = 0x01;

/// The flag of an injected key.
pub const FLAG_INJECTED: u32 = 0x10;

/// The flag of a released key.
pub const FLAG_UP: u32 = 0x80;

/// Whether the parameter of a hook call can be read as a key event.
pub fn can_read_keyboard_data(
    code: i32,
    message: u32,
    parameter: usize,
    alignment: usize,
) -> (r: bool)
    requires
        alignment > 0,
    ensures
        r == (code == 0 && (message == 0x100 || message == 0x101 || message == 0x104 || message
            == 0x105) && parameter != 0 && parameter % alignment == 0),
{
    code == 0 && (message == 0x100 || message == 0x101 || message == 0x104 || message == 0x105)
        && parameter != 0 && parameter % alignment == 0
}

/// The key transition of a key event.
pub open spec fn key_of(scan: u32, flags: u32) -> KeyInput {
    KeyInput { scan, extended: flags & FLAG_EXTENDED != 0, down: flags & FLAG_UP == 0 }
}

/// What remains to be done with a key event.
#[derive(Debug, Clone, Copy, PartialEq, Eq, Structural)]
pub enum HookStep {
    /// The key is passed on or swallowed; where `wake` is set, a wake-up is posted.
    Finished { consume: bool, wake: bool },
    /// A wake-up is posted, and what came of it decides on the key.
    Post { key: KeyInput, decision: Decision },
}

/// Whether an outcome accepts the event.
pub open spec fn accepts(outcome: Submission) -> bool {
    outcome == Submission::Accepted || outcome == Submission::AcceptedWake
}

/// The machine after a decision was delivered or not.
pub open spec fn concluded(machine: Machine, key: KeyInput, decision: Decision, accepted: bool) ->
    Machine {
    if accepted {
        machine.recorded(key, decision.consume)
    } else {
        (Machine { active: None, ..machine }).recorded(key, false)
    }
}

/// The states and the step after a key event.
pub open spec fn processed(
    machine: Machine,
    dispatch: Dispatch,
    key: KeyInput,
    permissions: InputPermissions,
    received: Option<u64>,
) -> (Machine, Dispatch, HookStep) {
    let (next, decision) = machine.step(
        key,
        permissions,
        dispatch.status.acknowledged,
        dispatch.status.revoked,
    );
    match decision.event {
        None => (
            concluded(next, key, decision, true),
            dispatch,
            HookStep::Finished { consume: decision.consume, wake: false },
        ),
        Some(event) => {
            let (sent, outcome) = dispatch.submitted(event, received);
            if outcome == Submission::Wake {
                (next, sent, HookStep::Post { key, decision })
            } else {
                (
                    concluded(next, key, decision, accepts(outcome)),
                    sent,
                    HookStep::Finished {
                        consume: accepts(outcome) && decision.consume,
                        wake: outcome == Submission::AcceptedWake || outcome
                            == Submission::RejectedWake,
                    },
                )
            }
        },
    }
}

/// Handles a key event. Nothing is handled unless the input is active; injected keys pass where
/// the configuration says so. `foreground` is the window in the foreground, `windows` and `apps`
/// what it permits.
pub fn process(
    machine: &mut InputMachine,
    dispatch: &mut InputDispatch,
    active: bool,
    injected: InjectedPolicy,
    scan: u32,
    flags: u32,
    windows: bool,
    apps: bool,
    foreground: u64,
    received: Option<u64>,
) -> (r: HookStep)
    requires
        old(machine)@.valid(),
        old(dispatch)@.valid(),
    ensures
        final(machine)@.valid(),
        final(dispatch)@.valid(),
        if !active || !old(dispatch)@.status.live {
            &&& r == (HookStep::Finished { consume: false, wake: false })
            &&& final(machine)@ == old(machine)@
            &&& final(dispatch)@ == old(dispatch)@
        } else if injected == InjectedPolicy::Passthrough && flags & FLAG_INJECTED != 0 {
            &&& r == (HookStep::Finished { consume: false, wake: false })
            &&& final(dispatch)@ == old(dispatch)@
            &&& final(machine)@ == (if scan == 0x1d && flags & FLAG_EXTENDED == 0 {
                (Machine { injected_control: flags & FLAG_UP == 0, ..old(machine)@ })
            } else {
                old(machine)@
            })
        } else {
            (final(machine)@, final(dispatch)@, r) == processed(
                old(machine)@,
                old(dispatch)@,
                key_of(scan, flags),
                InputPermissions {
                    windows,
                    apps,
                    surface: surface_of(old(dispatch)@.status, foreground),
                },
                received,
            )
        },
{
    if !active || !dispatch.status.live {
        return HookStep::Finished { consume: false, wake: false };
    }
    let key = KeyInput {
        scan,
        extended: flags & FLAG_EXTENDED != 0,
        down: flags & FLAG_UP == 0,
    };
    if injected == InjectedPolicy::Passthrough && flags & FLAG_INJECTED != 0 {
        machine.observe_injected_passthrough(key);
        return HookStep::Finished { consume: false, wake: false };
    }
    let surface = dispatch.surface(foreground);
    let decision = machine.handle(
        key,
        InputPermissions { windows, apps, surface },
        dispatch.status.acknowledged,
        dispatch.status.revoked,
    );
    let outcome = match decision.event {
        None => {
            machine.accepted(key, decision.consume);
            return HookStep::Finished { consume: decision.consume, wake: false };
        },
        Some(event) => dispatch.submit(event, received),
    };
    match outcome {
        Submission::Wake => HookStep::Post { key, decision },
        Submission::Accepted => {
            machine.accepted(key, decision.consume);
            HookStep::Finished { consume: decision.consume, wake: false }
        },
        Submission::AcceptedWake => {
            machine.accepted(key, decision.consume);
            HookStep::Finished { consume: decision.consume, wake: true }
        },
        Submission::Rejected => {
            machine.rejected(key);
            HookStep::Finished { consume: false, wake: false }
        },
        Submission::RejectedWake => {
            machine.rejected(key);
            HookStep::Finished { consume: false, wake: true }
        },
    }
}

/// Takes what came of the wake-up for a key event; returns whether the key is swallowed and
/// whether another wake-up is to be posted.
pub fn conclude(
    machine: &mut InputMachine,
    dispatch: &mut InputDispatch,
    key: KeyInput,
    decision: Decision,
    posted: bool,
) -> (r: (bool, bool))
    requires
        old(machine)@.valid(),
        old(dispatch)@.valid(),
    ensures
        final(machine)@.valid(),
        final(dispatch)@.valid(),
        ({
            let (sent, accepted) = old(dispatch)@.woken(posted);
            &&& final(machine)@ == concluded(old(machine)@, key, decision, accepted)
            &&& r == (accepted && decision.consume, !accepted && decision.event is Some)
            &&& final(dispatch)@ == (match decision.event {
                Some(event) => if accepted {
                    sent
                } else {
                    sent.cancelled(event.session)
                },
                None => sent,
            })
        }),
{
    if dispatch.wake(posted) {
        machine.accepted(key, decision.consume);
        return (decision.consume, false);
    }
    machine.rejected(key);
    match decision.event {
        Some(event) => {
            dispatch.cancel(event.session);
            (false, true)
        },
        None => (false, false),
    }
}

/// The modifier keys: their scan codes, and whether they are extended.
pub open spec fn modifier_keys() -> Seq<(u32, bool)> {
    seq![
        (0x38, false),
        (0x38, true),
        (0x1d, false),
        (0x1d, true),
        (0x5b, true),
        (0x5c, true),
        (0x2a, false),
        (0x36, false),
    ]
}

/// The machine after the first `count` modifier keys were set.
pub open spec fn seeded(machine: Machine, held: Seq<bool>, count: int) -> Machine
    decreases count,
{
    if count <= 0 {
        machine
    } else {
        let before = seeded(machine, held, count - 1);
        let (scan, extended) = modifier_keys()[count - 1];
        match slot(KeyInput { scan, extended, down: held[count - 1] }) {
            Some(slot) => Machine {
                pressed: before.pressed.update(slot, held[count - 1]),
                ..before
            },
            None => before,
        }
    }
}

/// Sets the modifier keys that are held: left and right Alt, Control and Windows, and left and
/// right Shift.
pub fn seed_modifiers(machine: &mut InputMachine, held: &[bool])
    requires
        old(machine)@.valid(),
        held@.len() == 8,
    ensures
        final(machine)@.valid(),
        final(machine)@ == seeded(old(machine)@, held@, 8),
{
    reveal_with_fuel(seeded, 9);
    machine.seed_modifier(0x38, false, held[0]);
    machine.seed_modifier(0x38, true, held[1]);
    machine.seed_modifier(0x1d, false, held[2]);
    machine.seed_modifier(0x1d, true, held[3]);
    machine.seed_modifier(0x5b, true, held[4]);
    machine.seed_modifier(0x5c, true, held[5]);
    machine.seed_modifier(0x2a, false, held[6]);
    machine.seed_modifier(0x36, false, held[7]);
}

/// The session that is open.
pub open spec fn open_session(machine: Machine) -> Option<u64> {
    match machine.active {
        Some(gesture) => Some(gesture.session),
        None => None,
    }
}

/// Applies a requested change between two callbacks: every key is forgotten, an open session is
/// cancelled, and held modifiers are taken over where the input becomes active. Returns whether a
/// wake-up is to be posted.
pub fn apply_activation(
    activation: &mut InputActivation,
    machine: &mut InputMachine,
    dispatch: &mut InputDispatch,
    held: &[bool],
) -> (r: bool)
    requires
        old(machine)@.valid(),
        old(dispatch)@.valid(),
        held@.len() == 8,
    ensures
        final(machine)@.valid(),
        final(dispatch)@.valid(),
        if old(activation).applied == old(activation).requested {
            &&& !r
            &&& *final(activation) == *old(activation)
            &&& final(machine)@ == old(machine)@
            &&& final(dispatch)@ == old(dispatch)@
        } else {
            &&& r == old(machine)@.active is Some
            &&& final(activation).requested == old(activation).requested
            &&& final(activation).applied == old(activation).requested
            &&& final(machine)@ == (if is_active(old(activation).requested) {
                seeded(old(machine)@.cleared(), held@, 8)
            } else {
                old(machine)@.cleared()
            })
            &&& final(dispatch)@ == (match open_session(old(machine)@) {
                Some(session) => old(dispatch)@.cancelled(session),
                None => old(dispatch)@,
            })
        },
{
    let requested = activation.pending();
    let active = requested % 2 == 1;
    if activation.acknowledged(active) {
        return false;
    }
    let wake = match machine.reset() {
        Some(session) => {
            dispatch.cancel(session);
            true
        },
        None => false,
    };
    if active {
        seed_modifiers(machine, held);
    }
    activation.acknowledge(requested);
    wake
}

/// A key is swallowed only where its event was accepted: an event that cannot be delivered leaves
/// the key to the application.
pub proof fn undelivered_keys_pass(
    machine: Machine,
    dispatch: Dispatch,
    key: KeyInput,
    permissions: InputPermissions,
    received: Option<u64>,
)
    requires
        ({
            let (_, decision) = machine.step(
                key,
                permissions,
                dispatch.status.acknowledged,
                dispatch.status.revoked,
            );
            &&& decision.event is Some
            &&& !accepts(dispatch.submitted(decision.event->0, received).1)
            &&& dispatch.submitted(decision.event->0, received).1 != Submission::Wake
        }),
    ensures
        processed(machine, dispatch, key, permissions, received).2 matches HookStep::Finished {
            consume,
            ..
        } && !consume,
        processed(machine, dispatch, key, permissions, received).0.active is None,
{
}

}
