//! What becomes of the events of keys on their way to the user interface.

use vstd::prelude::*;

use crate::keyboard::dispatch::{surface_of, Dispatch, DispatchStatus, ReceivedInput, Submission};
use crate::keyboard::hook::{concluded, key_of, processed, seeded, HookStep};
use crate::keyboard::state::{
    Decision, InputAction, InputEvent, InputPermissions, InputSurface, KeyInput, Machine,
};

verus! {

/// Events of a session are taken exactly while the window lives, input is not paused, and the
/// session is neither cancelled nor settled.
pub proof fn open_sessions(status: DispatchStatus, session: u64)
    ensures
        status.permitted(session) <==> status.live && !status.paused && status.revoked < session
            && status.acknowledged < session,
{
}

/// An event that switches or ends a session is accepted exactly if its session is open and there is
/// a place for it: of 64 places, those that switch leave one free. It is then the last one that
/// waits, with its time, and a wake-up is asked for where none is on its way.
pub proof fn accepted_events_wait(dispatch: Dispatch, event: InputEvent, received: Option<u64>)
    requires
        dispatch.valid(),
        event.action != InputAction::TogglePause,
        event.action != InputAction::Cancel,
    ensures
        ({
            let (after, outcome) = dispatch.submitted(event, received);
            let places: int = if event.action is Cycle {
                63
            } else {
                64
            };
            let taken = dispatch.status.permitted(event.session) && dispatch.queue.len() < places;
            &&& taken ==> {
                &&& outcome == if dispatch.status.notified {
                    Submission::Accepted
                } else {
                    Submission::Wake
                }
                &&& after.queue.len() == dispatch.queue.len() + 1
                &&& after.queue.last() == ReceivedInput { event, received }
                &&& after.queue.drop_last() =~= dispatch.queue
                &&& after.status == DispatchStatus { notified: true, ..dispatch.status }
                &&& after.counters == dispatch.counters
            }
            &&& !taken ==> {
                &&& outcome == Submission::RejectedWake
                &&& after.queue == dispatch.queue
                &&& after.status.revoked >= event.session
                &&& after.status.revoked >= dispatch.status.revoked
                &&& after.status.revoked == event.session || after.status.revoked
                    == dispatch.status.revoked
                &&& after.status.notified == dispatch.status.notified
                &&& after.status.acknowledged == dispatch.status.acknowledged
                &&& after.counters.rejected == dispatch.counters.rejected.wrapping_add(1)
                &&& dispatch.status.permitted(event.session) ==> {
                    &&& after.counters.queue_full_rejections
                        == dispatch.counters.queue_full_rejections.wrapping_add(1)
                    &&& after.counters.inactive_rejections == dispatch.counters.inactive_rejections
                }
                &&& !dispatch.status.permitted(event.session) ==> {
                    &&& after.counters.inactive_rejections
                        == dispatch.counters.inactive_rejections.wrapping_add(1)
                    &&& after.counters.queue_full_rejections
                        == dispatch.counters.queue_full_rejections
                }
            }
        }),
{
}

/// A cancellation of an open session takes effect at once; one of a session that is not open is
/// refused. Neither waits.
pub proof fn cancellations_do_not_wait(dispatch: Dispatch, session: u64, received: Option<u64>)
    requires
        dispatch.valid(),
    ensures
        ({
            let event = InputEvent { session, action: InputAction::Cancel };
            let (after, outcome) = dispatch.submitted(event, received);
            &&& after.queue == dispatch.queue
            &&& dispatch.status.permitted(session) ==> outcome == Submission::AcceptedWake
                && after.status == DispatchStatus { revoked: session, ..dispatch.status }
                && after.counters == dispatch.counters
            &&& !dispatch.status.permitted(session) ==> outcome == Submission::RejectedWake
        }),
{
}

/// The pause binding asks for a pause, or for its end, while the window lives, and changes nothing
/// afterwards.
pub proof fn pause_requests_are_kept(dispatch: Dispatch, session: u64, received: Option<u64>)
    ensures
        ({
            let event = InputEvent { session, action: InputAction::TogglePause };
            let (after, outcome) = dispatch.submitted(event, received);
            &&& dispatch.status.live ==> outcome == Submission::AcceptedWake && after == (Dispatch {
                status: DispatchStatus { pause_requested: true, ..dispatch.status },
                ..dispatch
            })
            &&& !dispatch.status.live ==> outcome == Submission::Rejected && after == dispatch
        }),
{
}

/// A wake-up that was posted stands. One that was not is asked for again by the next event, and
/// the event counts as delivered exactly while the window lives.
pub proof fn wake_ups(dispatch: Dispatch, posted: bool)
    ensures
        ({
            let (after, delivered) = dispatch.woken(posted);
            &&& delivered <==> posted || dispatch.status.live
            &&& posted ==> after == dispatch
            &&& !posted ==> !after.status.notified && after.queue == dispatch.queue
            &&& !posted && delivered ==> after.counters.notification_deferrals
                == dispatch.counters.notification_deferrals.wrapping_add(1)
                && after.counters.inactive_rejections == dispatch.counters.inactive_rejections
            &&& !posted && !delivered ==> after.counters.inactive_rejections
                == dispatch.counters.inactive_rejections.wrapping_add(1)
                && after.counters.notification_deferrals
                == dispatch.counters.notification_deferrals
        }),
{
}

/// The surface that has the focus is that whose window is in the foreground.
pub proof fn focused_surface(status: DispatchStatus, foreground: u64)
    requires
        foreground != 0,
    ensures
        surface_of(status, foreground) == InputSurface::Panel <==> foreground
            == status.panel_window,
        foreground != status.panel_window ==> (surface_of(status, foreground)
            == InputSurface::Details <==> foreground == status.details_window),
        surface_of(status, 0) == InputSurface::Outside,
{
}

/// A key event gives the scan code, whether the key is extended, by the lowest bit of its flags,
/// and whether it is pressed, by the highest bit of eight.
pub proof fn key_event_flags(scan: u32, flags: u32)
    ensures
        key_of(scan, flags).scan == scan,
        key_of(scan, flags).extended <==> flags % 2 == 1,
        key_of(scan, flags).down <==> flags / 128 % 2 == 0,
{
    assert(flags & 0x01 != 0 <==> flags % 2 == 1) by (bit_vector);
    assert(flags & 0x80 == 0 <==> flags / 128 % 2 == 0) by (bit_vector);
}

/// A press whose event was delivered is swallowed as decided, and this is remembered for its
/// release. Where it was not delivered, the press is let through and the session is gone. The
/// keys and the counter of sessions stay as they are.
pub proof fn delivered_or_not(machine: Machine, key: KeyInput, decision: Decision, accepted: bool)
    requires
        machine.valid(),
        1 <= key.scan <= 255,
    ensures
        ({
            let after = concluded(machine, key, decision, accepted);
            let number = if key.extended {
                key.scan + 256
            } else {
                key.scan as int
            };
            &&& key.down ==> after.consumed == machine.consumed.update(
                number,
                accepted && decision.consume,
            )
            &&& !key.down ==> after.consumed == machine.consumed
            &&& after.active == if accepted {
                machine.active
            } else {
                None
            }
            &&& after.pressed == machine.pressed
            &&& after.next_session == machine.next_session
            &&& after.hotkeys == machine.hotkeys
            &&& after.injected_control == machine.injected_control
        }),
{
}

/// What a key event comes to: without an event the key is swallowed as decided; with one it is
/// swallowed only where the event was accepted, and a wake-up is posted where it is asked for.
pub proof fn key_events_come_to(
    machine: Machine,
    dispatch: Dispatch,
    key: KeyInput,
    permissions: InputPermissions,
    received: Option<u64>,
)
    requires
        machine.valid(),
        dispatch.valid(),
    ensures
        ({
            let (next, decision) = machine.step(
                key,
                permissions,
                dispatch.status.acknowledged,
                dispatch.status.revoked,
            );
            let (after, sent, step) = processed(machine, dispatch, key, permissions, received);
            &&& decision.event is None ==> {
                &&& step == HookStep::Finished { consume: decision.consume, wake: false }
                &&& sent == dispatch
                &&& after == concluded(next, key, decision, true)
            }
            &&& decision.event matches Some(event) ==> {
                let outcome = dispatch.submitted(event, received).1;
                &&& sent == dispatch.submitted(event, received).0
                &&& outcome == Submission::Wake ==> step == HookStep::Post { key, decision }
                    && after == next
                &&& outcome == Submission::Accepted ==> step == HookStep::Finished {
                    consume: decision.consume,
                    wake: false,
                } && after == concluded(next, key, decision, true)
                &&& outcome == Submission::AcceptedWake ==> step == HookStep::Finished {
                    consume: decision.consume,
                    wake: true,
                } && after == concluded(next, key, decision, true)
                &&& outcome == Submission::Rejected ==> step == HookStep::Finished {
                    consume: false,
                    wake: false,
                } && after == concluded(next, key, decision, false)
                &&& outcome == Submission::RejectedWake ==> step == HookStep::Finished {
                    consume: false,
                    wake: true,
                } && after == concluded(next, key, decision, false)
            }
        }),
{
}

/// The modifiers that are held are taken over one by one: left and right Alt, left and right
/// Control, left and right Windows, left and right Shift. No other key changes.
pub proof fn held_modifiers_are_taken_over(machine: Machine, held: Seq<bool>)
    requires
        machine.valid(),
        held.len() == 8,
    ensures
        ({
            let after = seeded(machine, held, 8);
            &&& after.pressed.len() == 512
            &&& after.pressed[0x38] == held[0] && after.pressed[0x138] == held[1]
            &&& after.pressed[0x1d] == held[2] && after.pressed[0x11d] == held[3]
            &&& after.pressed[0x15b] == held[4] && after.pressed[0x15c] == held[5]
            &&& after.pressed[0x2a] == held[6] && after.pressed[0x36] == held[7]
            &&& forall|i: int|
                0 <= i < 512 && i != 0x38 && i != 0x138 && i != 0x1d && i != 0x11d && i != 0x15b && i
                    != 0x15c && i != 0x2a && i != 0x36 ==> after.pressed[i] == machine.pressed[i]
            &&& after.consumed == machine.consumed
            &&& after.active == machine.active
            &&& after.next_session == machine.next_session
            &&& after.hotkeys == machine.hotkeys
            &&& after.injected_control == machine.injected_control
        }),
{
    reveal_with_fuel(seeded, 9);
}

/// After a reset no key is held or swallowed and no session is open; the bindings and the counter
/// of sessions stay.
pub proof fn reset_forgets_the_keys(machine: Machine)
    ensures
        ({
            let after = machine.cleared();
            &&& after.pressed.len() == 512 && after.consumed.len() == 512
            &&& forall|i: int| 0 <= i < 512 ==> !after.pressed[i] && !after.consumed[i]
            &&& after.active is None
            &&& !after.injected_control
            &&& after.next_session == machine.next_session
            &&& after.hotkeys == machine.hotkeys
        }),
{
}

}
