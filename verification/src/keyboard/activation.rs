//! The switch between active and paused input.
//!
//! A flag alone cannot show that a callback which read the old flag has returned; so the input
//! thread acknowledges each change between two callbacks.

use vstd::prelude::*;

verus! {

/// The requested and the applied state: the lowest bit says whether the input is active, the
/// rest counts the changes.
#[derive(Debug, Clone, Copy, PartialEq, Eq)]
pub struct InputActivation {
    pub requested: u64,
    pub applied: u64,
}

/// Whether a generation is one of active input.
pub open spec fn is_active(generation: u64) -> bool {
    generation % 2 == 1
}

impl InputActivation {
    /// The invariant: nothing is applied that was not requested.
    pub open spec fn valid(self) -> bool {
        self.applied <= self.requested
    }

    /// Whether the state was requested and is applied.
    pub open spec fn settled(self, active: bool) -> bool {
        is_active(self.requested) == active && self.applied == self.requested
    }

    /// The state after a request: a new one counts up.
    pub open spec fn requesting(self, active: bool) -> InputActivation {
        if is_active(self.requested) == active {
            self
        } else {
            InputActivation {
                requested: ((self.requested / 2 + 1) * 2 + (if active {
                    1int
                } else {
                    0
                })) as u64,
                ..self
            }
        }
    }

    pub fn new(active: bool) -> (r: Self)
        ensures
            r.valid(),
            r.settled(active),
            r == (if active {
                InputActivation { requested: 1, applied: 1 }
            } else {
                InputActivation { requested: 0, applied: 0 }
            }),
    {
        let generation: u64 = if active {
            1
        } else {
            0
        };
        InputActivation { requested: generation, applied: generation }
    }

    /// Requests a state; one that is requested already stays as it is. The input thread is to be
    /// told in either case.
    pub fn request(&mut self, active: bool)
        requires
            old(self).valid(),
            old(self).requested < u64::MAX - 2,
        ensures
            final(self).valid(),
            final(self).applied == old(self).applied,
            final(self).requested == (if is_active(old(self).requested) == active {
                old(self).requested as int
            } else {
                (old(self).requested / 2 + 1) * 2 + (if active {
                    1int
                } else {
                    0int
                })
            }),
            *final(self) == old(self).requesting(active),
    {
        if (self.requested % 2 == 1) != active {
            let next: u64 = (self.requested / 2 + 1) * 2;
            self.requested = if active {
                next + 1
            } else {
                next
            };
        }
    }

    /// Whether the state was requested and is applied.
    pub fn acknowledged(&self, active: bool) -> (r: bool)
        ensures
            r == self.settled(active),
    {
        (self.requested % 2 == 1) == active && self.applied == self.requested
    }

    /// Whether keys are handled.
    pub fn active(&self) -> (r: bool)
        ensures
            r == is_active(self.applied),
    {
        self.applied % 2 == 1
    }

    /// The generation to apply.
    pub fn pending(&self) -> (r: u64)
        ensures
            r == self.requested,
    {
        self.requested
    }

    /// Takes note that a generation is applied.
    pub fn acknowledge(&mut self, generation: u64)
        ensures
            *final(self) == (InputActivation { applied: generation, ..*old(self) }),
    {
        self.applied = generation;
    }
}

/// An acknowledged state is the one in effect: once a pause is acknowledged no key is handled.
pub proof fn acknowledged_state_is_in_effect(activation: InputActivation, active: bool)
    requires
        activation.settled(active),
    ensures
        is_active(activation.applied) == active,
{
}

/// A new request is not acknowledged before the input thread has applied it, and the old state
/// stays in effect until then.
pub proof fn new_request_waits_for_the_input_thread(
    before: InputActivation,
    after: InputActivation,
    active: bool,
)
    requires
        before.valid(),
        is_active(before.requested) != active,
        after.applied == before.applied,
        after.requested == (before.requested / 2 + 1) * 2 + (if active {
            1int
        } else {
            0int
        }),
    ensures
        !after.settled(active),
        !after.settled(!active),
        is_active(after.applied) == is_active(before.applied),
        (InputActivation { applied: after.requested, ..after }).settled(active),
{
}

/// A request asks for its state and leaves the applied one alone. One for a state that is asked for
/// already changes nothing; any other has a number above all before it, so that it cannot be taken
/// for an earlier one.
pub proof fn requests_are_told_apart(activation: InputActivation, active: bool)
    requires
        activation.valid(),
        activation.requested < u64::MAX - 2,
    ensures
        ({
            let after = activation.requesting(active);
            &&& after.valid()
            &&& is_active(after.requested) == active
            &&& after.applied == activation.applied
            &&& is_active(activation.requested) == active ==> after == activation
            &&& is_active(activation.requested) != active ==> activation.requested < after.requested
                <= activation.requested + 3
            &&& after.requesting(active) == after
            &&& activation.settled(!active) ==> !after.settled(active) && !after.settled(!active)
        }),
{
}

}
