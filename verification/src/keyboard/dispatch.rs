//! The bounded queue that carries events from the input thread to the user interface.
//!
//! Nothing here waits: a full queue refuses an event, a cancellation has its own way past the
//! queue, and a wake-up that cannot be posted is made up for by the timer of the user interface.

use vstd::prelude::*;

use crate::keyboard::state::{InputAction, InputEvent, InputSurface};

verus! {

/// Number of events that can wait. The last place is reserved for an event that ends a session.
pub const INPUT_QUEUE_CAPACITY: usize = 64;

/// An event with the time, in microseconds, at which it was received.
#[derive(Debug, Clone, Copy, PartialEq, Eq)]
pub struct ReceivedInput {
    pub event: InputEvent,
    pub received: Option<u64>,
}

/// What is known of the sessions and windows.
#[derive(Debug, Clone, Copy, PartialEq, Eq)]
pub struct DispatchStatus {
    /// Whether the window of the user interface still takes messages.
    pub live: bool,
    /// Whether a wake-up is on its way.
    pub notified: bool,
    /// The last session that the user interface has settled.
    pub acknowledged: u64,
    /// The last session that was cancelled.
    pub revoked: u64,
    pub paused: bool,
    pub panel_window: u64,
    pub details_window: u64,
    pub pause_requested: bool,
    pub metrics: bool,
}

/// What was counted.
#[derive(Debug, Clone, Copy, PartialEq, Eq)]
pub struct DispatchCounters {
    pub rejected: u64,
    pub inactive_rejections: u64,
    pub queue_full_rejections: u64,
    pub notification_deferrals: u64,
    pub callbacks: u64,
    pub max_callback_us: u64,
}

/// The queue as a mathematical value.
#[verifier::ext_equal]
pub struct Dispatch {
    pub queue: Seq<ReceivedInput>,
    pub status: DispatchStatus,
    pub counters: DispatchCounters,
}

/// What became of an event.
#[derive(Debug, Clone, Copy, PartialEq, Eq, Structural)]
pub enum Submission {
    Accepted,
    Rejected,
    /// It is accepted; a wake-up is to be posted, whatever comes of it.
    AcceptedWake,
    /// It is rejected; a wake-up is to be posted, whatever comes of it.
    RejectedWake,
    /// It is queued; a wake-up is to be posted, and what came of it decides.
    Wake,
}

impl DispatchStatus {
    /// Whether events of a session are taken: it is neither cancelled nor settled.
    pub open spec fn permitted(self, session: u64) -> bool {
        !self.paused && self.live && session > self.revoked && session > self.acknowledged
    }
}

/// The larger of two numbers.
pub open spec fn larger(a: u64, b: u64) -> u64 {
    if a > b {
        a
    } else {
        b
    }
}

/// Number of places that an event can use.
pub open spec fn place_limit(event: InputEvent) -> int {
    if event.action is Cycle {
        INPUT_QUEUE_CAPACITY - 1
    } else {
        INPUT_QUEUE_CAPACITY as int
    }
}

impl Dispatch {
    /// The invariant: the queue is bounded, and its last place holds no cycle.
    pub open spec fn valid(self) -> bool {
        &&& self.queue.len() <= INPUT_QUEUE_CAPACITY
        &&& self.queue.len() == INPUT_QUEUE_CAPACITY ==> !(self.queue.last().event.action is Cycle)
    }

    /// The state after a session is cancelled.
    pub open spec fn revoke(self, session: u64) -> Dispatch {
        Dispatch {
            status: DispatchStatus {
                revoked: larger(self.status.revoked, session),
                ..self.status
            },
            ..self
        }
    }

    /// The state after a session is cancelled because of a refused event.
    pub open spec fn cancelled(self, session: u64) -> Dispatch {
        Dispatch {
            counters: DispatchCounters {
                rejected: self.counters.rejected.wrapping_add(1),
                ..self.counters
            },
            ..self
        }.revoke(session)
    }

    pub open spec fn counted_inactive(self) -> Dispatch {
        Dispatch {
            counters: DispatchCounters {
                inactive_rejections: self.counters.inactive_rejections.wrapping_add(1),
                ..self.counters
            },
            ..self
        }
    }

    pub open spec fn counted_full(self) -> Dispatch {
        Dispatch {
            counters: DispatchCounters {
                queue_full_rejections: self.counters.queue_full_rejections.wrapping_add(1),
                ..self.counters
            },
            ..self
        }
    }

    /// The state and the outcome after an event is put into the queue.
    pub open spec fn enqueued(self, event: InputEvent, received: Option<u64>) -> (
        Dispatch,
        Submission,
    ) {
        if !self.status.permitted(event.session) {
            (self.counted_inactive(), Submission::Rejected)
        } else if self.queue.len() >= place_limit(event) {
            (self.counted_full(), Submission::Rejected)
        } else {
            let next = Dispatch {
                queue: self.queue.push(ReceivedInput { event, received }),
                status: DispatchStatus { notified: true, ..self.status },
                ..self
            };
            (
                next,
                if self.status.notified {
                    Submission::Accepted
                } else {
                    Submission::Wake
                },
            )
        }
    }

    /// The state and the outcome after an event is submitted.
    pub open spec fn submitted(self, event: InputEvent, received: Option<u64>) -> (
        Dispatch,
        Submission,
    ) {
        if event.action == InputAction::TogglePause {
            if self.status.live {
                (
                    Dispatch {
                        status: DispatchStatus { pause_requested: true, ..self.status },
                        ..self
                    },
                    Submission::AcceptedWake,
                )
            } else {
                (self, Submission::Rejected)
            }
        } else if event.action == InputAction::Cancel && self.status.permitted(event.session) {
            (self.revoke(event.session), Submission::AcceptedWake)
        } else {
            let (next, outcome) = self.enqueued(event, received);
            if outcome == Submission::Rejected {
                (next.cancelled(event.session), Submission::RejectedWake)
            } else {
                (next, outcome)
            }
        }
    }

    /// The state and the outcome after a wake-up was posted or not.
    pub open spec fn woken(self, posted: bool) -> (Dispatch, bool) {
        if posted {
            (self, true)
        } else {
            let next = Dispatch {
                status: DispatchStatus { notified: false, ..self.status },
                ..self
            };
            if !self.status.live {
                (next.counted_inactive(), false)
            } else {
                (
                    Dispatch {
                        counters: DispatchCounters {
                            notification_deferrals: self.counters.notification_deferrals.wrapping_add(
                                1,
                            ),
                            ..self.counters
                        },
                        ..next
                    },
                    true,
                )
            }
        }
    }
}

/// The queue between the input thread and the user interface.
pub struct InputDispatch {
    pub queue: Vec<ReceivedInput>,
    pub status: DispatchStatus,
    pub counters: DispatchCounters,
}

impl View for InputDispatch {
    type V = Dispatch;

    open spec fn view(&self) -> Dispatch {
        Dispatch { queue: self.queue@, status: self.status, counters: self.counters }
    }
}

impl InputDispatch {
    /// An empty queue of a window that takes messages.
    pub fn with_metrics(metrics: bool) -> (r: Self)
        ensures
            r@.valid(),
            r@ == (Dispatch {
                queue: seq![],
                status: DispatchStatus {
                    live: true,
                    notified: false,
                    acknowledged: 0,
                    revoked: 0,
                    paused: false,
                    panel_window: 0,
                    details_window: 0,
                    pause_requested: false,
                    metrics,
                },
                counters: DispatchCounters {
                    rejected: 0,
                    inactive_rejections: 0,
                    queue_full_rejections: 0,
                    notification_deferrals: 0,
                    callbacks: 0,
                    max_callback_us: 0,
                },
            }),
    {
        InputDispatch {
            queue: Vec::new(),
            status: DispatchStatus {
                live: true,
                notified: false,
                acknowledged: 0,
                revoked: 0,
                paused: false,
                panel_window: 0,
                details_window: 0,
                pause_requested: false,
                metrics,
            },
            counters: DispatchCounters {
                rejected: 0,
                inactive_rejections: 0,
                queue_full_rejections: 0,
                notification_deferrals: 0,
                callbacks: 0,
                max_callback_us: 0,
            },
        }
    }

    /// Takes an event of the input thread.
    pub fn submit(&mut self, event: InputEvent, received: Option<u64>) -> (r: Submission)
        requires
            old(self)@.valid(),
        ensures
            final(self)@.valid(),
            (final(self)@, r) == old(self)@.submitted(event, received),
    {
        if event.action == InputAction::TogglePause {
            if !self.status.live {
                return Submission::Rejected;
            }
            self.status.pause_requested = true;
            return Submission::AcceptedWake;
        }
        if event.action == InputAction::Cancel && self.permits(event.session) {
            // A cancellation does not depend on a place in the queue: were it refused, the key
            // combination would reach the application instead of closing the panel.
            self.revoke(event.session);
            return Submission::AcceptedWake;
        }
        let outcome = self.enqueue(event, received);
        if outcome == Submission::Rejected {
            self.cancel(event.session);
            return Submission::RejectedWake;
        }
        outcome
    }

    /// Puts an event into the queue.
    pub fn enqueue(&mut self, event: InputEvent, received: Option<u64>) -> (r: Submission)
        requires
            old(self)@.valid(),
        ensures
            final(self)@.valid(),
            (final(self)@, r) == old(self)@.enqueued(event, received),
    {
        if !self.permits(event.session) {
            self.counters.inactive_rejections = self.counters.inactive_rejections.wrapping_add(1);
            return Submission::Rejected;
        }
        let limit: usize = match event.action {
            InputAction::Cycle(_, _) => INPUT_QUEUE_CAPACITY - 1,
            _ => INPUT_QUEUE_CAPACITY,
        };
        if self.queue.len() >= limit {
            self.counters.queue_full_rejections =
            self.counters.queue_full_rejections.wrapping_add(1);
            return Submission::Rejected;
        }
        self.queue.push(ReceivedInput { event, received });
        let notified = self.status.notified;
        self.status.notified = true;
        if notified {
            Submission::Accepted
        } else {
            Submission::Wake
        }
    }

    /// Takes what came of the wake-up for a queued event; returns whether the event is accepted.
    /// A wake-up is only a hint: while the window lives, its timer empties the queue as well.
    pub fn wake(&mut self, posted: bool) -> (r: bool)
        requires
            old(self)@.valid(),
        ensures
            final(self)@.valid(),
            (final(self)@, r) == old(self)@.woken(posted),
    {
        if posted {
            return true;
        }
        self.status.notified = false;
        if !self.status.live {
            self.counters.inactive_rejections = self.counters.inactive_rejections.wrapping_add(1);
            return false;
        }
        self.counters.notification_deferrals = self.counters.notification_deferrals.wrapping_add(1);
        true
    }

    /// Takes the events in order; none where another consumer holds the queue.
    pub fn take_timed(&mut self, contended: bool) -> (r: Vec<ReceivedInput>)
        requires
            old(self)@.valid(),
        ensures
            final(self)@.valid(),
            if contended {
                r@.len() == 0 && final(self)@ == old(self)@
            } else {
                &&& r@ == old(self)@.queue
                &&& final(self)@ == (Dispatch {
                    queue: seq![],
                    status: DispatchStatus { notified: false, ..old(self)@.status },
                    ..old(self)@
                })
            },
    {
        let mut events: Vec<ReceivedInput> = Vec::new();
        if contended {
            return events;
        }
        self.status.notified = false;
        std::mem::swap(&mut events, &mut self.queue);
        assert(self@.queue =~= seq![]);
        events
    }

    /// Takes the events in order, without their times.
    pub fn take(&mut self, contended: bool) -> (r: Vec<InputEvent>)
        requires
            old(self)@.valid(),
        ensures
            final(self)@.valid(),
            if contended {
                r@.len() == 0 && final(self)@ == old(self)@
            } else {
                &&& r@ == Seq::new(old(self)@.queue.len(), |i: int| old(self)@.queue[i].event)
                &&& final(self)@ == (Dispatch {
                    queue: seq![],
                    status: DispatchStatus { notified: false, ..old(self)@.status },
                    ..old(self)@
                })
            },
    {
        let timed = self.take_timed(contended);
        let mut events: Vec<InputEvent> = Vec::new();
        for i in 0..timed.len()
            invariant
                events@ == Seq::new(i as nat, |k: int| timed@[k].event),
        {
            events.push(timed[i].event);
        }
        events
    }

    /// Cancels a session because of a refused event. A wake-up is to be posted.
    pub fn cancel(&mut self, session: u64)
        requires
            old(self)@.valid(),
        ensures
            final(self)@.valid(),
            final(self)@ == old(self)@.cancelled(session),
    {
        self.counters.rejected = self.counters.rejected.wrapping_add(1);
        self.revoke(session);
    }

    fn revoke(&mut self, session: u64)
        requires
            old(self)@.valid(),
        ensures
            final(self)@.valid(),
            final(self)@ == old(self)@.revoke(session),
    {
        if session > self.status.revoked {
            self.status.revoked = session;
        }
    }

    /// Settles a session.
    pub fn acknowledge(&mut self, session: u64)
        requires
            old(self)@.valid(),
        ensures
            final(self)@.valid(),
            final(self)@ == (Dispatch {
                status: DispatchStatus {
                    acknowledged: larger(old(self)@.status.acknowledged, session),
                    ..old(self)@.status
                },
                ..old(self)@
            }),
    {
        if session > self.status.acknowledged {
            self.status.acknowledged = session;
        }
    }

    /// Whether events of a session are taken.
    pub fn permits(&self, session: u64) -> (r: bool)
        ensures
            r == self@.status.permitted(session),
    {
        !self.status.paused && self.status.live && session > self.status.revoked && session
            > self.status.acknowledged
    }

    pub fn set_paused(&mut self, paused: bool)
        requires
            old(self)@.valid(),
        ensures
            final(self)@.valid(),
            final(self)@ == (Dispatch {
                status: DispatchStatus { paused, ..old(self)@.status },
                ..old(self)@
            }),
    {
        self.status.paused = paused;
    }

    /// Takes note that the window takes no messages any more.
    pub fn close(&mut self)
        requires
            old(self)@.valid(),
        ensures
            final(self)@.valid(),
            final(self)@ == (Dispatch {
                status: DispatchStatus { live: false, ..old(self)@.status },
                ..old(self)@
            }),
    {
        self.status.live = false;
    }

    /// Sets the window that shows a surface; the other surface is then not shown.
    pub fn set_surface(&mut self, surface: InputSurface, window: u64)
        requires
            old(self)@.valid(),
        ensures
            final(self)@.valid(),
            final(self)@ == (Dispatch {
                status: DispatchStatus {
                    panel_window: if surface == InputSurface::Panel {
                        window
                    } else {
                        0
                    },
                    details_window: if surface == InputSurface::Details {
                        window
                    } else {
                        0
                    },
                    ..old(self)@.status
                },
                ..old(self)@
            }),
    {
        self.status.panel_window = 0;
        self.status.details_window = 0;
        match surface {
            InputSurface::Panel => {
                self.status.panel_window = window;
            },
            InputSurface::Details => {
                self.status.details_window = window;
            },
            InputSurface::Outside => {},
        }
    }

    /// The surface that has the focus, by the window in the foreground.
    pub fn surface(&self, foreground: u64) -> (r: InputSurface)
        ensures
            r == surface_of(self@.status, foreground),
    {
        if foreground != 0 && foreground == self.status.panel_window {
            InputSurface::Panel
        } else if foreground != 0 && foreground == self.status.details_window {
            InputSurface::Details
        } else {
            InputSurface::Outside
        }
    }

    /// Takes the request to pause or go on; it counts only while the window lives.
    pub fn take_pause_request(&mut self) -> (r: bool)
        requires
            old(self)@.valid(),
        ensures
            final(self)@.valid(),
            r == (old(self)@.status.pause_requested && old(self)@.status.live),
            final(self)@ == (Dispatch {
                status: DispatchStatus { pause_requested: false, ..old(self)@.status },
                ..old(self)@
            }),
    {
        let requested = self.status.pause_requested;
        self.status.pause_requested = false;
        requested && self.status.live
    }

    /// Counts a call of the hook that took a number of microseconds.
    pub fn observe_callback(&mut self, elapsed_us: u64)
        requires
            old(self)@.valid(),
        ensures
            final(self)@.valid(),
            final(self)@ == (Dispatch {
                counters: DispatchCounters {
                    callbacks: old(self)@.counters.callbacks.wrapping_add(1),
                    max_callback_us: larger(old(self)@.counters.max_callback_us, elapsed_us),
                    ..old(self)@.counters
                },
                ..old(self)@
            }),
    {
        self.counters.callbacks = self.counters.callbacks.wrapping_add(1);
        if elapsed_us > self.counters.max_callback_us {
            self.counters.max_callback_us = elapsed_us;
        }
    }

    /// The time of an event; none where nothing is measured.
    pub fn sample_start(&self, now: u64) -> (r: Option<u64>)
        ensures
            r == (if self@.status.metrics {
                Some(now)
            } else {
                None
            }),
    {
        crate::diagnostics::sample_start(self.status.metrics, now)
    }
}

/// The surface that has the focus, by the window in the foreground.
pub open spec fn surface_of(status: DispatchStatus, foreground: u64) -> InputSurface {
    if foreground != 0 && foreground == status.panel_window {
        InputSurface::Panel
    } else if foreground != 0 && foreground == status.details_window {
        InputSurface::Details
    } else {
        InputSurface::Outside
    }
}

/// However many cycles wait, an event that ends a permitted session still finds a place.
pub proof fn ending_event_finds_a_place(
    dispatch: Dispatch,
    event: InputEvent,
    received: Option<u64>,
)
    requires
        dispatch.valid(),
        forall|i: int|
            0 <= i < dispatch.queue.len() ==> (#[trigger] dispatch.queue[i]).event.action is Cycle,
        dispatch.status.permitted(event.session),
        !(event.action is Cycle),
    ensures
        dispatch.enqueued(event, received).1 != Submission::Rejected,
        dispatch.enqueued(event, received).0.queue.last().event == event,
{
    if dispatch.queue.len() == INPUT_QUEUE_CAPACITY {
        assert(dispatch.queue[dispatch.queue.len() - 1].event.action is Cycle);
    }
}

/// A permitted session can be cancelled whatever waits in the queue, and is not permitted
/// afterwards.
pub proof fn cancellation_needs_no_place(
    dispatch: Dispatch,
    session: u64,
    received: Option<u64>,
)
    requires
        dispatch.status.permitted(session),
    ensures
        ({
            let event = InputEvent { session, action: InputAction::Cancel };
            let (next, outcome) = dispatch.submitted(event, received);
            &&& outcome == Submission::AcceptedWake
            &&& next.queue == dispatch.queue
            &&& !next.status.permitted(session)
        }),
{
}

/// The request to go on is taken while the input is paused and whatever waits in the queue.
pub proof fn recovery_needs_no_place(dispatch: Dispatch, received: Option<u64>)
    requires
        dispatch.status.live,
    ensures
        ({
            let event = InputEvent { session: 0, action: InputAction::TogglePause };
            let (next, outcome) = dispatch.submitted(event, received);
            outcome == Submission::AcceptedWake && next.status.pause_requested && next.queue
                == dispatch.queue
        }),
{
}

/// A refused event ends its session: no later event of the session is taken.
pub proof fn refused_event_ends_its_session(
    dispatch: Dispatch,
    event: InputEvent,
    received: Option<u64>,
)
    requires
        dispatch.submitted(event, received).1 == Submission::RejectedWake,
    ensures
        !dispatch.submitted(event, received).0.status.permitted(event.session),
{
}

/// Submitting an event never brings back a session that was cancelled or settled.
pub proof fn settled_sessions_stay_settled(
    dispatch: Dispatch,
    event: InputEvent,
    received: Option<u64>,
    session: u64,
)
    requires
        session <= dispatch.status.revoked || session <= dispatch.status.acknowledged,
    ensures
        !dispatch.submitted(event, received).0.status.permitted(session),
        !dispatch.enqueued(event, received).0.status.permitted(session),
        !dispatch.cancelled(event.session).status.permitted(session),
        !dispatch.woken(true).0.status.permitted(session),
        !dispatch.woken(false).0.status.permitted(session),
{
}

/// A wake-up that cannot be posted loses no event while the window lives.
pub proof fn failed_wake_keeps_the_queue(dispatch: Dispatch, posted: bool)
    requires
        dispatch.status.live,
    ensures
        dispatch.woken(posted).1,
        dispatch.woken(posted).0.queue == dispatch.queue,
{
}

/// Events that are accepted come out in the order in which they went in.
pub proof fn events_keep_their_order(
    dispatch: Dispatch,
    first: InputEvent,
    second: InputEvent,
    received: Option<u64>,
)
    requires
        dispatch.enqueued(first, received).1 != Submission::Rejected,
        dispatch.enqueued(first, received).0.enqueued(second, received).1 != Submission::Rejected,
    ensures
        dispatch.enqueued(first, received).0.enqueued(second, received).0.queue
            == dispatch.queue.push(ReceivedInput { event: first, received }).push(
            ReceivedInput { event: second, received },
        ),
{
}

}
