//! The decisions of the configuration watcher. The watcher's thread waits, looks at the file and
//! posts messages; what follows from what it finds is decided here. Times are milliseconds.

use vstd::prelude::*;

use crate::config::reload::{is_snapshot, load_snapshot, ConfigCandidate};
use crate::config::storage::LoadError;
use crate::config::types::WatchMode;
use crate::config::watch_state::{later, ChangeTracker, Versions};

verus! {

/// Time before a lost directory notification is set up again.
pub const NOTIFICATION_RETRY_MS: u64 = 30000;

/// What the watcher tells the user.
#[derive(Debug, PartialEq, Eq)]
pub enum WatchMessage {
    /// Directory notifications are asked for but cannot be had.
    NotifyUnavailable,
    /// Directory notifications are asked for but were lost.
    NotifyLost,
    /// The file cannot be read.
    Unreadable,
    /// The file is no valid configuration.
    Invalid(LoadError),
}

/// What the watcher reports.
#[derive(Debug, PartialEq, Eq)]
pub enum ConfigEvent {
    Candidate(ConfigCandidate),
    Message(WatchMessage),
}

/// What the watcher is told.
#[derive(Debug, Clone, Copy, PartialEq, Eq, Structural)]
pub enum Control {
    Stop,
    Complete { generation: u64, applied: bool },
}

/// What the watcher does next.
#[derive(Debug, Clone, Copy, PartialEq, Eq, Structural)]
pub enum Step {
    /// It goes on.
    Continue,
    /// It stops after reporting a message.
    StopUnavailable,
    /// It stops after reporting a message.
    StopLost,
}

/// The state of the watcher's loop beside its tracker.
#[derive(Debug, Clone, Copy, PartialEq, Eq, Structural)]
pub struct WatchState {
    pub mode: WatchMode,
    pub delay: u64,
    pub interval: u64,
    pub notifying: bool,
    pub next_notification: u64,
    pub next_poll: u64,
    pub read_error: Option<u64>,
    pub reported: bool,
}

impl WatchState {
    /// Whether a directory notification has to be set up.
    pub open spec fn needs_notification(self, now: u64) -> bool {
        self.mode != WatchMode::Poll && !self.notifying && now >= self.next_notification
    }

    pub open spec fn after_setup(self, created: bool, now: u64) -> (WatchState, Step) {
        if created {
            (WatchState { notifying: true, ..self }, Step::Continue)
        } else if self.mode == WatchMode::Notify {
            (self, Step::StopUnavailable)
        } else {
            (
                WatchState {
                    next_notification: later(now, NOTIFICATION_RETRY_MS as int) as u64,
                    ..self
                },
                Step::Continue,
            )
        }
    }

    /// The state after the notification was asked: whether the directory changed, or the
    /// notification failed. A failed notification counts as a change.
    pub open spec fn after_ask(self, answer: Option<bool>, now: u64) -> (WatchState, Step, bool) {
        if !self.notifying {
            (self, Step::Continue, false)
        } else {
            match answer {
                Some(changed) => (self, Step::Continue, changed),
                None => {
                    let next = WatchState {
                        notifying: false,
                        next_notification: later(now, NOTIFICATION_RETRY_MS as int) as u64,
                        ..self
                    };
                    if self.mode == WatchMode::Notify {
                        (next, Step::StopLost, true)
                    } else {
                        (next, Step::Continue, true)
                    }
                },
            }
        }
    }

    pub open spec fn needs_read(self, changed: bool, now: u64) -> bool {
        changed || now >= self.next_poll
    }

    /// The state after a read that succeeded, or failed: a failure is reported once, when it has
    /// lasted for the delay.
    pub open spec fn after_read(self, success: bool, now: u64) -> (WatchState, bool) {
        let polled = WatchState { next_poll: later(now, self.interval as int) as u64, ..self };
        if success {
            (WatchState { read_error: None, reported: false, ..polled }, false)
        } else {
            let since = match self.read_error {
                Some(since) => since,
                None => now,
            };
            let elapsed = if now >= since {
                now - since
            } else {
                0
            };
            let report = !self.reported && elapsed >= self.delay;
            (
                WatchState {
                    read_error: Some(since),
                    reported: self.reported || report,
                    ..polled
                },
                report,
            )
        }
    }
}

/// The decisions of the watcher's loop.
pub struct WatchLoop {
    pub state: WatchState,
    pub changes: ChangeTracker,
}

impl WatchLoop {
    pub fn new(
        contents: Vec<u8>,
        mode: WatchMode,
        delay: u64,
        interval: u64,
        retry_delay: u64,
        retry_limit: u32,
        now: u64,
    ) -> (r: Self)
        requires
            retry_limit < u32::MAX,
        ensures
            r.changes@.valid(),
            r.changes@.applied == contents@,
            r.changes@.observed == 0,
            r.changes@.current is None,
            r.changes@.in_flight is None,
            r.changes@.delay == delay,
            r.changes@.retry_delay == retry_delay,
            r.changes@.retry_limit == retry_limit,
            r.state == (WatchState {
                mode,
                delay,
                interval,
                notifying: false,
                next_notification: now,
                next_poll: now,
                read_error: None,
                reported: false,
            }),
    {
        WatchLoop {
            state: WatchState {
                mode,
                delay,
                interval,
                notifying: false,
                next_notification: now,
                next_poll: now,
                read_error: None,
                reported: false,
            },
            changes: ChangeTracker::new(contents, delay, retry_delay, retry_limit),
        }
    }

    /// Handles what the watcher is told; returns whether it goes on. A failed handoff may be
    /// tried again.
    pub fn control(&mut self, control: Control, now: u64) -> (r: bool)
        requires
            old(self).changes@.valid(),
        ensures
            final(self).changes@.valid(),
            final(self).state == old(self).state,
            match control {
                Control::Stop => !r && final(self).changes@ == old(self).changes@,
                Control::Complete { generation, applied } => r && final(self).changes@ == old(
                    self,
                ).changes@.after_complete(generation, applied, true, now),
            },
    {
        match control {
            Control::Stop => false,
            Control::Complete { generation, applied } => {
                self.changes.complete(generation, applied, true, now);
                true
            },
        }
    }

    /// Whether a directory notification has to be set up.
    pub fn needs_notification(&self, now: u64) -> (r: bool)
        ensures
            r == self.state.needs_notification(now),
    {
        self.state.mode != WatchMode::Poll && !self.state.notifying && now
            >= self.state.next_notification
    }

    /// Handles the outcome of setting up a directory notification.
    pub fn notification_set_up(&mut self, created: bool, now: u64) -> (r: Step)
        ensures
            (final(self).state, r) == old(self).state.after_setup(created, now),
            final(self).changes@ == old(self).changes@,
    {
        if created {
            self.state.notifying = true;
            return Step::Continue;
        }
        if self.state.mode == WatchMode::Notify {
            return Step::StopUnavailable;
        }
        self.state.next_notification = now.saturating_add(NOTIFICATION_RETRY_MS);
        Step::Continue
    }

    /// Handles what the directory notification says: whether the directory changed, or nothing
    /// where the notification failed. Returns also whether the file has to be looked at.
    pub fn notification_asked(&mut self, answer: Option<bool>, now: u64) -> (r: (Step, bool))
        ensures
            (final(self).state, r.0, r.1) == old(self).state.after_ask(answer, now),
            final(self).changes@ == old(self).changes@,
    {
        if !self.state.notifying {
            return (Step::Continue, false);
        }
        match answer {
            Some(changed) => (Step::Continue, changed),
            None => {
                self.state.notifying = false;
                self.state.next_notification = now.saturating_add(NOTIFICATION_RETRY_MS);
                if self.state.mode == WatchMode::Notify {
                    (Step::StopLost, true)
                } else {
                    (Step::Continue, true)
                }
            },
        }
    }

    /// Whether the file has to be read.
    pub fn needs_read(&self, changed: bool, now: u64) -> (r: bool)
        ensures
            r == self.state.needs_read(changed, now),
    {
        changed || now >= self.state.next_poll
    }

    /// Handles the bytes of the file, or nothing where it cannot be read; returns whether the
    /// failure has to be reported.
    pub fn file_read(&mut self, bytes: Option<Vec<u8>>, now: u64) -> (r: bool)
        requires
            old(self).changes@.valid(),
            old(self).changes@.observed < u64::MAX,
        ensures
            final(self).changes@.valid(),
            (final(self).state, r) == old(self).state.after_read(bytes is Some, now),
            final(self).changes@ == (match bytes {
                Some(bytes) => old(self).changes@.after_observe(bytes@, now),
                None => old(self).changes@.after_unavailable(),
            }),
    {
        self.state.next_poll = now.saturating_add(self.state.interval);
        match bytes {
            Some(bytes) => {
                self.state.read_error = None;
                self.state.reported = false;
                self.changes.observe(bytes, now);
                false
            },
            None => {
                self.changes.unavailable();
                let since: u64 = match self.state.read_error {
                    Some(since) => since,
                    None => now,
                };
                self.state.read_error = Some(since);
                let elapsed: u64 = if now >= since {
                    now - since
                } else {
                    0
                };
                if !self.state.reported && elapsed >= self.state.delay {
                    self.state.reported = true;
                    return true;
                }
                false
            },
        }
    }

    /// Tries the version that is due: a valid one is handed out, an invalid one is refused until
    /// the file changes.
    pub fn try_candidate(&mut self, now: u64) -> (r: Option<ConfigEvent>)
        requires
            old(self).changes@.valid(),
        ensures
            final(self).changes@.valid(),
            final(self).state == old(self).state,
            ({
                let before = old(self).changes@;
                let tried = before.after_next(now);
                let seen = before.current->0;
                match r {
                    None => !before.due(now) && final(self).changes@ == before,
                    Some(ConfigEvent::Candidate(candidate)) => {
                        &&& before.due(now)
                        &&& candidate.generation == seen.generation
                        &&& candidate.contents@ == seen.contents
                        &&& valid_version(seen.contents)
                        &&& final(self).changes@ == (Versions {
                            validated: seen.generation,
                            ..tried
                        })
                    },
                    Some(ConfigEvent::Message(message)) => {
                        &&& before.due(now)
                        &&& message matches WatchMessage::Invalid(error) && is_snapshot(
                            Err(error),
                            seen.contents,
                        )
                        &&& final(self).changes@ == tried.after_complete(
                            seen.generation,
                            false,
                            false,
                            now,
                        )
                    },
                }
            }),
    {
        let candidate = match self.changes.next(now) {
            None => {
                return None;
            },
            Some(candidate) => candidate,
        };
        match load_snapshot(candidate.contents.as_slice()) {
            Ok(loaded) => {
                assert(is_snapshot(Ok(loaded), candidate.contents@));
                self.changes.validate(candidate.generation);
                Some(ConfigEvent::Candidate(candidate))
            },
            Err(error) => {
                self.changes.complete(candidate.generation, false, false, now);
                Some(ConfigEvent::Message(WatchMessage::Invalid(error)))
            },
        }
    }
}

/// Whether bytes are a valid configuration.
pub open spec fn valid_version(bytes: Seq<u8>) -> bool {
    exists|loaded: crate::config::storage::LoadedConfig| is_snapshot(Ok(loaded), bytes)
}

/// The events that wait for the user interface: a version and a message.
pub struct PendingEvents {
    candidate: Option<ConfigCandidate>,
    message: Option<WatchMessage>,
    stopped: bool,
}

/// What waits for the user interface.
pub struct Pending {
    pub candidate: Option<(u64, Seq<u8>)>,
    pub message: Option<WatchMessage>,
    pub stopped: bool,
}

impl View for PendingEvents {
    type V = Pending;

    closed spec fn view(&self) -> Pending {
        Pending {
            candidate: match self.candidate {
                Some(candidate) => Some((candidate.generation, candidate.contents@)),
                None => None,
            },
            message: self.message,
            stopped: self.stopped,
        }
    }
}

impl PendingEvents {
    pub fn new() -> (r: Self)
        ensures
            r@ == (Pending { candidate: None, message: None, stopped: false }),
    {
        PendingEvents { candidate: None, message: None, stopped: false }
    }

    /// Stores an event; returns whether the user interface has to be woken. A message never
    /// replaces a version that was not delivered.
    pub fn notify(&mut self, event: ConfigEvent) -> (r: bool)
        ensures
            r == !old(self)@.stopped,
            final(self)@ == (if old(self)@.stopped {
                old(self)@
            } else {
                match event {
                    ConfigEvent::Candidate(candidate) => (Pending {
                        candidate: Some((candidate.generation, candidate.contents@)),
                        ..old(self)@
                    }),
                    ConfigEvent::Message(message) => (Pending {
                        message: Some(message),
                        ..old(self)@
                    }),
                }
            }),
    {
        if self.stopped {
            return false;
        }
        match event {
            ConfigEvent::Candidate(candidate) => {
                self.candidate = Some(candidate);
            },
            ConfigEvent::Message(message) => {
                self.message = Some(message);
            },
        }
        true
    }

    /// Takes the next event: the version before the message.
    pub fn next_event(&mut self) -> (r: Option<ConfigEvent>)
        ensures
            match old(self)@.candidate {
                Some((generation, contents)) => {
                    &&& r matches Some(ConfigEvent::Candidate(candidate)) && candidate.generation
                        == generation && candidate.contents@ == contents
                    &&& final(self)@ == (Pending { candidate: None, ..old(self)@ })
                },
                None => match old(self)@.message {
                    Some(message) => {
                        &&& r == Some(ConfigEvent::Message(message))
                        &&& final(self)@ == (Pending { message: None, ..old(self)@ })
                    },
                    None => r is None && final(self)@ == old(self)@,
                },
            },
    {
        if let Some(candidate) = self.candidate.take() {
            return Some(ConfigEvent::Candidate(candidate));
        }
        if let Some(message) = self.message.take() {
            return Some(ConfigEvent::Message(message));
        }
        None
    }

    /// Drops what waits and refuses further events.
    pub fn stop(&mut self)
        ensures
            final(self)@ == (Pending { candidate: None, message: None, stopped: true }),
    {
        self.candidate = None;
        self.message = None;
        self.stopped = true;
    }
}

/// A failing read is reported at most once until a read succeeds.
pub proof fn read_failure_is_reported_once(state: WatchState, now: u64, other: u64)
    requires
        state.after_read(false, now).1,
    ensures
        !state.after_read(false, now).0.after_read(false, other).1,
{
}

/// Without insistence on notifications the watcher never stops by itself: it falls back to
/// looking at the file.
pub proof fn watcher_falls_back_to_polling(
    state: WatchState,
    created: bool,
    answer: Option<bool>,
    now: u64,
)
    requires
        state.mode != WatchMode::Notify,
    ensures
        state.after_setup(created, now).1 == Step::Continue,
        state.after_ask(answer, now).1 == Step::Continue,
{
}

/// The file is looked at when the directory changed, and else once in each interval.
pub proof fn file_is_polled(state: WatchState, success: bool, then: u64, now: u64)
    requires
        then + state.interval <= u64::MAX,
    ensures
        ({
            let after = state.after_read(success, then).0;
            &&& after.needs_read(true, now)
            &&& after.needs_read(false, now) <==> now >= then + state.interval
            &&& after.mode == state.mode && after.delay == state.delay && after.interval
                == state.interval && after.notifying == state.notifying && after.next_notification
                == state.next_notification
        }),
{
}

/// A file that cannot be read is reported when this has lasted for the delay, counted from the
/// first failure; a read that succeeds is never reported and begins anew.
pub proof fn lasting_failure_is_reported(state: WatchState, then: u64, now: u64)
    requires
        state.read_error is None,
        !state.reported,
        then <= now,
    ensures
        !state.after_read(true, now).1,
        state.after_read(true, now).0.read_error is None,
        !state.after_read(true, now).0.reported,
        state.after_read(false, then).1 <==> state.delay == 0,
        state.delay > 0 ==> (state.after_read(false, then).0.after_read(false, now).1 <==> now - then
            >= state.delay),
        state.after_read(false, then).0.after_read(true, now).0.read_error is None,
        !state.after_read(false, then).0.after_read(true, now).0.reported,
{
}

/// Directory notifications are set up unless the file is only polled, once at a time, and again
/// thirty seconds after they failed. Where they are insisted on, the watcher stops instead.
pub proof fn notifications_are_set_up(state: WatchState, answer: Option<bool>, then: u64, now: u64)
    requires
        then + 30000 <= u64::MAX,
    ensures
        state.mode == WatchMode::Poll ==> !state.needs_notification(now),
        state.notifying ==> !state.needs_notification(now),
        state.mode != WatchMode::Poll && !state.notifying ==> (state.needs_notification(now) <==> now
            >= state.next_notification),
        state.after_setup(true, then).0.notifying,
        state.after_setup(true, then).1 == Step::Continue,
        state.mode == WatchMode::Notify ==> state.after_setup(false, then).1
            == Step::StopUnavailable,
        state.mode == WatchMode::Auto && !state.notifying ==> (state.after_setup(
            false,
            then,
        ).0.needs_notification(now) <==> now >= then + 30000),
        state.notifying && state.mode == WatchMode::Auto ==> (state.after_ask(
            None,
            then,
        ).0.needs_notification(now) <==> now >= then + 30000),
        state.notifying && state.mode == WatchMode::Notify ==> state.after_ask(None, then).1
            == Step::StopLost,
{
}

/// The file is looked at where the notification says that the directory changed, and where it
/// failed. Without one nothing is said.
pub proof fn notified_changes_are_looked_at(state: WatchState, changed: bool, now: u64)
    ensures
        !state.notifying ==> !state.after_ask(Some(changed), now).2 && !state.after_ask(None, now).2,
        state.notifying ==> state.after_ask(Some(changed), now).2 == changed && state.after_ask(
            Some(changed),
            now,
        ).0 == state,
        state.notifying ==> state.after_ask(None, now).2 && !state.after_ask(None, now).0.notifying,
{
}

}
