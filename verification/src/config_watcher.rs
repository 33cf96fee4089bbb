//! Waiting for a changed configuration file to settle. Times are milliseconds.

use vstd::prelude::*;

use crate::config_file::ConfigFileStamp;

verus! {

/// Time between two looks at the file.
pub const POLL_INTERVAL_MS: u64 = 250;

/// Time that a changed file has to stay the same.
pub const RELOAD_DEBOUNCE_MS: u64 = 500;

/// What the watcher does after a look at the file.
#[derive(Debug, Clone, Copy, PartialEq, Eq, Structural)]
pub enum WatchAction {
    /// Nothing.
    Wait,
    /// It reports that the file cannot be inspected.
    WarnInspection,
    /// It announces the change.
    Announce,
}

/// The state of the watcher.
#[derive(Debug, Clone, Copy, PartialEq, Eq)]
pub struct FileWatch {
    pub observed: ConfigFileStamp,
    pub candidate: Option<(ConfigFileStamp, u64)>,
    pub inspection_error_reported: bool,
}

impl FileWatch {
    /// Whether a stamp has been pending for the debounce time.
    pub open spec fn settled(self, current: ConfigFileStamp, now: u64) -> bool {
        match self.candidate {
            Some((pending, since)) => pending == current && now >= since + RELOAD_DEBOUNCE_MS,
            None => false,
        }
    }

    /// The state and the action after a look at the file, which gave a stamp or failed. A settled
    /// stamp stays pending until its announcement is confirmed.
    pub open spec fn after_look(self, current: Option<ConfigFileStamp>, now: u64) -> (
        FileWatch,
        WatchAction,
    ) {
        match current {
            None => (
                FileWatch { inspection_error_reported: true, ..self },
                if self.inspection_error_reported {
                    WatchAction::Wait
                } else {
                    WatchAction::WarnInspection
                },
            ),
            Some(stamp) => {
                let next = FileWatch { inspection_error_reported: false, ..self };
                if stamp == self.observed {
                    (FileWatch { candidate: None, ..next }, WatchAction::Wait)
                } else if self.settled(stamp, now) {
                    (next, WatchAction::Announce)
                } else if self.candidate is Some && (self.candidate->0).0 == stamp {
                    (next, WatchAction::Wait)
                } else {
                    (FileWatch { candidate: Some((stamp, now)), ..next }, WatchAction::Wait)
                }
            },
        }
    }

    pub fn new(observed: ConfigFileStamp) -> (r: Self)
        ensures
            r == (FileWatch { observed, candidate: None, inspection_error_reported: false }),
    {
        FileWatch { observed, candidate: None, inspection_error_reported: false }
    }

    /// Handles a look at the file.
    pub fn look(&mut self, current: Option<ConfigFileStamp>, now: u64) -> (r: WatchAction)
        ensures
            (*final(self), r) == old(self).after_look(current, now),
    {
        let stamp = match current {
            None => {
                if self.inspection_error_reported {
                    return WatchAction::Wait;
                }
                self.inspection_error_reported = true;
                return WatchAction::WarnInspection;
            },
            Some(stamp) => stamp,
        };
        self.inspection_error_reported = false;
        if stamp == self.observed {
            self.candidate = None;
            return WatchAction::Wait;
        }
        match self.candidate {
            Some((pending, since)) => {
                if pending == stamp {
                    if now >= since && now - since >= RELOAD_DEBOUNCE_MS {
                        return WatchAction::Announce;
                    }
                    return WatchAction::Wait;
                }
            },
            None => {},
        }
        self.candidate = Some((stamp, now));
        WatchAction::Wait
    }

    /// Takes note that the change to a stamp was announced.
    pub fn announced(&mut self, stamp: ConfigFileStamp)
        ensures
            *final(self) == (FileWatch { observed: stamp, candidate: None, ..*old(self) }),
    {
        self.observed = stamp;
        self.candidate = None;
    }
}

/// A change is announced only for a stamp that differs from the known one and was the same at an
/// earlier look, at least the debounce time ago.
pub proof fn announcements_are_settled(
    watch: FileWatch,
    current: Option<ConfigFileStamp>,
    now: u64,
)
    requires
        watch.after_look(current, now).1 == WatchAction::Announce,
    ensures
        current is Some,
        current->0 != watch.observed,
        watch.candidate is Some,
        (watch.candidate->0).0 == current->0,
        now >= (watch.candidate->0).1 + RELOAD_DEBOUNCE_MS,
{
}

/// A file that keeps changing is not announced: a new stamp starts its wait anew.
pub proof fn changes_restart_the_wait(
    watch: FileWatch,
    first: ConfigFileStamp,
    second: ConfigFileStamp,
    then: u64,
    now: u64,
)
    requires
        first != second,
        second != watch.observed,
        first != watch.observed,
        watch.candidate is None,
    ensures
        ({
            let (next, action) = watch.after_look(Some(first), then).0.after_look(
                Some(second),
                now,
            );
            action == WatchAction::Wait && next.candidate == Some((second, now))
        }),
{
}

/// A change that was first seen at one time is announced at the first look that finds the same
/// stamp half a second later or more, and not before. It is announced again until the announcement
/// is confirmed.
pub proof fn change_is_announced_after_half_a_second(
    watch: FileWatch,
    stamp: ConfigFileStamp,
    then: u64,
    now: u64,
)
    requires
        stamp != watch.observed,
        watch.candidate is None || (watch.candidate->0).0 != stamp,
    ensures
        ({
            let first = watch.after_look(Some(stamp), then);
            let second = first.0.after_look(Some(stamp), now);
            &&& first.1 == WatchAction::Wait
            &&& first.0.observed == watch.observed
            &&& second.1 == WatchAction::Announce <==> now - then >= 500
            &&& second.1 == WatchAction::Wait <==> now - then < 500
            &&& second.0 == first.0
        }),
        POLL_INTERVAL_MS == 250,
{
}

/// A file that is back at the known stamp has nothing to announce: the wait is given up.
pub proof fn undone_change_is_not_announced(
    watch: FileWatch,
    stamp: ConfigFileStamp,
    then: u64,
    now: u64,
)
    requires
        stamp != watch.observed,
    ensures
        watch.after_look(Some(watch.observed), then).1 == WatchAction::Wait,
        watch.after_look(Some(watch.observed), then).0.after_look(Some(stamp), now).1
            == WatchAction::Wait,
{
}

/// A file that cannot be inspected is reported once, until it can be again. The pending change is
/// kept meanwhile.
pub proof fn failed_inspection_is_reported_once(
    watch: FileWatch,
    current: Option<ConfigFileStamp>,
    then: u64,
    now: u64,
)
    ensures
        watch.after_look(None, then).1 == WatchAction::WarnInspection
            <==> !watch.inspection_error_reported,
        watch.after_look(None, then).1 != WatchAction::Announce,
        watch.after_look(None, then).0.after_look(None, now).1 == WatchAction::Wait,
        current is Some ==> watch.after_look(current, then).0.after_look(None, now).1
            == WatchAction::WarnInspection,
        current is Some ==> watch.after_look(current, then).1 != WatchAction::WarnInspection,
        watch.after_look(None, then).0.candidate == watch.candidate,
        watch.after_look(None, then).0.observed == watch.observed,
{
}

}
