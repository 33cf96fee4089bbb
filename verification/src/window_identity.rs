//! The identity of windows over their lifetime.
//!
//! A window handle is reused by the system; the lifetime tells two windows with one handle apart.

use vstd::prelude::*;

verus! {

/// A process: its number and the time of its creation.
#[derive(Debug, Clone, Copy, PartialEq, Eq, Hash, Structural)]
pub struct ProcessIdentity {
    pub pid: u32,
    pub created: u64,
}

/// A window of a process in one of its lifetimes.
#[derive(Debug, Clone, Copy, PartialEq, Eq, Hash, Structural)]
pub struct WindowIdentity {
    pub window: u64,
    pub process: ProcessIdentity,
    pub epoch: u64,
    pub lifetime: u64,
}

/// The lifetimes of windows as a mathematical value: how often each handle was created or
/// destroyed since an epoch began.
pub struct Lifetimes {
    pub epoch: u64,
    pub revision: u64,
    pub counts: Map<u64, u64>,
}

impl Lifetimes {
    /// The current lifetime of a window.
    pub open spec fn lifetime(self, window: u64) -> u64 {
        if self.counts.dom().contains(window) {
            self.counts[window]
        } else {
            0
        }
    }

    /// Whether an identity is one of the current lifetime of its window.
    pub open spec fn is_current(self, identity: WindowIdentity) -> bool {
        identity.epoch == self.epoch && identity.lifetime == self.lifetime(identity.window)
    }

    /// The lifetimes after an event of a window, which may begin or end its lifetime.
    pub open spec fn after_event(self, window: u64, lifetime: bool) -> Lifetimes {
        if lifetime {
            Lifetimes {
                revision: self.revision.wrapping_add(1),
                counts: self.counts.insert(window, self.lifetime(window).wrapping_add(1)),
                ..self
            }
        } else {
            self
        }
    }

    /// The lifetimes after every identity was made outdated.
    pub open spec fn after_invalidation(self) -> Lifetimes {
        Lifetimes {
            epoch: self.epoch.wrapping_add(1),
            revision: self.revision.wrapping_add(1),
            ..self
        }
    }

    /// The identity of a window; a null handle has none.
    pub open spec fn identity(self, window: u64, process: ProcessIdentity) -> Option<WindowIdentity> {
        if window == 0 {
            None
        } else {
            Some(
                WindowIdentity {
                    window,
                    process,
                    epoch: self.epoch,
                    lifetime: self.lifetime(window),
                },
            )
        }
    }
}

/// The lifetimes of windows.
pub struct WindowLifetimes {
    epoch: u64,
    revision: u64,
    counts: std::collections::HashMap<u64, u64>,
}

impl View for WindowLifetimes {
    type V = Lifetimes;

    closed spec fn view(&self) -> Lifetimes {
        Lifetimes { epoch: self.epoch, revision: self.revision, counts: self.counts@ }
    }
}

impl WindowLifetimes {
    pub fn new() -> (r: Self)
        ensures
            r@.epoch == 0,
            r@.revision == 0,
            r@.counts =~= Map::<u64, u64>::empty(),
    {
        WindowLifetimes { epoch: 0, revision: 0, counts: std::collections::HashMap::new() }
    }

    /// Takes note of an event of a window; one that begins or ends its lifetime makes every
    /// earlier identity of the window outdated.
    pub fn event(&mut self, window: u64, lifetime: bool)
        ensures
            final(self)@.epoch == old(self)@.epoch,
            if lifetime {
                &&& final(self)@.revision == old(self)@.revision.wrapping_add(1)
                &&& final(self)@.counts =~= old(self)@.counts.insert(
                    window,
                    old(self)@.lifetime(window).wrapping_add(1),
                )
            } else {
                final(self)@ == old(self)@
            },
            final(self)@ == old(self)@.after_event(window, lifetime),
    {
        broadcast use vstd::std_specs::hash::group_hash_axioms;

        if lifetime {
            let count: u64 = self.lifetime(window).wrapping_add(1);
            self.counts.insert(window, count);
            self.revision = self.revision.wrapping_add(1);
        }
    }

    /// Makes every identity outdated.
    pub fn invalidate_all(&mut self)
        ensures
            final(self)@.epoch == old(self)@.epoch.wrapping_add(1),
            final(self)@.revision == old(self)@.revision.wrapping_add(1),
            final(self)@.counts == old(self)@.counts,
            final(self)@ == old(self)@.after_invalidation(),
    {
        self.epoch = self.epoch.wrapping_add(1);
        self.revision = self.revision.wrapping_add(1);
    }

    /// A number that changes with every change of lifetimes.
    pub fn revision(&self) -> (r: u64)
        ensures
            r == self@.revision,
    {
        self.revision
    }

    fn lifetime(&self, window: u64) -> (r: u64)
        ensures
            r == self@.lifetime(window),
    {
        broadcast use vstd::std_specs::hash::group_hash_axioms;

        match self.counts.get(&window) {
            Some(count) => *count,
            None => 0,
        }
    }

    /// The identity of a window of a process in its current lifetime; a null handle has none.
    pub fn identify(&self, window: u64, process: ProcessIdentity) -> (r: Option<WindowIdentity>)
        ensures
            r == (if window == 0 {
                None
            } else {
                Some(
                    WindowIdentity {
                        window,
                        process,
                        epoch: self@.epoch,
                        lifetime: self@.lifetime(window),
                    },
                )
            }),
            r == self@.identity(window, process),
    {
        if window == 0 {
            None
        } else {
            Some(
                WindowIdentity {
                    window,
                    process,
                    epoch: self.epoch,
                    lifetime: self.lifetime(window),
                },
            )
        }
    }

    /// Whether an identity is one of the current lifetime of its window.
    pub fn is_current(&self, identity: &WindowIdentity) -> (r: bool)
        ensures
            r == self@.is_current(*identity),
    {
        identity.epoch == self.epoch && identity.lifetime == self.lifetime(identity.window)
    }
}

/// An event that begins or ends the lifetime of a window outdates its current identities, and
/// leaves those of other windows alone.
pub proof fn lifetime_event_outdates_the_window(
    before: Lifetimes,
    after: Lifetimes,
    window: u64,
    identity: WindowIdentity,
)
    requires
        after.epoch == before.epoch,
        after.counts =~= before.counts.insert(window, before.lifetime(window).wrapping_add(1)),
        before.is_current(identity),
    ensures
        after.is_current(identity) == (identity.window != window),
{
}

/// An identity is current until its window begins or ends a lifetime or all identities are made
/// outdated, and not after that. Other events and other windows leave it current.
pub proof fn identities_are_outdated(
    lifetimes: Lifetimes,
    window: u64,
    process: ProcessIdentity,
    other: u64,
    lifetime: bool,
)
    requires
        window != 0,
    ensures
        ({
            let identity = lifetimes.identity(window, process);
            &&& identity is Some
            &&& identity->0.window == window && identity->0.process == process
            &&& lifetimes.is_current(identity->0)
            &&& !lifetimes.after_event(window, true).is_current(identity->0)
            &&& !lifetimes.after_invalidation().is_current(identity->0)
            &&& lifetimes.after_event(other, lifetime).is_current(identity->0) <==> !(lifetime
                && other == window)
            &&& lifetimes.after_event(other, lifetime).revision != lifetimes.revision <==> lifetime
            &&& lifetimes.after_invalidation().revision != lifetimes.revision
            &&& lifetimes.identity(0, process) is None
        }),
{
}

/// An identity that was made outdated is not that of the window any more: the window gets another.
pub proof fn new_lifetimes_have_new_identities(
    lifetimes: Lifetimes,
    window: u64,
    process: ProcessIdentity,
)
    requires
        window != 0,
    ensures
        lifetimes.after_event(window, true).identity(window, process) != lifetimes.identity(
            window,
            process,
        ),
        lifetimes.after_invalidation().identity(window, process) != lifetimes.identity(
            window,
            process,
        ),
        lifetimes.after_event(window, false).identity(window, process) == lifetimes.identity(
            window,
            process,
        ),
{
}

}
