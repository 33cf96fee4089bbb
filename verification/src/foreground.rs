//! What the window in the foreground permits.

use vstd::prelude::*;

use crate::config::overrides::{lower_unicode, unicode_lower};
use crate::config::schema::Config;
use crate::config::types::ForegroundPolicy;
use crate::text::{same_str, strings};

verus! {

/// What was found out about the process of a window.
#[derive(Debug, Clone, Copy, PartialEq, Eq, Structural)]
pub struct Snapshot {
    pub window: u64,
    pub version: u64,
    pub windows: bool,
    pub apps: bool,
}

/// The texts in lower case.
pub open spec fn lower_all(list: Seq<String>) -> Seq<Seq<char>> {
    Seq::new(list.len(), |i: int| unicode_lower(list[i]@))
}

/// The state of the foreground as a mathematical value.
#[verifier::ext_equal]
pub struct Foreground {
    pub windows_blacklist: Seq<Seq<char>>,
    pub apps_blacklist: Seq<Seq<char>>,
    pub unknown: ForegroundPolicy,
    pub owner: u64,
    pub requested: u64,
    pub version: u64,
    pub snapshot: Option<Snapshot>,
}

impl Foreground {
    /// Whether a switch is permitted while a window is in the foreground. `owned` says whether
    /// the window belongs to the switcher, `contended` whether the state is being changed.
    pub open spec fn permits(self, apps: bool, current: u64, owned: bool, contended: bool) -> bool {
        let unknown = self.unknown == ForegroundPolicy::Handle;
        let list = if apps {
            self.apps_blacklist
        } else {
            self.windows_blacklist
        };
        if current == 0 {
            unknown
        } else if list.len() == 0 {
            true
        } else if contended {
            unknown
        } else {
            match self.snapshot {
                Some(snapshot) => if snapshot.version == self.version && (snapshot.window == current
                    || current == self.owner || owned) {
                    if apps {
                        snapshot.apps
                    } else {
                        snapshot.windows
                    }
                } else {
                    unknown
                },
                None => unknown,
            }
        }
    }

    /// The state after another window came to the foreground; the switcher's own window does not
    /// count.
    pub open spec fn asked(self, window: u64) -> Foreground {
        if window == self.owner {
            self
        } else {
            Foreground { requested: window, version: self.version.wrapping_add(1), ..self }
        }
    }

    /// The state after the process of a window was looked up.
    pub open spec fn answered(
        self,
        version: u64,
        window: u64,
        executable: Option<Seq<char>>,
    ) -> Foreground {
        if self.version != version || self.requested != window {
            self
        } else {
            Foreground {
                snapshot: match executable {
                    Some(name) => Some(
                        Snapshot {
                            window,
                            version,
                            windows: !self.windows_blacklist.contains(name),
                            apps: !self.apps_blacklist.contains(name),
                        },
                    ),
                    None => None,
                },
                ..self
            }
        }
    }
}

/// The state of the foreground.
pub struct ForegroundStatus {
    pub windows_blacklist: Vec<String>,
    pub apps_blacklist: Vec<String>,
    pub unknown: ForegroundPolicy,
    pub owner: u64,
    pub requested: u64,
    pub version: u64,
    pub snapshot: Option<Snapshot>,
}

impl View for ForegroundStatus {
    type V = Foreground;

    open spec fn view(&self) -> Foreground {
        Foreground {
            windows_blacklist: strings(self.windows_blacklist@),
            apps_blacklist: strings(self.apps_blacklist@),
            unknown: self.unknown,
            owner: self.owner,
            requested: self.requested,
            version: self.version,
            snapshot: self.snapshot,
        }
    }
}

fn lower_list(list: &Vec<String>) -> (r: Vec<String>)
    ensures
        strings(r@) == lower_all(list@),
{
    let mut r: Vec<String> = Vec::new();
    for i in 0..list.len()
        invariant
            strings(r@) == lower_all(list@).take(i as int),
    {
        let ghost before = strings(r@);
        r.push(lower_unicode(list[i].as_str()));
        assert(strings(r@) =~= before.push(unicode_lower(list@[i as int]@)));
        assert(lower_all(list@).take(i + 1) =~= lower_all(list@).take(i as int).push(
            lower_all(list@)[i as int],
        ));
    }
    assert(lower_all(list@).take(list@.len() as int) =~= lower_all(list@));
    r
}

fn listed(list: &Vec<String>, name: &str) -> (r: bool)
    ensures
        r == strings(list@).contains(name@),
{
    for i in 0..list.len()
        invariant
            forall|k: int| 0 <= k < i ==> (#[trigger] list@[k])@ != name@,
    {
        if same_str(list[i].as_str(), name) {
            assert(strings(list@)[i as int] == name@);
            return true;
        }
    }
    false
}

impl ForegroundStatus {
    /// The state for a switcher whose window is `owner`, while a window is in the foreground.
    pub fn new(config: &Config, owner: u64, foreground: u64) -> (r: Self)
        ensures
            r@ == (Foreground {
                windows_blacklist: lower_all(config.switch_windows_blacklist@),
                apps_blacklist: lower_all(config.switch_apps_blacklist@),
                unknown: config.unknown_foreground,
                owner,
                requested: foreground,
                version: 1,
                snapshot: None,
            }),
    {
        ForegroundStatus {
            windows_blacklist: lower_list(&config.switch_windows_blacklist),
            apps_blacklist: lower_list(&config.switch_apps_blacklist),
            unknown: config.unknown_foreground,
            owner,
            requested: foreground,
            version: 1,
            snapshot: None,
        }
    }

    /// Takes note of another window in the foreground.
    pub fn request(&mut self, window: u64)
        ensures
            final(self)@ == old(self)@.asked(window),
    {
        if window == self.owner {
            return ;
        }
        self.requested = window;
        self.version = self.version.wrapping_add(1);
    }

    /// Whether a switch is permitted while a window is in the foreground.
    pub fn allows(&self, apps: bool, current: u64, owned: bool, contended: bool) -> (r: bool)
        ensures
            r == self@.permits(apps, current, owned, contended),
    {
        let unknown = self.unknown == ForegroundPolicy::Handle;
        if current == 0 {
            return unknown;
        }
        let empty = if apps {
            self.apps_blacklist.len() == 0
        } else {
            self.windows_blacklist.len() == 0
        };
        if empty {
            return true;
        }
        if contended {
            return unknown;
        }
        match self.snapshot {
            Some(snapshot) => {
                if snapshot.version == self.version && (snapshot.window == current || current
                    == self.owner || owned) {
                    if apps {
                        snapshot.apps
                    } else {
                        snapshot.windows
                    }
                } else {
                    unknown
                }
            },
            None => unknown,
        }
    }

    /// The window whose process is to be looked up, and the version of the question; none where
    /// the last version is answered.
    pub fn pending(&self, resolved: u64) -> (r: Option<(u64, u64)>)
        ensures
            r == (if resolved == self@.version {
                None
            } else {
                Some((self@.version, self@.requested))
            }),
    {
        if resolved == self.version {
            None
        } else {
            Some((self.version, self.requested))
        }
    }

    /// Takes the executable of a process, in lower case, as the answer to a question; returns
    /// whether the question was still open.
    pub fn resolve(&mut self, version: u64, window: u64, executable: Option<&str>) -> (r: bool)
        ensures
            r == (old(self)@.version == version && old(self)@.requested == window),
            final(self)@ == old(self)@.answered(
                version,
                window,
                crate::config_schema::name_view(executable),
            ),
    {
        if self.version != version || self.requested != window {
            return false;
        }
        self.snapshot = match executable {
            Some(name) => Some(
                Snapshot {
                    window,
                    version,
                    windows: !listed(&self.windows_blacklist, name),
                    apps: !listed(&self.apps_blacklist, name),
                },
            ),
            None => None,
        };
        true
    }

    /// Outdates what is known, when the switcher stops to watch.
    pub fn retire(&mut self)
        ensures
            final(self)@ == (Foreground {
                version: old(self)@.version.wrapping_add(1),
                ..old(self)@
            }),
    {
        self.version = self.version.wrapping_add(1);
    }
}

/// The event of a window coming to the foreground.
pub const EVENT_FOREGROUND: u32 = 0x3;

/// What an event of the system means.
#[derive(Debug, Clone, Copy, PartialEq, Eq, Structural)]
pub enum WindowEvent {
    Ignored,
    /// The window is in the foreground.
    Foreground,
    /// The window changed; its lifetime began or ended where `lifetime` is set.
    Changed { lifetime: bool },
}

/// Whether the event is one of a window being created or destroyed.
pub open spec fn is_lifetime_event(event: u32) -> bool {
    event == 0x8000 || event == 0x8001
}

/// Whether the event is one of a window being shown, hidden, renamed, changed in state, or
/// cloaked and uncloaked.
pub open spec fn is_change_event(event: u32) -> bool {
    event == 0x8002 || event == 0x8003 || event == 0x800a || event == 0x800c || event == 0x8017
        || event == 0x8018
}

/// What an event of the system means. Only events of windows themselves count, not those of
/// their parts.
pub fn window_event(event: u32, window: u64, object: i32, child: i32) -> (r: WindowEvent)
    ensures
        r == (if event == EVENT_FOREGROUND {
            WindowEvent::Foreground
        } else if object == 0 && child == 0 && window != 0 && (is_lifetime_event(event)
            || is_change_event(event)) {
            WindowEvent::Changed { lifetime: is_lifetime_event(event) }
        } else {
            WindowEvent::Ignored
        }),
{
    if event == EVENT_FOREGROUND {
        return WindowEvent::Foreground;
    }
    let lifetime = event == 0x8000 || event == 0x8001;
    let change = event == 0x8002 || event == 0x8003 || event == 0x800a || event == 0x800c || event
        == 0x8017 || event == 0x8018;
    if object == 0 && child == 0 && window != 0 && (lifetime || change) {
        WindowEvent::Changed { lifetime }
    } else {
        WindowEvent::Ignored
    }
}

/// After another window came to the foreground nothing that was found out before is used: where a
/// list applies, the rule for unknown windows holds until the new process is looked up.
pub proof fn old_conclusions_are_not_reused(
    before: Foreground,
    window: u64,
    apps: bool,
    current: u64,
    owned: bool,
    contended: bool,
)
    requires
        window != before.owner,
        before.snapshot is Some ==> before.snapshot->0.version <= before.version,
        before.version < u64::MAX,
        current != 0,
        (if apps {
            before.apps_blacklist
        } else {
            before.windows_blacklist
        }).len() > 0,
    ensures
        before.asked(window).permits(apps, current, owned, contended) == (before.unknown
            == ForegroundPolicy::Handle),
{
}

/// A list that is empty permits its switch whatever window is in the foreground.
pub proof fn empty_list_permits(
    state: Foreground,
    apps: bool,
    current: u64,
    owned: bool,
    contended: bool,
)
    requires
        current != 0,
        (if apps {
            state.apps_blacklist
        } else {
            state.windows_blacklist
        }).len() == 0,
    ensures
        state.permits(apps, current, owned, contended),
{
}

/// The two lists are independent: once a process is looked up, each switch is refused exactly
/// where its own list names the process.
pub proof fn lists_are_independent(
    state: Foreground,
    name: Seq<char>,
    apps: bool,
    owned: bool,
)
    requires
        state.requested != 0,
    ensures
        state.answered(state.version, state.requested, Some(name)).permits(
            apps,
            state.requested,
            owned,
            false,
        ) == !(if apps {
            state.apps_blacklist
        } else {
            state.windows_blacklist
        }).contains(name),
{
}

/// An answer to an outdated question changes nothing.
pub proof fn late_answers_are_dropped(
    state: Foreground,
    version: u64,
    window: u64,
    executable: Option<Seq<char>>,
)
    requires
        version != state.version || window != state.requested,
    ensures
        state.answered(version, window, executable) == state,
{
}

/// Which switches a foreground permits: without a window in the foreground, without a conclusion
/// of the current version, or with one about another window, the rule for unknown windows decides.
/// A conclusion counts for its window and for the windows of the switcher itself.
pub proof fn permissions_of_the_foreground(
    state: Foreground,
    apps: bool,
    current: u64,
    owned: bool,
    contended: bool,
)
    ensures
        ({
            let permitted = state.permits(apps, current, owned, contended);
            let handled = state.unknown == ForegroundPolicy::Handle;
            let list = if apps {
                state.apps_blacklist
            } else {
                state.windows_blacklist
            };
            let known = state.snapshot is Some && state.snapshot->0.version == state.version;
            let about = known && (state.snapshot->0.window == current || current == state.owner
                || owned);
            &&& current == 0 ==> permitted == handled
            &&& current != 0 && list.len() > 0 && (contended || !about) ==> permitted == handled
            &&& current != 0 && list.len() > 0 && !contended && about && apps ==> permitted
                == state.snapshot->0.apps
            &&& current != 0 && list.len() > 0 && !contended && about && !apps ==> permitted
                == state.snapshot->0.windows
        }),
{
}

/// A conclusion is about the window and the version that were asked for, and it is drawn only from
/// an executable. The rest of the state stays.
pub proof fn conclusions_name_their_window(
    state: Foreground,
    executable: Option<Seq<char>>,
)
    ensures
        ({
            let after = state.answered(state.version, state.requested, executable);
            &&& after.snapshot is Some <==> executable is Some
            &&& executable matches Some(name) ==> after.snapshot == Some(
                Snapshot {
                    window: state.requested,
                    version: state.version,
                    windows: !state.windows_blacklist.contains(name),
                    apps: !state.apps_blacklist.contains(name),
                },
            )
            &&& after.version == state.version
            &&& after.requested == state.requested
            &&& after.owner == state.owner
            &&& after.unknown == state.unknown
            &&& after.windows_blacklist == state.windows_blacklist
            &&& after.apps_blacklist == state.apps_blacklist
        }),
{
}

/// Another window in the foreground is asked about under a new version; the switcher's own window
/// is not.
pub proof fn windows_are_asked_about(state: Foreground, window: u64)
    ensures
        window == state.owner ==> state.asked(window) == state,
        window != state.owner ==> state.asked(window) == (Foreground {
            requested: window,
            version: state.version.wrapping_add(1),
            ..state
        }),
{
}

/// The events of windows by their numbers: created and destroyed; shown, hidden, changed in state,
/// renamed, cloaked and uncloaked.
pub proof fn event_numbers(event: u32)
    ensures
        is_lifetime_event(event) <==> 0x8000 <= event <= 0x8001,
        is_change_event(event) <==> 0x8002 <= event <= 0x8003 || event == 0x800a || event == 0x800c
            || 0x8017 <= event <= 0x8018,
{
}

}
