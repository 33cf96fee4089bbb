//! Cross-feature rules of bindings and of the way back from a pause.

use vstd::prelude::*;

use crate::config::hotkey::Hotkey;
use crate::config::schema::Config;

verus! {

/// What is wrong with the bindings of a configuration.
#[derive(Debug, Clone, PartialEq, Eq)]
pub enum BindingProblem {
    /// Two enabled functions share a binding: the names of the functions.
    Conflict { first: String, second: String },
    /// Input is paused, and neither the tray icon nor a binding can resume it.
    NoRecovery,
}

impl Hotkey {
    /// A copy of the binding.
    pub fn copy(&self) -> (r: Hotkey)
        ensures
            r == *self,
    {
        Hotkey { id: self.id, name: self.name.clone(), modifier: self.modifier, code: self.code }
    }
}

/// Whether two bindings of different functions have the same keys.
pub open spec fn clash(first: Hotkey, second: Hotkey) -> bool {
    first.id != second.id && first.modifier@[0] == second.modifier@[0] && first.code == second.code
}

/// The first clashing pair, from the pair `(i, j)` on, in the order of the earlier binding.
pub open spec fn first_clash(hotkeys: Seq<Hotkey>, i: int, j: int) -> Option<(int, int)>
    decreases hotkeys.len() - i, hotkeys.len() - j,
{
    if i < 0 || i >= hotkeys.len() {
        None
    } else if j >= hotkeys.len() {
        first_clash(hotkeys, i + 1, i + 2)
    } else if clash(hotkeys[i], hotkeys[j]) {
        Some((i, j))
    } else {
        first_clash(hotkeys, i, j + 1)
    }
}

impl Config {
    /// The bindings of the enabled functions. The details binding belongs to the panel.
    pub open spec fn enabled_hotkeys(self) -> Seq<Hotkey> {
        let windows = if self.switch_windows_enable {
            self.switch_windows_hotkey@
        } else {
            seq![]
        };
        let apps = if self.switch_apps_enable {
            self.switch_apps_hotkey@
        } else {
            seq![]
        };
        let search = if self.search_enable {
            seq![self.search_hotkey]
        } else {
            seq![]
        };
        let pause = match self.pause_hotkey {
            Some(hotkey) => seq![hotkey],
            None => seq![],
        };
        let details = if self.details_enable && self.switch_apps_enable {
            seq![self.details_hotkey]
        } else {
            seq![]
        };
        windows + apps + search + pause + details
    }

    /// The bindings of the enabled functions.
    pub fn to_hotkeys(&self) -> (r: Vec<Hotkey>)
        ensures
            r@ == self.enabled_hotkeys(),
    {
        let mut r: Vec<Hotkey> = Vec::new();
        let ghost windows = if self.switch_windows_enable {
            self.switch_windows_hotkey@
        } else {
            seq![]
        };
        let ghost apps = if self.switch_apps_enable {
            self.switch_apps_hotkey@
        } else {
            seq![]
        };
        if self.switch_windows_enable {
            push_copies(&mut r, &self.switch_windows_hotkey);
        }
        assert(r@ =~= windows);
        if self.switch_apps_enable {
            push_copies(&mut r, &self.switch_apps_hotkey);
        }
        assert(r@ =~= windows + apps);
        if self.search_enable {
            r.push(self.search_hotkey.copy());
        }
        if let Some(hotkey) = &self.pause_hotkey {
            r.push(hotkey.copy());
        }
        if self.details_enable && self.switch_apps_enable {
            r.push(self.details_hotkey.copy());
        }
        assert(r@ =~= self.enabled_hotkeys());
        r
    }
}

fn push_copies(r: &mut Vec<Hotkey>, hotkeys: &Vec<Hotkey>)
    ensures
        final(r)@ == old(r)@ + hotkeys@,
{
    for i in 0..hotkeys.len()
        invariant
            r@ == old(r)@ + hotkeys@.take(i as int),
    {
        r.push(hotkeys[i].copy());
        assert(hotkeys@.take(i + 1) == hotkeys@.take(i as int).push(hotkeys@[i as int]));
    }
    assert(hotkeys@.take(hotkeys@.len() as int) == hotkeys@);
}

/// Whether input is paused with no way to resume it.
pub open spec fn no_recovery(config: Config) -> bool {
    config.input_paused && !config.trayicon && config.pause_hotkey is None
}

/// The clash of enabled bindings.
pub open spec fn clash_problem(config: Config) -> Option<BindingProblem> {
    let hotkeys = config.enabled_hotkeys();
    match first_clash(hotkeys, 0, 1) {
        Some((i, j)) => Some(
            BindingProblem::Conflict { first: hotkeys[i].name, second: hotkeys[j].name },
        ),
        None => None,
    }
}

/// What is wrong with the bindings of a configuration.
pub open spec fn bindings_problem(config: Config) -> Option<BindingProblem> {
    if clash_problem(config) is Some {
        clash_problem(config)
    } else if no_recovery(config) {
        Some(BindingProblem::NoRecovery)
    } else {
        None
    }
}

/// Rejects clashing bindings.
pub fn validate_hotkeys(config: &Config) -> (r: Result<(), BindingProblem>)
    ensures
        r == (match clash_problem(*config) {
            Some(problem) => Err(problem),
            None => Ok(()),
        }),
{
    let hotkeys = config.to_hotkeys();
    let mut i: usize = 0;
    while i < hotkeys.len()
        invariant
            i <= hotkeys@.len(),
            hotkeys@ == config.enabled_hotkeys(),
            first_clash(hotkeys@, 0, 1) == first_clash(hotkeys@, i as int, i + 1),
        decreases hotkeys@.len() - i,
    {
        let mut j: usize = i + 1;
        while j < hotkeys.len()
            invariant
                i < hotkeys@.len(),
                i + 1 <= j <= hotkeys@.len(),
                hotkeys@ == config.enabled_hotkeys(),
                first_clash(hotkeys@, 0, 1) == first_clash(hotkeys@, i as int, j as int),
            decreases hotkeys@.len() - j,
        {
            let first = &hotkeys[i];
            let second = &hotkeys[j];
            if first.id != second.id && first.get_modifier() == second.get_modifier() && first.code
                == second.code {
                return Err(
                    BindingProblem::Conflict {
                        first: first.name.clone(),
                        second: second.name.clone(),
                    },
                );
            }
            j += 1;
        }
        i += 1;
    }
    Ok(())
}

/// Rejects clashing bindings, and a pause without a way back.
pub fn validate(config: &Config) -> (r: Result<(), BindingProblem>)
    ensures
        r == (match bindings_problem(*config) {
            Some(problem) => Err(problem),
            None => Ok(()),
        }),
{
    match validate_hotkeys(config) {
        Err(problem) => {
            return Err(problem);
        },
        Ok(()) => {},
    }
    if config.input_paused && !config.trayicon && config.pause_hotkey.is_none() {
        return Err(BindingProblem::NoRecovery);
    }
    Ok(())
}

proof fn no_clash_from(hotkeys: Seq<Hotkey>, i: int, j: int, a: int, b: int)
    requires
        first_clash(hotkeys, i, j) is None,
        0 <= i < j,
        a > i || (a == i && b >= j),
        a < b < hotkeys.len(),
    ensures
        !clash(hotkeys[a], hotkeys[b]),
    decreases hotkeys.len() - i, hotkeys.len() - j,
{
    if j >= hotkeys.len() {
        no_clash_from(hotkeys, i + 1, i + 2, a, b);
    } else if a > i || b > j {
        no_clash_from(hotkeys, i, j + 1, a, b);
    }
}

/// A clash that is found is one.
pub proof fn clash_found(hotkeys: Seq<Hotkey>, i: int, j: int)
    requires
        first_clash(hotkeys, i, j) is Some,
        0 <= i < j,
    ensures
        ({
            let (a, b) = first_clash(hotkeys, i, j)->0;
            0 <= a < b < hotkeys.len() && clash(hotkeys[a], hotkeys[b])
        }),
    decreases hotkeys.len() - i, hotkeys.len() - j,
{
    if j >= hotkeys.len() {
        clash_found(hotkeys, i + 1, i + 2);
    } else if !clash(hotkeys[i], hotkeys[j]) {
        clash_found(hotkeys, i, j + 1);
    }
}

/// A configuration has a clash exactly where two enabled functions share their keys.
pub proof fn clash_means_shared_keys(config: Config)
    ensures
        clash_problem(config) is Some <==> exists|a: int, b: int|
            0 <= a < b < config.enabled_hotkeys().len() && clash(
                #[trigger] config.enabled_hotkeys()[a],
                #[trigger] config.enabled_hotkeys()[b],
            ),
{
    let hotkeys = config.enabled_hotkeys();
    if clash_problem(config) is Some {
        clash_found(hotkeys, 0, 1);
    } else {
        assert forall|a: int, b: int| 0 <= a < b < hotkeys.len() implies !clash(
            #[trigger] hotkeys[a],
            #[trigger] hotkeys[b],
        ) by {
            no_clash_from(hotkeys, 0, 1, a, b);
        }
    }
}

/// A function that is switched off takes part in no clash: with both switches off only the
/// search and the pause binding remain, and the details binding needs the panel.
pub proof fn only_enabled_bindings_clash(config: Config)
    requires
        !config.switch_windows_enable,
        !config.switch_apps_enable,
        !config.search_enable || config.pause_hotkey is None,
    ensures
        clash_problem(config) is None,
{
    if clash_problem(config) is Some {
        clash_found(config.enabled_hotkeys(), 0, 1);
        assert(config.enabled_hotkeys().len() <= 1);
    }
}

/// An accepted paused configuration can be resumed.
pub proof fn paused_configuration_has_a_way_back(config: Config)
    requires
        bindings_problem(config) is None,
        config.input_paused,
    ensures
        config.trayicon || config.pause_hotkey is Some,
{
}

}
