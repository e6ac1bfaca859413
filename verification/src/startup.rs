//! Start with the system: what toggling the setting asks of the registry
//! and of the task scheduler.
use vstd::prelude::*;

verus! {

/// One thing that toggling asks for.
#[derive(Clone, Copy, Debug, PartialEq, Eq, Structural)]
pub enum StartupAction {
    /// Delete the scheduled task.
    DeleteTask,
    /// Create the scheduled task.
    CreateTask,
    /// Delete the value under the run key.
    DisableRegistry,
    /// Write the executable's path under the run key.
    EnableRegistry,
    /// Tell the user that the scheduled task stands in the way.
    AlertConflict,
}

/// Whether the program starts with the system, and by which means it would.
pub struct Startup {
    /// An elevated process starts by scheduled task, any other by the run key.
    pub is_admin: bool,
    pub is_enable: bool,
    pub exe_path: Vec<u16>,
}

/// Whether the value under the run key is this executable's path.
pub fn reg_is_enable(exe_path: &Vec<u16>, value: &Option<Vec<u16>>) -> (r: bool)
    ensures
        r == match value {
            Some(v) => v@ == exe_path@,
            None => false,
        },
{
    match value {
        Some(v) => same_units(v, exe_path),
        None => false,
    }
}

/// Whether two wide strings hold the same code units.
pub fn same_units(a: &Vec<u16>, b: &Vec<u16>) -> (r: bool)
    ensures
        r == (a@ == b@),
{
    if a.len() != b.len() {
        return false;
    }
    let mut i: usize = 0;
    while i < a.len()
        invariant
            0 <= i <= a.len(),
            a.len() == b.len(),
            forall|k: int| 0 <= k < i ==> a@[k] == b@[k],
        decreases a.len() - i,
    {
        if a[i] != b[i] {
            return false;
        }
        i += 1;
    }
    proof {
        assert(a@ =~= b@);
    }
    true
}

/// What toggling asks for, in order.
///
/// Elevated and enabled: the task is deleted. Elevated and disabled: the
/// run-key value, if it names this executable, is deleted, and the task
/// created. Not elevated and enabled: the run-key value is deleted. Not
/// elevated and disabled: the run-key value is written, unless the task
/// exists, in which case the user is told and nothing changes.
pub open spec fn toggle_actions(is_admin: bool, is_enable: bool, registry_enabled: bool, task_exists: bool) -> Seq<
    StartupAction,
> {
    if is_admin && is_enable {
        seq![StartupAction::DeleteTask]
    } else if is_admin {
        if registry_enabled {
            seq![StartupAction::DisableRegistry, StartupAction::CreateTask]
        } else {
            seq![StartupAction::CreateTask]
        }
    } else if is_enable {
        seq![StartupAction::DisableRegistry]
    } else if task_exists {
        seq![StartupAction::AlertConflict]
    } else {
        seq![StartupAction::EnableRegistry]
    }
}

/// Whether the program starts with the system once the actions are done.
pub open spec fn enabled_after_toggle(is_admin: bool, is_enable: bool, task_exists: bool) -> bool {
    if !is_admin && !is_enable && task_exists {
        false
    } else {
        !is_enable
    }
}

impl Startup {
    /// The state at start: an elevated process is enabled where its task
    /// exists, any other where the run key names this executable.
    pub fn init(is_admin: bool, exe_path: Vec<u16>, task_exists: bool, registry_value: &Option<Vec<u16>>) -> (r:
        Self)
        ensures
            r.is_admin == is_admin,
            r.exe_path@ == exe_path@,
            r.is_enable == if is_admin {
                task_exists
            } else {
                match registry_value {
                    Some(v) => v@ == exe_path@,
                    None => false,
                }
            },
    {
        let is_enable = if is_admin {
            task_exists
        } else {
            reg_is_enable(&exe_path, registry_value)
        };
        Startup { is_admin, is_enable, exe_path }
    }

    /// Toggles the setting: returns the actions to perform, in order, and
    /// records the state that holds once they are done.
    pub fn toggle(&mut self, registry_enabled: bool, task_exists: bool) -> (actions: Vec<StartupAction>)
        ensures
            actions@ == toggle_actions(old(self).is_admin, old(self).is_enable, registry_enabled, task_exists),
            final(self).is_enable == enabled_after_toggle(
                old(self).is_admin,
                old(self).is_enable,
                task_exists,
            ),
            final(self).is_admin == old(self).is_admin,
            final(self).exe_path@ == old(self).exe_path@,
    {
        let mut actions: Vec<StartupAction> = Vec::new();
        if self.is_admin && self.is_enable {
            actions.push(StartupAction::DeleteTask);
            self.is_enable = false;
        } else if self.is_admin {
            if registry_enabled {
                actions.push(StartupAction::DisableRegistry);
            }
            actions.push(StartupAction::CreateTask);
            self.is_enable = true;
        } else if self.is_enable {
            actions.push(StartupAction::DisableRegistry);
            self.is_enable = false;
        } else if task_exists {
            actions.push(StartupAction::AlertConflict);
        } else {
            actions.push(StartupAction::EnableRegistry);
            self.is_enable = true;
        }
        proof {
            assert(actions@ =~= toggle_actions(
                old(self).is_admin,
                old(self).is_enable,
                registry_enabled,
                task_exists,
            ));
        }
        actions
    }

    /// An action of the last toggle has failed: the setting is as it was.
    pub fn toggle_failed(&mut self, was_enabled: bool)
        ensures
            final(self).is_enable == was_enabled,
            final(self).is_admin == old(self).is_admin,
            final(self).exe_path@ == old(self).exe_path@,
    {
        self.is_enable = was_enabled;
    }
}

} // verus!
