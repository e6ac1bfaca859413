//! The foreground watcher: switches the switch-windows hotkey off while a
//! blacklisted application has the focus, and on again when it loses it.
use crate::text::{lowercase, lowercase_of};
use vstd::prelude::*;

verus! {

/// What the watcher asks for after a change of focus.
#[derive(Clone, Copy, Debug, PartialEq, Eq, Structural)]
pub enum WatcherAction {
    /// Nothing is to be done.
    Nothing,
    /// The switch-windows hotkey is to be registered.
    Register,
    /// The switch-windows hotkey is to be deregistered.
    Deregister,
}

/// The watcher's state.
pub struct ForegroundWatcher {
    /// The blacklisted executable names, in lowercase.
    blacklist: Vec<String>,
    /// The executable name seen last, in lowercase.
    last_exe: Option<String>,
    /// Whether the switch-windows hotkey is registered.
    hotkey_active: bool,
}

/// The mathematical content of a `ForegroundWatcher`.
pub struct WatcherModel {
    pub blacklist: Seq<Seq<char>>,
    pub last_exe: Option<Seq<char>>,
    pub active: bool,
}

impl View for ForegroundWatcher {
    type V = WatcherModel;

    closed spec fn view(&self) -> WatcherModel {
        WatcherModel {
            blacklist: self.blacklist.deep_view(),
            last_exe: match self.last_exe {
                Some(exe) => Some(exe@),
                None => None,
            },
            active: self.hotkey_active,
        }
    }
}

/// The names in lowercase.
pub open spec fn lowered_names(names: Seq<Seq<char>>) -> Seq<Seq<char>> {
    Seq::new(names.len(), |i: int| lowercase_of(names[i]))
}

/// The state and the action after the focus went to a window of `exe`. A name
/// that is, in lowercase, the one seen last changes nothing. Otherwise the
/// name is remembered, and the hotkey is deregistered where the name is
/// blacklisted and the hotkey registered, or registered where the name is
/// not blacklisted and the hotkey is not registered.
pub open spec fn spec_focus_change(m: WatcherModel, exe: Seq<char>) -> (WatcherModel, WatcherAction) {
    let name = lowercase_of(exe);
    if m.last_exe == Some(name) {
        (m, WatcherAction::Nothing)
    } else if m.blacklist.contains(name) && m.active {
        (
            WatcherModel { blacklist: m.blacklist, last_exe: Some(name), active: false },
            WatcherAction::Deregister,
        )
    } else if !m.blacklist.contains(name) && !m.active {
        (
            WatcherModel { blacklist: m.blacklist, last_exe: Some(name), active: true },
            WatcherAction::Register,
        )
    } else {
        (
            WatcherModel { blacklist: m.blacklist, last_exe: Some(name), active: m.active },
            WatcherAction::Nothing,
        )
    }
}

/// The state after the action that was asked for has failed: the hotkey is as
/// it was before the action.
pub open spec fn spec_action_failed(m: WatcherModel, action: WatcherAction) -> WatcherModel {
    match action {
        WatcherAction::Nothing => m,
        WatcherAction::Register => WatcherModel {
            blacklist: m.blacklist,
            last_exe: m.last_exe,
            active: false,
        },
        WatcherAction::Deregister => WatcherModel {
            blacklist: m.blacklist,
            last_exe: m.last_exe,
            active: true,
        },
    }
}

/// The state after the focus went through the windows of `exes`, one after
/// the other.
pub open spec fn state_after(m: WatcherModel, exes: Seq<Seq<char>>) -> WatcherModel
    decreases exes.len(),
{
    if exes.len() == 0 {
        m
    } else {
        spec_focus_change(state_after(m, exes.drop_last()), exes.last()).0
    }
}

/// How often `action` was asked for while the focus went through the windows
/// of `exes`.
pub open spec fn times_asked(m: WatcherModel, exes: Seq<Seq<char>>, action: WatcherAction) -> nat
    decreases exes.len(),
{
    if exes.len() == 0 {
        0
    } else {
        let before = times_asked(m, exes.drop_last(), action);
        if spec_focus_change(state_after(m, exes.drop_last()), exes.last()).1 == action {
            before + 1
        } else {
            before
        }
    }
}

/// Focus events on the executable seen last ask for nothing and change nothing.
pub proof fn law_repeated_focus_asks_nothing(m: WatcherModel, exe: Seq<char>)
    ensures
        spec_focus_change(spec_focus_change(m, exe).0, exe) == (
            spec_focus_change(m, exe).0,
            WatcherAction::Nothing,
        ),
{
}

/// Focus going into a blacklisted executable while the hotkey is registered,
/// and staying there for any number of further focus events, asks for exactly
/// one deregistration and no registration, and leaves the hotkey
/// deregistered.
pub proof fn law_entering_blacklist_deregisters_once(m: WatcherModel, exe: Seq<char>, events: nat)
    requires
        m.active,
        m.blacklist.contains(lowercase_of(exe)),
        m.last_exe != Some(lowercase_of(exe)),
        events >= 1,
    ensures
        times_asked(m, Seq::new(events, |i: int| exe), WatcherAction::Deregister) == 1,
        times_asked(m, Seq::new(events, |i: int| exe), WatcherAction::Register) == 0,
        !state_after(m, Seq::new(events, |i: int| exe)).active,
        state_after(m, Seq::new(events, |i: int| exe)).last_exe == Some(lowercase_of(exe)),
    decreases events,
{
    let exes = Seq::new(events, |i: int| exe);
    let head = Seq::new((events - 1) as nat, |i: int| exe);
    assert(exes.drop_last() =~= head);
    assert(exes.last() == exe);
    if events == 1 {
        assert(state_after(m, head) == m);
        assert(times_asked(m, head, WatcherAction::Deregister) == 0);
        assert(times_asked(m, head, WatcherAction::Register) == 0);
    } else {
        law_entering_blacklist_deregisters_once(m, exe, (events - 1) as nat);
    }
}

/// Focus going out of the blacklist while the hotkey is deregistered, and
/// staying on that executable for any number of further focus events, asks
/// for exactly one registration and no deregistration, and leaves the hotkey
/// registered.
pub proof fn law_leaving_blacklist_registers_once(m: WatcherModel, exe: Seq<char>, events: nat)
    requires
        !m.active,
        !m.blacklist.contains(lowercase_of(exe)),
        m.last_exe != Some(lowercase_of(exe)),
        events >= 1,
    ensures
        times_asked(m, Seq::new(events, |i: int| exe), WatcherAction::Register) == 1,
        times_asked(m, Seq::new(events, |i: int| exe), WatcherAction::Deregister) == 0,
        state_after(m, Seq::new(events, |i: int| exe)).active,
        state_after(m, Seq::new(events, |i: int| exe)).last_exe == Some(lowercase_of(exe)),
    decreases events,
{
    let exes = Seq::new(events, |i: int| exe);
    let head = Seq::new((events - 1) as nat, |i: int| exe);
    assert(exes.drop_last() =~= head);
    assert(exes.last() == exe);
    if events == 1 {
        assert(state_after(m, head) == m);
        assert(times_asked(m, head, WatcherAction::Deregister) == 0);
        assert(times_asked(m, head, WatcherAction::Register) == 0);
    } else {
        law_leaving_blacklist_registers_once(m, exe, (events - 1) as nat);
    }
}

impl ForegroundWatcher {
    /// A watcher for this blacklist, with the hotkey registered and no
    /// executable seen yet. Names are compared in lowercase.
    pub fn init(blacklist: &Vec<String>) -> (r: Self)
        ensures
            r@.blacklist == lowered_names(blacklist.deep_view()),
            r@.last_exe is None,
            r@.active,
    {
        let mut names: Vec<String> = Vec::new();
        let mut i: usize = 0;
        while i < blacklist.len()
            invariant
                0 <= i <= blacklist.len(),
                names.len() == i,
                forall|k: int| 0 <= k < i ==> (#[trigger] names@[k])@ == lowercase_of(blacklist@[k]@),
            decreases blacklist.len() - i,
        {
            names.push(lowercase(blacklist[i].as_str()));
            i += 1;
        }
        proof {
            assert(names.deep_view() =~= lowered_names(blacklist.deep_view()));
        }
        ForegroundWatcher { blacklist: names, last_exe: None, hotkey_active: true }
    }

    /// Whether the hotkey is registered, as far as the watcher knows.
    pub fn is_hotkey_active(&self) -> (r: bool)
        ensures
            r == self@.active,
    {
        self.hotkey_active
    }

    /// Whether a name, given in lowercase, is blacklisted.
    pub fn is_blacklisted(&self, name: &String) -> (r: bool)
        ensures
            r == self@.blacklist.contains(name@),
    {
        let mut i: usize = 0;
        while i < self.blacklist.len()
            invariant
                0 <= i <= self.blacklist.len(),
                forall|k: int| 0 <= k < i ==> (#[trigger] self.blacklist@[k])@ != name@,
            decreases self.blacklist.len() - i,
        {
            if self.blacklist[i] == *name {
                proof {
                    assert(self.blacklist.deep_view()[i as int] == name@);
                }
                return true;
            }
            i += 1;
        }
        proof {
            assert forall|k: int| 0 <= k < self.blacklist.deep_view().len() implies self.blacklist.deep_view()[k]
                != name@ by {
                assert(self.blacklist.deep_view()[k] == self.blacklist@[k]@);
            }
        }
        false
    }

    /// The focus went to a window of the executable `exe`.
    pub fn on_focus_change(&mut self, exe: &str) -> (action: WatcherAction)
        ensures
            (final(self)@, action) == spec_focus_change(old(self)@, exe@),
    {
        let name = lowercase(exe);
        let same = match &self.last_exe {
            Some(last) => *last == name,
            None => false,
        };
        if same {
            return WatcherAction::Nothing;
        }
        let listed = self.is_blacklisted(&name);
        self.last_exe = Some(name);
        if listed && self.hotkey_active {
            self.hotkey_active = false;
            WatcherAction::Deregister
        } else if !listed && !self.hotkey_active {
            self.hotkey_active = true;
            WatcherAction::Register
        } else {
            WatcherAction::Nothing
        }
    }

    /// The action that was asked for has failed.
    pub fn action_failed(&mut self, action: WatcherAction)
        ensures
            final(self)@ == spec_action_failed(old(self)@, action),
    {
        match action {
            WatcherAction::Nothing => {},
            WatcherAction::Register => {
                self.hotkey_active = false;
            },
            WatcherAction::Deregister => {
                self.hotkey_active = true;
            },
        }
    }
}

} // verus!
