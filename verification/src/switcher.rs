//! The cycle state machine: which window a press of the switch-windows hotkey
//! activates, which application a press of the switch-apps hotkey previews,
//! and what is remembered between presses.
use crate::cycle::{
    advance_index, find_handle, lemma_reconciled_order, reconcile_order, reconciled_order,
    step_index,
};
use crate::config::{SWITCH_APPS_HOTKEY_ID, SWITCH_WINDOWS_HOTKEY_ID};
use crate::groups::WindowGroups;
use crate::keyboard::Command;
use crate::ordered::{handle_position, key_position, lemma_handle_position};
use crate::text::str_eq;
use vstd::prelude::*;

verus! {

/// What one press of the switch-windows hotkey leaves behind for the next.
pub struct SwitchWindowsCache {
    /// The executable whose windows are being cycled.
    pub executable_key: String,
    /// The window that was frontmost when the gesture started.
    pub anchor_handle: isize,
    /// Position of the last target in `ordered_handles`.
    pub index: usize,
    /// The traversal order, frozen while the modifier is held.
    pub ordered_handles: Vec<isize>,
}

/// The mathematical content of a `SwitchWindowsCache`.
pub struct CacheModel {
    pub key: Seq<char>,
    pub anchor: isize,
    pub index: nat,
    pub ordered: Seq<isize>,
}

impl View for SwitchWindowsCache {
    type V = CacheModel;

    open spec fn view(&self) -> CacheModel {
        CacheModel {
            key: self.executable_key@,
            anchor: self.anchor_handle,
            index: self.index as nat,
            ordered: self.ordered_handles@,
        }
    }
}

/// The switch-windows state: the cache, and whether the modifier was released
/// since the cache was written.
pub struct SwitchWindowsState {
    pub cache: Option<SwitchWindowsCache>,
    pub modifier_released: bool,
}

/// The mathematical content of a `SwitchWindowsState`.
pub struct WindowsModel {
    pub cache: Option<CacheModel>,
    pub released: bool,
}

impl View for SwitchWindowsState {
    type V = WindowsModel;

    open spec fn view(&self) -> WindowsModel {
        WindowsModel {
            cache: match self.cache {
                Some(c) => Some(c@),
                None => None,
            },
            released: self.modifier_released,
        }
    }
}

/// The preview of an app-switch gesture: one entry per application, and the
/// entry that is selected.
pub struct SwitchAppsState {
    /// Executable key and activation handle of each application.
    pub apps: Vec<(String, isize)>,
    pub index: usize,
}

/// The mathematical content of a `SwitchAppsState`.
pub struct AppsModel {
    pub apps: Seq<(Seq<char>, isize)>,
    pub index: nat,
}

impl View for SwitchAppsState {
    type V = AppsModel;

    open spec fn view(&self) -> AppsModel {
        AppsModel { apps: self.apps.deep_view(), index: self.index as nat }
    }
}

/// Whether a cache can steer the step for this group: it was written for the
/// same executable, and the group has more than two windows.
pub open spec fn cache_usable(cache: Option<CacheModel>, key: Seq<char>, group: Seq<isize>) -> bool {
    cache is Some && cache->0.key == key && group.len() > 2
}

/// The cache that a step over `group` writes.
pub open spec fn next_cache(reverse: bool, key: Seq<char>, group: Seq<isize>, st: WindowsModel) -> CacheModel
    recommends
        group.len() > 1,
{
    if cache_usable(st.cache, key, group) && !st.released {
        let ordered = reconciled_order(st.cache->0.ordered, group);
        CacheModel {
            key,
            anchor: st.cache->0.anchor,
            index: step_index(st.cache->0.index, ordered.len(), reverse),
            ordered,
        }
    } else if cache_usable(st.cache, key, group) {
        CacheModel {
            key,
            anchor: group[0],
            index: match handle_position(group, st.cache->0.anchor) {
                Some(i) => i as nat,
                None => 1,
            },
            ordered: group,
        }
    } else {
        CacheModel { key, anchor: group[0], index: 1, ordered: group }
    }
}

/// One switch-windows step over the group of the focused executable: the
/// handle to activate and the state afterwards. A group of fewer than two
/// windows gives no target and leaves the state as it is.
pub open spec fn step_group(reverse: bool, key: Seq<char>, group: Seq<isize>, st: WindowsModel) -> (
    Option<isize>,
    WindowsModel,
) {
    if group.len() <= 1 {
        (None, st)
    } else {
        let cache = next_cache(reverse, key, group, st);
        (Some(cache.ordered[cache.index as int]), WindowsModel { cache: Some(cache), released: false })
    }
}

/// One switch-windows step over a snapshot: the step over the group whose key
/// is the focused executable, or nothing when the snapshot has no such group.
pub open spec fn spec_next_window(
    reverse: bool,
    groups: Seq<(Seq<char>, Seq<isize>)>,
    focused_key: Seq<char>,
    st: WindowsModel,
) -> (Option<isize>, WindowsModel) {
    match key_position(groups, focused_key) {
        Some(i) => step_group(reverse, focused_key, groups[i].1, st),
        None => (None, st),
    }
}

/// The cache holds a valid index, and the handle at that index is `target`.
pub open spec fn written_index_valid(cache: CacheModel, target: isize) -> bool {
    cache.index < cache.ordered.len() && cache.ordered[cache.index as int] == target
}

/// The index that a step writes lies inside the order that it writes.
pub proof fn lemma_next_cache_index(reverse: bool, key: Seq<char>, group: Seq<isize>, st: WindowsModel)
    requires
        group.len() > 1,
    ensures
        next_cache(reverse, key, group, st).index < next_cache(reverse, key, group, st).ordered.len(),
        forall|h: isize| next_cache(reverse, key, group, st).ordered.contains(h) <==> group.contains(h),
{
    if cache_usable(st.cache, key, group) && !st.released {
        lemma_reconciled_order(st.cache->0.ordered, group);
    } else if cache_usable(st.cache, key, group) {
        lemma_handle_position(group, st.cache->0.anchor);
    }
}

/// The application list of a snapshot: each group's key with its first window.
pub open spec fn app_list(groups: Seq<(Seq<char>, Seq<isize>)>) -> Seq<(Seq<char>, isize)> {
    Seq::new(groups.len(), |i: int| (groups[i].0, groups[i].1[0]))
}

/// One switch-apps step. With a preview open the selection moves by one and
/// wraps. Without one, a snapshot of fewer than two applications opens
/// nothing: there is no other application to go to. A snapshot of two or
/// more opens a preview over it, with the second application selected going
/// forward and the last going backward.
pub open spec fn spec_next_app(
    reverse: bool,
    groups: Seq<(Seq<char>, Seq<isize>)>,
    st: Option<AppsModel>,
) -> Option<AppsModel> {
    match st {
        Some(s) => Some(AppsModel { apps: s.apps, index: step_index(s.index, s.apps.len(), reverse) }),
        None => if groups.len() <= 1 {
            None
        } else {
            Some(
                AppsModel {
                    apps: app_list(groups),
                    index: if reverse {
                        (groups.len() - 1) as nat
                    } else {
                        1
                    },
                },
            )
        },
    }
}

/// The handle that ending a preview activates: that of the selected entry.
pub open spec fn selected_handle(st: Option<AppsModel>) -> Option<isize> {
    match st {
        Some(s) => if s.index < s.apps.len() {
            Some(s.apps[s.index as int].1)
        } else {
            None
        },
        None => None,
    }
}

/// What the control loop does after a command was taken.
#[derive(Clone, Copy, Debug, PartialEq, Eq, Structural)]
pub struct Effect {
    /// The window to bring to the foreground.
    pub activate: Option<isize>,
    /// Whether the picker is to be painted.
    pub repaint: bool,
    /// Whether the picker is to be hidden.
    pub hide: bool,
}

/// The state and the effect after a command, given the snapshot taken for it
/// and the key of the focused executable.
///
/// A step of the switch-apps binding moves or opens the preview, which is
/// then painted. A step of the switch-windows binding activates the next
/// window. The end of a switch-apps gesture activates the selected
/// application and hides the picker; a cancel hides it and activates
/// nothing. The end of a switch-windows gesture marks the modifier as
/// released. Any other command changes nothing.
pub open spec fn spec_dispatch(
    m: SwitcherModel,
    command: Command,
    groups: Seq<(Seq<char>, Seq<isize>)>,
    focused_key: Seq<char>,
) -> (SwitcherModel, Effect) {
    match command {
        Command::GestureStep { binding_id, reverse } => if binding_id == SWITCH_APPS_HOTKEY_ID {
            let apps = spec_next_app(reverse, groups, m.apps);
            (
                SwitcherModel { windows: m.windows, apps },
                Effect { activate: None, repaint: apps is Some, hide: false },
            )
        } else if binding_id == SWITCH_WINDOWS_HOTKEY_ID {
            let step = spec_next_window(reverse, groups, focused_key, m.windows);
            (
                SwitcherModel { windows: step.1, apps: m.apps },
                Effect { activate: step.0, repaint: false, hide: false },
            )
        } else {
            (m, Effect { activate: None, repaint: false, hide: false })
        },
        Command::GestureFinished { binding_id } => if binding_id == SWITCH_APPS_HOTKEY_ID {
            (
                SwitcherModel { windows: m.windows, apps: None },
                Effect { activate: selected_handle(m.apps), repaint: false, hide: m.apps is Some },
            )
        } else if binding_id == SWITCH_WINDOWS_HOTKEY_ID {
            (
                SwitcherModel {
                    windows: WindowsModel { cache: m.windows.cache, released: true },
                    apps: m.apps,
                },
                Effect { activate: None, repaint: false, hide: false },
            )
        } else {
            (m, Effect { activate: None, repaint: false, hide: false })
        },
        Command::GestureCancel => (
            SwitcherModel { windows: m.windows, apps: None },
            Effect { activate: None, repaint: false, hide: m.apps is Some },
        ),
        Command::FocusChanged => (m, Effect { activate: None, repaint: false, hide: false }),
    }
}

/// With no preview open and fewer than two applications in the snapshot, a
/// switch-apps step opens nothing, selects nothing and asks for nothing.
pub proof fn law_single_app_opens_nothing(
    m: SwitcherModel,
    reverse: bool,
    groups: Seq<(Seq<char>, Seq<isize>)>,
    focused_key: Seq<char>,
)
    requires
        m.apps is None,
        groups.len() <= 1,
    ensures
        spec_next_app(reverse, groups, m.apps) is None,
        selected_handle(spec_next_app(reverse, groups, m.apps)) is None,
        spec_dispatch(
            m,
            Command::GestureStep { binding_id: SWITCH_APPS_HOTKEY_ID, reverse },
            groups,
            focused_key,
        ) == (m, Effect { activate: None, repaint: false, hide: false }),
{
}

/// A cancelled gesture activates nothing and leaves no preview, however many
/// steps went before it.
pub proof fn law_cancel_activates_nothing(
    m: SwitcherModel,
    groups: Seq<(Seq<char>, Seq<isize>)>,
    focused_key: Seq<char>,
)
    ensures
        spec_dispatch(m, Command::GestureCancel, groups, focused_key).1.activate is None,
        spec_dispatch(m, Command::GestureCancel, groups, focused_key).0.apps is None,
        spec_dispatch(m, Command::GestureCancel, groups, focused_key).0.windows == m.windows,
        forall|reverse: bool|
            (#[trigger] spec_dispatch(
                m,
                Command::GestureStep { binding_id: SWITCH_APPS_HOTKEY_ID, reverse },
                groups,
                focused_key,
            )).1.activate is None,
{
}

/// The cycle state of both gestures.
pub struct Switcher {
    switch_windows_state: SwitchWindowsState,
    switch_apps_state: Option<SwitchAppsState>,
}

/// The mathematical content of a `Switcher`.
pub struct SwitcherModel {
    pub windows: WindowsModel,
    pub apps: Option<AppsModel>,
}

impl View for Switcher {
    type V = SwitcherModel;

    closed spec fn view(&self) -> SwitcherModel {
        SwitcherModel {
            windows: self.switch_windows_state@,
            apps: match self.switch_apps_state {
                Some(s) => Some(s@),
                None => None,
            },
        }
    }
}

impl Switcher {
    /// No cache, no preview, modifier not held.
    pub fn new() -> (r: Self)
        ensures
            r@.windows.cache is None,
            r@.windows.released,
            r@.apps is None,
    {
        Switcher {
            switch_windows_state: SwitchWindowsState { cache: None, modifier_released: true },
            switch_apps_state: None,
        }
    }

    /// The switch-windows state.
    pub fn windows_state(&self) -> (r: &SwitchWindowsState)
        ensures
            r@ == self@.windows,
    {
        &self.switch_windows_state
    }

    /// The open preview, if any.
    pub fn apps_state(&self) -> (r: Option<&SwitchAppsState>)
        ensures
            match r {
                Some(s) => self@.apps == Some(s@),
                None => self@.apps is None,
            },
    {
        self.switch_apps_state.as_ref()
    }

    /// One press of the switch-windows hotkey, with the snapshot taken for it
    /// and the key of the focused executable. Returns the window to activate.
    pub fn next_window(&mut self, reverse: bool, groups: &WindowGroups, focused_key: &str) -> (activate:
        Option<isize>)
        ensures
            (activate, final(self)@.windows) == spec_next_window(
                reverse,
                groups@,
                focused_key@,
                old(self)@.windows,
            ),
            final(self)@.apps == old(self)@.apps,
            match activate {
                Some(target) => final(self)@.windows.cache is Some && written_index_valid(
                    final(self)@.windows.cache.unwrap(),
                    target,
                ),
                None => final(self)@.windows == old(self)@.windows,
            },
    {
        let position = match groups.position(focused_key) {
            Some(p) => p,
            None => {
                return None;
            },
        };
        let group = match groups.windows_at(position) {
            Some(g) => g,
            None => {
                return None;
            },
        };
        let len = group.len();
        if len <= 1 {
            return None;
        }
        let ghost st = self@.windows;
        let ghost model = next_cache(reverse, focused_key@, group@, st);
        proof {
            lemma_next_cache_index(reverse, focused_key@, group@, st);
        }
        let mut index: usize = 1;
        let mut anchor: isize = group[0];
        let mut carried: Option<Vec<isize>> = None;
        if len > 2 {
            match &self.switch_windows_state.cache {
                Some(cache) => {
                    if str_eq(cache.executable_key.as_str(), focused_key) {
                        if self.switch_windows_state.modifier_released {
                            match find_handle(group, cache.anchor_handle) {
                                Some(i) => {
                                    index = i;
                                },
                                None => {},
                            }
                        } else {
                            anchor = cache.anchor_handle;
                            let order = reconcile_order(&cache.ordered_handles, group);
                            index = advance_index(cache.index, order.len(), reverse);
                            carried = Some(order);
                        }
                    }
                },
                None => {},
            }
        }
        let ordered = match carried {
            Some(order) => order,
            None => copy_handles(group),
        };
        assert(ordered@ == model.ordered);
        assert(index as nat == model.index);
        assert(anchor == model.anchor);
        let target = ordered[index];
        self.switch_windows_state = SwitchWindowsState {
            cache: Some(
                SwitchWindowsCache {
                    executable_key: focused_key.to_owned(),
                    anchor_handle: anchor,
                    index,
                    ordered_handles: ordered,
                },
            ),
            modifier_released: false,
        };
        Some(target)
    }

    /// The modifier of the switch-windows hotkey was released: the next press
    /// starts a new gesture.
    pub fn release_modifier(&mut self)
        ensures
            final(self)@.windows == (WindowsModel { cache: old(self)@.windows.cache, released: true }),
            final(self)@.apps == old(self)@.apps,
    {
        self.switch_windows_state.modifier_released = true;
    }

    /// One press of the switch-apps hotkey, with the snapshot taken for it.
    /// Returns the window of the application that is selected afterwards: the
    /// one that the end of the gesture would activate. Nothing is activated
    /// by the press itself.
    pub fn next_app(&mut self, reverse: bool, groups: &WindowGroups) -> (selected: Option<isize>)
        ensures
            final(self)@.apps == spec_next_app(reverse, groups@, old(self)@.apps),
            final(self)@.windows == old(self)@.windows,
            selected == selected_handle(final(self)@.apps),
    {
        match self.switch_apps_state.take() {
            Some(state) => {
                let index = advance_index(state.index, state.apps.len(), reverse);
                proof {
                    assert(state.apps.deep_view().len() == state.apps@.len());
                }
                self.switch_apps_state = Some(SwitchAppsState { apps: state.apps, index });
            },
            None => {
                let n = groups.len();
                if n <= 1 {
                    return None;
                }
                let mut apps: Vec<(String, isize)> = Vec::new();
                let mut i: usize = 0;
                while i < n
                    invariant
                        0 <= i <= n,
                        n == groups@.len(),
                        apps.deep_view() == app_list(groups@).take(i as int),
                    decreases n - i,
                {
                    let key = groups.key_at(i);
                    let windows = groups.windows_at(i);
                    match (key, windows) {
                        (Some(k), Some(w)) => {
                            let ghost before = apps.deep_view();
                            apps.push((k, w[0]));
                            proof {
                                assert(apps.deep_view() =~= before.push((k@, w@[0])));
                                assert(app_list(groups@).take(i + 1) =~= app_list(groups@).take(
                                    i as int,
                                ).push((k@, w@[0])));
                            }
                        },
                        _ => {},
                    }
                    i += 1;
                }
                proof {
                    assert(app_list(groups@).take(n as int) =~= app_list(groups@));
                }
                let index: usize = if reverse {
                    n - 1
                } else {
                    1
                };
                self.switch_apps_state = Some(SwitchAppsState { apps, index });
            },
        }
        self.focus_of_preview()
    }

    /// The window of the selected entry of the open preview.
    fn focus_of_preview(&self) -> (r: Option<isize>)
        ensures
            r == selected_handle(self@.apps),
    {
        match &self.switch_apps_state {
            Some(state) => {
                proof {
                    assert(state.apps.deep_view().len() == state.apps@.len());
                }
                if state.index < state.apps.len() {
                    proof {
                        assert(state.apps.deep_view()[state.index as int] == (
                            state.apps@[state.index as int].0@,
                            state.apps@[state.index as int].1,
                        ));
                    }
                    Some(state.apps[state.index].1)
                } else {
                    None
                }
            },
            None => None,
        }
    }

    /// Moves the selection of an open preview to `index`, as a click on that
    /// entry does. Returns whether the selection was moved: a preview is open
    /// and has such an entry.
    pub fn select_app(&mut self, index: usize) -> (moved: bool)
        ensures
            moved == (old(self)@.apps is Some && index < old(self)@.apps->0.apps.len()),
            final(self)@.apps == if moved {
                Some(AppsModel { apps: old(self)@.apps->0.apps, index: index as nat })
            } else {
                old(self)@.apps
            },
            final(self)@.windows == old(self)@.windows,
    {
        match self.switch_apps_state.take() {
            Some(state) => {
                proof {
                    assert(state.apps.deep_view().len() == state.apps@.len());
                }
                if index < state.apps.len() {
                    self.switch_apps_state = Some(SwitchAppsState { apps: state.apps, index });
                    true
                } else {
                    self.switch_apps_state = Some(state);
                    false
                }
            },
            None => false,
        }
    }

    /// The modifier of the switch-apps hotkey was released: the preview closes
    /// and the selected application's window is returned for activation.
    pub fn finish_app_switch(&mut self) -> (activate: Option<isize>)
        ensures
            activate == selected_handle(old(self)@.apps),
            final(self)@.apps is None,
            final(self)@.windows == old(self)@.windows,
    {
        let activate = self.focus_of_preview();
        self.switch_apps_state = None;
        activate
    }

    /// The window whose application a switch-windows step cycles: the
    /// selected entry of an open preview, else the foreground window.
    pub fn focus_handle(&self, foreground: isize) -> (r: isize)
        ensures
            r == match selected_handle(self@.apps) {
                Some(h) => h,
                None => foreground,
            },
    {
        match self.focus_of_preview() {
            Some(h) => h,
            None => foreground,
        }
    }

    /// Takes one command, with the snapshot taken for it and the key of the
    /// focused executable, and says what is to be done.
    pub fn dispatch(&mut self, command: Command, groups: &WindowGroups, focused_key: &str) -> (effect:
        Effect)
        ensures
            (final(self)@, effect) == spec_dispatch(old(self)@, command, groups@, focused_key@),
    {
        let had_preview = self.switch_apps_state.is_some();
        match command {
            Command::GestureStep { binding_id, reverse } => {
                if binding_id == SWITCH_APPS_HOTKEY_ID {
                    let _ = self.next_app(reverse, groups);
                    Effect { activate: None, repaint: self.switch_apps_state.is_some(), hide: false }
                } else if binding_id == SWITCH_WINDOWS_HOTKEY_ID {
                    let activate = self.next_window(reverse, groups, focused_key);
                    Effect { activate, repaint: false, hide: false }
                } else {
                    Effect { activate: None, repaint: false, hide: false }
                }
            },
            Command::GestureFinished { binding_id } => {
                if binding_id == SWITCH_APPS_HOTKEY_ID {
                    let activate = self.finish_app_switch();
                    Effect { activate, repaint: false, hide: had_preview }
                } else if binding_id == SWITCH_WINDOWS_HOTKEY_ID {
                    self.release_modifier();
                    Effect { activate: None, repaint: false, hide: false }
                } else {
                    Effect { activate: None, repaint: false, hide: false }
                }
            },
            Command::GestureCancel => {
                self.cancel_app_switch();
                Effect { activate: None, repaint: false, hide: had_preview }
            },
            Command::FocusChanged => Effect { activate: None, repaint: false, hide: false },
        }
    }

    /// The gesture was cancelled: the preview closes and nothing is activated.
    pub fn cancel_app_switch(&mut self)
        ensures
            final(self)@.apps is None,
            final(self)@.windows == old(self)@.windows,
    {
        self.switch_apps_state = None;
    }
}

/// A copy of the handles.
pub fn copy_handles(items: &Vec<isize>) -> (r: Vec<isize>)
    ensures
        r@ == items@,
{
    let mut r: Vec<isize> = Vec::new();
    let mut i: usize = 0;
    while i < items.len()
        invariant
            0 <= i <= items.len(),
            r@ == items@.take(i as int),
        decreases items.len() - i,
    {
        r.push(items[i]);
        proof {
            assert(items@.take(i + 1) =~= items@.take(i as int).push(items@[i as int]));
        }
        i += 1;
    }
    proof {
        assert(items@.take(items.len() as int) =~= items@);
    }
    r
}

} // verus!
