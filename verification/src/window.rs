//! Window discovery: which of the enumerated top-level windows can be
//! switched to, which executable each belongs to, and how they are grouped.
use crate::groups::{groups_wf, lemma_with_window_wf, with_window, WindowGroups};
use crate::ordered::{key_position, lemma_key_position};
use crate::text::{chars_of, last_segment, last_segment_of, lowercase, lowercase_of, str_eq, string_from_chars};
use vstd::prelude::*;

verus! {

pub const WS_VISIBLE: u32 = 0x1000_0000;

pub const WS_ICONIC: u32 = 0x2000_0000;

pub const WS_EX_TOOLWINDOW: u32 = 0x0000_0080;

pub const WS_EX_TOPMOST: u32 = 0x0000_0008;

/// Windows narrower than this are not listed.
pub const MIN_WINDOW_WIDTH: i64 = 120;

/// Windows lower than this are not listed.
pub const MIN_WINDOW_HEIGHT: i64 = 90;

/// A rectangle in screen coordinates.
#[derive(Clone, Copy, Debug)]
pub struct Rect {
    pub left: i32,
    pub top: i32,
    pub right: i32,
    pub bottom: i32,
}

/// What is read of one top-level window before any decision is taken.
pub struct WindowInfo {
    pub hwnd: isize,
    pub title: String,
    /// The window style bits.
    pub style: u32,
    /// The extended window style bits.
    pub exstyle: u32,
    /// The cloak value that the compositor reports; 0 when not cloaked.
    pub cloak_type: u32,
    /// The window's normal position.
    pub rect: Rect,
    /// Whether the window is not the last active visible popup of its owner chain.
    pub is_popup: bool,
    /// The window that owns this one; 0 when it has none.
    pub owner: isize,
    /// The process that created the window.
    pub pid: u32,
    /// The path of that process's executable; empty when it could not be read.
    pub exe_path: String,
    /// Whether that process runs elevated, where this could be read.
    pub is_elevated: Option<bool>,
}

/// The mathematical content of a `WindowInfo`.
pub struct WindowModel {
    pub hwnd: isize,
    pub title: Seq<char>,
    pub style: u32,
    pub exstyle: u32,
    pub cloak_type: u32,
    pub rect: Rect,
    pub is_popup: bool,
    pub owner: isize,
    pub pid: u32,
    pub exe_path: Seq<char>,
    pub is_elevated: Option<bool>,
}

impl View for WindowInfo {
    type V = WindowModel;

    open spec fn view(&self) -> WindowModel {
        WindowModel {
            hwnd: self.hwnd,
            title: self.title@,
            style: self.style,
            exstyle: self.exstyle,
            cloak_type: self.cloak_type,
            rect: self.rect,
            is_popup: self.is_popup,
            owner: self.owner,
            pid: self.pid,
            exe_path: self.exe_path@,
            is_elevated: self.is_elevated,
        }
    }
}

/// The options of one discovery run.
#[derive(Clone, Copy, Debug)]
pub struct ListOptions {
    /// Leave minimized windows out.
    pub ignore_minimal: bool,
    /// Whether this process runs elevated; if not, windows of elevated
    /// processes are left out.
    pub is_admin: bool,
}

/// The four state bits of a window: visible, minimized, tool window, always on top.
pub open spec fn spec_window_state(style: u32, exstyle: u32) -> (bool, bool, bool, bool) {
    (
        style & WS_VISIBLE != 0,
        style & WS_ICONIC != 0,
        exstyle & WS_EX_TOOLWINDOW != 0,
        exstyle & WS_EX_TOPMOST != 0,
    )
}

pub fn get_window_state(style: u32, exstyle: u32) -> (r: (bool, bool, bool, bool))
    ensures
        r == spec_window_state(style, exstyle),
{
    (
        style & WS_VISIBLE != 0,
        style & WS_ICONIC != 0,
        exstyle & WS_EX_TOOLWINDOW != 0,
        exstyle & WS_EX_TOPMOST != 0,
    )
}

/// Whether the compositor has cloaked a window: its cloak value is not
/// zero, whoever set it. Windows that the shell keeps on another virtual
/// desktop are cloaked too.
pub open spec fn spec_is_cloaked(cloak_type: u32) -> bool {
    cloak_type != 0
}

pub fn is_cloaked_window(cloak_type: u32) -> (r: bool)
    ensures
        r == spec_is_cloaked(cloak_type),
{
    cloak_type != 0
}

/// Width and height of a rectangle.
pub open spec fn spec_window_size(rect: Rect) -> (i64, i64) {
    ((rect.right - rect.left) as i64, (rect.bottom - rect.top) as i64)
}

pub fn get_window_size(rect: &Rect) -> (r: (i64, i64))
    ensures
        r == spec_window_size(*rect),
        r.0 == rect.right - rect.left,
        r.1 == rect.bottom - rect.top,
{
    (rect.right as i64 - rect.left as i64, rect.bottom as i64 - rect.top as i64)
}

/// Whether a window of this size is below the size that is listed.
pub open spec fn spec_is_small(width: i64, height: i64) -> bool {
    width < MIN_WINDOW_WIDTH || height < MIN_WINDOW_HEIGHT
}

pub fn is_small_window(width: i64, height: i64) -> (r: bool)
    ensures
        r == spec_is_small(width, height),
{
    width < MIN_WINDOW_WIDTH || height < MIN_WINDOW_HEIGHT
}

/// The path of the process that hosts the windows of packaged applications.
pub open spec fn host_wrapper_path() -> Seq<char> {
    "C:\\Windows\\System32\\ApplicationFrameHost.exe"@
}

/// Whether a module path names an application: it is not empty and is not the
/// host wrapper.
pub open spec fn spec_valid_module_path(path: Seq<char>) -> bool {
    path.len() > 0 && path != host_wrapper_path()
}

pub fn is_valid_module_path(exe_path: &str) -> (r: bool)
    ensures
        r == spec_valid_module_path(exe_path@),
{
    !exe_path.is_empty() && !str_eq(
        exe_path,
        "C:\\Windows\\System32\\ApplicationFrameHost.exe",
    )
}

/// The title that the input-method window carries.
pub open spec fn input_experience_title() -> Seq<char> {
    "Windows Input Experience"@
}

/// Whether a window passes every exclusion test: it is shown, not minimized
/// where minimized windows are ignored, neither a tool window nor always on
/// top, not cloaked, not small, not an owned popup, and has a title other
/// than that of the input-method window.
pub open spec fn switchable(w: WindowModel, opt: ListOptions) -> bool {
    let state = spec_window_state(w.style, w.exstyle);
    let size = spec_window_size(w.rect);
    &&& state.0
    &&& (opt.ignore_minimal ==> !state.1)
    &&& !state.2
    &&& !state.3
    &&& !spec_is_cloaked(w.cloak_type)
    &&& !spec_is_small(size.0, size.1)
    &&& !w.is_popup
    &&& w.title.len() > 0
    &&& w.title != input_experience_title()
}

pub fn is_switchable(w: &WindowInfo, opt: &ListOptions) -> (r: bool)
    ensures
        r == switchable(w@, *opt),
{
    let state = get_window_state(w.style, w.exstyle);
    let size = get_window_size(&w.rect);
    state.0 && (!opt.ignore_minimal || !state.1) && !state.2 && !state.3 && !is_cloaked_window(
        w.cloak_type,
    ) && !is_small_window(size.0, size.1) && !w.is_popup && !w.title.as_str().is_empty() && !str_eq(
        w.title.as_str(),
        "Windows Input Experience",
    )
}

/// Position of the first window, among the first `n`, that is owned by
/// `hwnd` and belongs to another process than `pid`.
pub open spec fn hosted_position(ws: Seq<WindowModel>, hwnd: isize, pid: u32, n: int) -> Option<int>
    decreases n,
{
    if n <= 0 {
        None
    } else {
        match hosted_position(ws, hwnd, pid, n - 1) {
            Some(i) => Some(i),
            None => if ws[n - 1].owner == hwnd && ws[n - 1].pid != pid {
                Some(n - 1)
            } else {
                None
            },
        }
    }
}

/// The window through which window `i` is resolved to an executable: itself
/// where its own module path names an application; else the first window it
/// owns in another process, where there is one.
pub open spec fn resolving_position(ws: Seq<WindowModel>, i: int) -> Option<int> {
    if spec_valid_module_path(ws[i].exe_path) {
        Some(i)
    } else {
        hosted_position(ws, ws[i].hwnd, ws[i].pid, ws.len() as int)
    }
}

/// The executable key of window `i`: the lowercase module path of the window
/// through which it is resolved, where that path names an application and
/// its process may be listed.
pub open spec fn executable_key(ws: Seq<WindowModel>, i: int, is_admin: bool) -> Option<Seq<char>> {
    match resolving_position(ws, i) {
        Some(j) => if spec_valid_module_path(ws[j].exe_path) && (is_admin || ws[j].is_elevated
            != Some(true)) {
            Some(lowercase_of(ws[j].exe_path))
        } else {
            None
        },
        None => None,
    }
}

/// The key under which window `i` is listed, if it is listed at all.
pub open spec fn listed_key(ws: Seq<WindowModel>, i: int, opt: ListOptions) -> Option<Seq<char>> {
    if switchable(ws[i], opt) {
        executable_key(ws, i, opt.is_admin)
    } else {
        None
    }
}

/// The groups that the first `n` windows give.
pub open spec fn discovered(ws: Seq<WindowModel>, n: int, opt: ListOptions) -> Seq<(Seq<char>, Seq<isize>)>
    decreases n,
{
    if n <= 0 {
        Seq::empty()
    } else {
        match listed_key(ws, n - 1, opt) {
            Some(key) => with_window(discovered(ws, n - 1, opt), key, ws[n - 1].hwnd),
            None => discovered(ws, n - 1, opt),
        }
    }
}

/// The models of the windows.
pub open spec fn models(windows: Seq<WindowInfo>) -> Seq<WindowModel> {
    Seq::new(windows.len(), |i: int| windows[i]@)
}

/// Among the first `n` windows, one with handle `hwnd` is listed under `key`.
pub open spec fn listed_under(ws: Seq<WindowModel>, n: int, opt: ListOptions, hwnd: isize, key: Seq<char>) -> bool {
    exists|i: int| 0 <= i < n && (#[trigger] ws[i]).hwnd == hwnd && listed_key(ws, i, opt) == Some(key)
}

/// Every handle in a group stands for a window that is listed under the
/// group's key.
pub open spec fn all_listed(
    entries: Seq<(Seq<char>, Seq<isize>)>,
    ws: Seq<WindowModel>,
    n: int,
    opt: ListOptions,
) -> bool {
    forall|g: int, k: int|
        0 <= g < entries.len() && 0 <= k < entries[g].1.len() ==> listed_under(
            ws,
            n,
            opt,
            #[trigger] entries[g].1[k],
            entries[g].0,
        )
}

/// Discovery lists only windows that pass the tests, under their keys, in
/// well-formed groups.
pub proof fn lemma_discovered(ws: Seq<WindowModel>, n: int, opt: ListOptions)
    requires
        0 <= n <= ws.len(),
    ensures
        groups_wf(discovered(ws, n, opt)),
        all_listed(discovered(ws, n, opt), ws, n, opt),
    decreases n,
{
    if n > 0 {
        lemma_discovered(ws, n - 1, opt);
        let before = discovered(ws, n - 1, opt);
        let after = discovered(ws, n, opt);
        match listed_key(ws, n - 1, opt) {
            Some(key) => {
                lemma_with_window_wf(before, key, ws[n - 1].hwnd);
                lemma_key_position(before, key);
                assert forall|g: int, k: int|
                    0 <= g < after.len() && 0 <= k < after[g].1.len() implies listed_under(
                    ws,
                    n,
                    opt,
                    #[trigger] after[g].1[k],
                    after[g].0,
                ) by {
                    let fresh = match key_position(before, key) {
                        Some(p) => g == p && k == before[p].1.len(),
                        None => g == before.len(),
                    };
                    if fresh {
                        assert(ws[n - 1].hwnd == after[g].1[k] && listed_key(ws, n - 1, opt) == Some(
                            after[g].0,
                        ));
                    } else {
                        assert(after[g].1[k] == before[g].1[k]);
                        assert(after[g].0 == before[g].0);
                        assert(listed_under(ws, n - 1, opt, before[g].1[k], before[g].0));
                        let i = choose|i: int|
                            0 <= i < n - 1 && (#[trigger] ws[i]).hwnd == before[g].1[k] && listed_key(
                                ws,
                                i,
                                opt,
                            ) == Some(before[g].0);
                        assert(0 <= i < n && ws[i].hwnd == after[g].1[k] && listed_key(ws, i, opt)
                            == Some(after[g].0));
                    }
                }
            },
            None => {
                assert forall|g: int, k: int|
                    0 <= g < after.len() && 0 <= k < after[g].1.len() implies listed_under(
                    ws,
                    n,
                    opt,
                    #[trigger] after[g].1[k],
                    after[g].0,
                ) by {
                    assert(listed_under(ws, n - 1, opt, before[g].1[k], before[g].0));
                    let i = choose|i: int|
                        0 <= i < n - 1 && (#[trigger] ws[i]).hwnd == before[g].1[k] && listed_key(
                            ws,
                            i,
                            opt,
                        ) == Some(before[g].0);
                    assert(0 <= i < n && ws[i].hwnd == after[g].1[k] && listed_key(ws, i, opt)
                        == Some(after[g].0));
                }
            },
        }
    }
}

/// A window with handle `hwnd` passed the tests: it carries no cloak value
/// and is not small.
pub open spec fn passing_window(ws: Seq<WindowModel>, opt: ListOptions, hwnd: isize) -> bool {
    exists|i: int|
        0 <= i < ws.len() && (#[trigger] ws[i]).hwnd == hwnd && switchable(ws[i], opt)
            && ws[i].cloak_type == 0 && !spec_is_small(
            spec_window_size(ws[i].rect).0,
            spec_window_size(ws[i].rect).1,
        )
}

/// Every handle in a group stands for a window that passed the tests.
pub open spec fn all_pass(entries: Seq<(Seq<char>, Seq<isize>)>, ws: Seq<WindowModel>, opt: ListOptions) -> bool {
    forall|g: int, k: int|
        0 <= g < entries.len() && 0 <= k < entries[g].1.len() ==> passing_window(
            ws,
            opt,
            #[trigger] entries[g].1[k],
        )
}

/// No listed window is cloaked or small.
pub proof fn lemma_listed_windows_pass(ws: Seq<WindowModel>, opt: ListOptions)
    ensures
        all_pass(discovered(ws, ws.len() as int, opt), ws, opt),
{
    let n = ws.len() as int;
    let entries = discovered(ws, n, opt);
    lemma_discovered(ws, n, opt);
    assert forall|g: int, k: int|
        0 <= g < entries.len() && 0 <= k < entries[g].1.len() implies passing_window(
        ws,
        opt,
        #[trigger] entries[g].1[k],
    ) by {
        assert(listed_under(ws, n, opt, entries[g].1[k], entries[g].0));
        let i = choose|i: int|
            0 <= i < n && (#[trigger] ws[i]).hwnd == entries[g].1[k] && listed_key(ws, i, opt)
                == Some(entries[g].0);
        assert(switchable(ws[i], opt));
    }
}

/// A group with this key holds this handle.
pub open spec fn holds(entries: Seq<(Seq<char>, Seq<isize>)>, key: Seq<char>, hwnd: isize) -> bool {
    exists|g: int|
        0 <= g < entries.len() && (#[trigger] entries[g]).0 == key && entries[g].1.contains(hwnd)
}

/// Adding a window puts it into the group of its key, and takes no window
/// out of its group.
pub proof fn lemma_with_window_holds(entries: Seq<(Seq<char>, Seq<isize>)>, key: Seq<char>, hwnd: isize)
    ensures
        holds(with_window(entries, key, hwnd), key, hwnd),
        forall|k: Seq<char>, h: isize|
            holds(entries, k, h) ==> #[trigger] holds(with_window(entries, key, hwnd), k, h),
{
    lemma_key_position(entries, key);
    let after = with_window(entries, key, hwnd);
    match key_position(entries, key) {
        Some(p) => {
            assert(after[p].1[entries[p].1.len() as int] == hwnd);
            assert(after[p].0 == key && after[p].1.contains(hwnd));
            assert forall|k: Seq<char>, h: isize| holds(entries, k, h) implies #[trigger] holds(
                after,
                k,
                h,
            ) by {
                let g = choose|g: int|
                    0 <= g < entries.len() && (#[trigger] entries[g]).0 == k && entries[g].1.contains(h);
                let at = choose|at: int| 0 <= at < entries[g].1.len() && entries[g].1[at] == h;
                assert(after[g].1[at] == h);
                assert(after[g].0 == k && after[g].1.contains(h));
            }
        },
        None => {
            let last = entries.len() as int;
            assert(after[last].1[0] == hwnd);
            assert(after[last].0 == key && after[last].1.contains(hwnd));
            assert forall|k: Seq<char>, h: isize| holds(entries, k, h) implies #[trigger] holds(
                after,
                k,
                h,
            ) by {
                let g = choose|g: int|
                    0 <= g < entries.len() && (#[trigger] entries[g]).0 == k && entries[g].1.contains(h);
                assert(after[g] == entries[g]);
            }
        },
    }
}

/// Every window that passes the tests and resolves to a key is listed under
/// that key.
pub open spec fn all_present(
    entries: Seq<(Seq<char>, Seq<isize>)>,
    ws: Seq<WindowModel>,
    n: int,
    opt: ListOptions,
) -> bool {
    forall|i: int|
        0 <= i < n && listed_key(ws, i, opt) is Some ==> holds(
            entries,
            listed_key(ws, i, opt).unwrap(),
            (#[trigger] ws[i]).hwnd,
        )
}

/// Discovery leaves out no window that is to be listed.
pub proof fn lemma_discovered_complete(ws: Seq<WindowModel>, n: int, opt: ListOptions)
    requires
        0 <= n <= ws.len(),
    ensures
        all_present(discovered(ws, n, opt), ws, n, opt),
    decreases n,
{
    if n > 0 {
        lemma_discovered_complete(ws, n - 1, opt);
        let before = discovered(ws, n - 1, opt);
        let after = discovered(ws, n, opt);
        match listed_key(ws, n - 1, opt) {
            Some(key) => {
                lemma_with_window_holds(before, key, ws[n - 1].hwnd);
                assert forall|i: int| 0 <= i < n && listed_key(ws, i, opt) is Some implies holds(
                    after,
                    listed_key(ws, i, opt).unwrap(),
                    (#[trigger] ws[i]).hwnd,
                ) by {
                    if i < n - 1 {
                        assert(holds(before, listed_key(ws, i, opt).unwrap(), ws[i].hwnd));
                    }
                }
            },
            None => {},
        }
    }
}

/// The first window that is listed stands first in the first group, however
/// many windows follow it.
pub proof fn law_frontmost_window_first(ws: Seq<WindowModel>, first: int, n: int, opt: ListOptions)
    requires
        0 <= first < n <= ws.len(),
        listed_key(ws, first, opt) is Some,
        forall|i: int| 0 <= i < first ==> listed_key(ws, i, opt) is None,
    ensures
        discovered(ws, n, opt).len() > 0,
        discovered(ws, n, opt)[0].0 == listed_key(ws, first, opt).unwrap(),
        discovered(ws, n, opt)[0].1.len() > 0,
        discovered(ws, n, opt)[0].1[0] == ws[first].hwnd,
    decreases n,
{
    if n == first + 1 {
        lemma_nothing_listed(ws, first, opt);
    } else {
        law_frontmost_window_first(ws, first, n - 1, opt);
        let before = discovered(ws, n - 1, opt);
        match listed_key(ws, n - 1, opt) {
            Some(key) => {
                lemma_key_position(before, key);
            },
            None => {},
        }
    }
}

/// Where none of the first `n` windows is listed, there is no group.
pub proof fn lemma_nothing_listed(ws: Seq<WindowModel>, n: int, opt: ListOptions)
    requires
        forall|i: int| 0 <= i < n ==> listed_key(ws, i, opt) is None,
    ensures
        discovered(ws, n, opt) == Seq::<(Seq<char>, Seq<isize>)>::empty(),
    decreases n,
{
    if n > 0 {
        lemma_nothing_listed(ws, n - 1, opt);
    }
}

/// The position of the first window that `hwnd` owns in another process.
pub fn find_hosted(windows: &Vec<WindowInfo>, hwnd: isize, pid: u32) -> (r: Option<usize>)
    ensures
        match r {
            Some(i) => hosted_position(models(windows@), hwnd, pid, windows.len() as int) == Some(
                i as int,
            ) && i < windows.len(),
            None => hosted_position(models(windows@), hwnd, pid, windows.len() as int) is None,
        },
{
    let mut i: usize = 0;
    while i < windows.len()
        invariant
            0 <= i <= windows.len(),
            hosted_position(models(windows@), hwnd, pid, i as int) is None,
        decreases windows.len() - i,
    {
        if windows[i].owner == hwnd && windows[i].pid != pid {
            proof {
                lemma_hosted_stable(models(windows@), hwnd, pid, i + 1, windows.len() as int);
            }
            return Some(i);
        }
        i += 1;
    }
    None
}

/// A hosted window found among the first `n` is the one found among more.
pub proof fn lemma_hosted_stable(ws: Seq<WindowModel>, hwnd: isize, pid: u32, n: int, m: int)
    requires
        0 <= n <= m,
        hosted_position(ws, hwnd, pid, n) is Some,
    ensures
        hosted_position(ws, hwnd, pid, m) == hosted_position(ws, hwnd, pid, n),
    decreases m - n,
{
    if n < m {
        lemma_hosted_stable(ws, hwnd, pid, n, m - 1);
    }
}

/// The executable key of the window at `index`.
pub fn resolve_key(windows: &Vec<WindowInfo>, index: usize, is_admin: bool) -> (r: Option<String>)
    requires
        index < windows.len(),
    ensures
        match r {
            Some(key) => executable_key(models(windows@), index as int, is_admin) == Some(key@),
            None => executable_key(models(windows@), index as int, is_admin) is None,
        },
{
    let w = &windows[index];
    let source = if is_valid_module_path(w.exe_path.as_str()) {
        index
    } else {
        match find_hosted(windows, w.hwnd, w.pid) {
            Some(j) => j,
            None => {
                return None;
            },
        }
    };
    let host = &windows[source];
    if !is_valid_module_path(host.exe_path.as_str()) {
        return None;
    }
    if !is_admin {
        match host.is_elevated {
            Some(true) => {
                return None;
            },
            _ => {},
        }
    }
    Some(lowercase(host.exe_path.as_str()))
}

/// Lists the windows that can be switched to, grouped by executable key.
/// Groups stand in the order in which their first window was enumerated, and
/// the windows of a group in enumeration order.
pub fn list_windows(windows: &Vec<WindowInfo>, opt: &ListOptions) -> (r: WindowGroups)
    ensures
        r@ == discovered(models(windows@), windows.len() as int, *opt),
        groups_wf(r@),
        all_listed(r@, models(windows@), windows.len() as int, *opt),
        all_present(r@, models(windows@), windows.len() as int, *opt),
        all_pass(r@, models(windows@), *opt),
{
    let mut result = WindowGroups::new();
    let mut i: usize = 0;
    while i < windows.len()
        invariant
            0 <= i <= windows.len(),
            result@ == discovered(models(windows@), i as int, *opt),
        decreases windows.len() - i,
    {
        if is_switchable(&windows[i], opt) {
            match resolve_key(windows, i, opt.is_admin) {
                Some(key) => {
                    result.push(key.as_str(), windows[i].hwnd);
                },
                None => {},
            }
        }
        i += 1;
    }
    proof {
        lemma_discovered(models(windows@), windows.len() as int, *opt);
        lemma_discovered_complete(models(windows@), windows.len() as int, *opt);
        lemma_listed_windows_pass(models(windows@), *opt);
    }
    result
}

/// The executable key of the first enumerated window with handle `hwnd`,
/// whether or not that window is listed.
pub open spec fn spec_key_of_window(ws: Seq<WindowModel>, hwnd: isize, is_admin: bool, n: int) -> Option<
    Seq<char>,
>
    decreases n,
{
    if n <= 0 {
        None
    } else if exists|i: int| 0 <= i < n - 1 && ws[i].hwnd == hwnd {
        spec_key_of_window(ws, hwnd, is_admin, n - 1)
    } else if ws[n - 1].hwnd == hwnd {
        executable_key(ws, n - 1, is_admin)
    } else {
        None
    }
}

/// The executable key of the window with handle `hwnd`, as discovery
/// resolves it: the key of the group to cycle when that window has focus.
pub fn key_of_window(windows: &Vec<WindowInfo>, hwnd: isize, is_admin: bool) -> (r: Option<String>)
    ensures
        match r {
            Some(key) => spec_key_of_window(models(windows@), hwnd, is_admin, windows.len() as int)
                == Some(key@),
            None => spec_key_of_window(models(windows@), hwnd, is_admin, windows.len() as int) is None,
        },
{
    let mut i: usize = 0;
    while i < windows.len()
        invariant
            0 <= i <= windows.len(),
            forall|k: int| 0 <= k < i ==> (#[trigger] models(windows@)[k]).hwnd != hwnd,
        decreases windows.len() - i,
    {
        if windows[i].hwnd == hwnd {
            let r = resolve_key(windows, i, is_admin);
            proof {
                lemma_key_of_window_stable(models(windows@), hwnd, is_admin, i + 1, windows.len() as int);
            }
            return r;
        }
        i += 1;
    }
    proof {
        lemma_key_of_window_absent(models(windows@), hwnd, is_admin, windows.len() as int);
    }
    None
}

/// Where the window at `n - 1` is the first with the handle, more windows do
/// not change its key.
pub proof fn lemma_key_of_window_stable(ws: Seq<WindowModel>, hwnd: isize, is_admin: bool, n: int, m: int)
    requires
        0 < n <= m,
        ws[n - 1].hwnd == hwnd,
        forall|k: int| 0 <= k < n - 1 ==> (#[trigger] ws[k]).hwnd != hwnd,
    ensures
        spec_key_of_window(ws, hwnd, is_admin, m) == executable_key(ws, n - 1, is_admin),
    decreases m - n,
{
    if n < m {
        lemma_key_of_window_stable(ws, hwnd, is_admin, n, m - 1);
        assert(0 <= n - 1 < m - 1 && ws[n - 1].hwnd == hwnd);
    }
}

/// No window with the handle, no key.
pub proof fn lemma_key_of_window_absent(ws: Seq<WindowModel>, hwnd: isize, is_admin: bool, n: int)
    requires
        forall|k: int| 0 <= k < n ==> (#[trigger] ws[k]).hwnd != hwnd,
    ensures
        spec_key_of_window(ws, hwnd, is_admin, n) is None,
    decreases n,
{
    if n > 0 {
        lemma_key_of_window_absent(ws, hwnd, is_admin, n - 1);
    }
}

/// The file name of a window's executable: the part of the module path after
/// its last backslash. A window without a process, or whose module path could
/// not be read, has none.
pub open spec fn spec_window_exe(pid: u32, exe_path: Seq<char>) -> Option<Seq<char>> {
    if pid == 0 || exe_path.len() == 0 {
        None
    } else {
        Some(last_segment(exe_path, '\\'))
    }
}

pub fn get_window_exe(pid: u32, exe_path: &str) -> (r: Option<String>)
    ensures
        match r {
            Some(exe) => spec_window_exe(pid, exe_path@) == Some(exe@),
            None => spec_window_exe(pid, exe_path@) is None,
        },
{
    if pid == 0 || exe_path.is_empty() {
        return None;
    }
    let chars = chars_of(exe_path);
    let name = last_segment_of(&chars, '\\');
    Some(string_from_chars(&name))
}

/// The lowercase file name of a path: the part after its last backslash.
pub fn get_basename(path: &str) -> (r: String)
    ensures
        r@ == lowercase_of(last_segment(path@, '\\')),
{
    let chars = chars_of(path);
    let name = last_segment_of(&chars, '\\');
    let name = string_from_chars(&name);
    lowercase(name.as_str())
}

/// One step of the walk that tells an owned popup from the window that
/// stands for its application.
#[derive(Clone, Copy, Debug, PartialEq, Eq, Structural)]
pub enum PopupWalk {
    /// The last active popup of this window is to be looked at next.
    Visit(isize),
    /// The walk has ended; the window is a popup or is not.
    Done(bool),
}

/// The start of the walk for `hwnd`, from the root of its owner chain. A
/// window without such a root is a popup unless it is the null window.
pub fn popup_walk_start(hwnd: isize, root_owner: isize) -> (r: PopupWalk)
    ensures
        r == if root_owner == 0 {
            PopupWalk::Done(hwnd != 0)
        } else {
            PopupWalk::Visit(root_owner)
        },
{
    if root_owner == 0 {
        PopupWalk::Done(hwnd != 0)
    } else {
        PopupWalk::Visit(root_owner)
    }
}

/// The step after `visited` was looked at, given its last active popup and
/// whether that popup is visible. The walk ends at a visible popup, or where
/// a window is its own last active popup; `hwnd` is a popup unless the walk
/// ended on it.
pub fn popup_walk_step(hwnd: isize, visited: isize, last_active_popup: isize, popup_visible: bool) -> (r:
    PopupWalk)
    ensures
        r == if popup_visible || last_active_popup == visited {
            PopupWalk::Done(visited != hwnd)
        } else {
            PopupWalk::Visit(last_active_popup)
        },
{
    if popup_visible || last_active_popup == visited {
        PopupWalk::Done(visited != hwnd)
    } else {
        PopupWalk::Visit(last_active_popup)
    }
}

} // verus!
