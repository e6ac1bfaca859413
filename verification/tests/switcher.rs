use window_switcher::cycle::{advance_index, find_handle, reconcile_order};
use window_switcher::groups::WindowGroups;
use window_switcher::switcher::{copy_handles, Switcher};

const A: isize = 101;
const B: isize = 102;
const C: isize = 103;
const D: isize = 104;
const CALC: isize = 900;

fn snapshot(notepad: &[isize]) -> WindowGroups {
    let mut groups = WindowGroups::new();
    let mut first = true;
    for h in notepad {
        groups.push("notepad.exe", *h);
        if first {
            groups.push("calc.exe", CALC);
            first = false;
        }
    }
    groups
}

#[test]
fn groups_keep_first_seen_order() {
    let groups = snapshot(&[A, B, C]);
    assert_eq!(groups.len(), 2);
    assert_eq!(groups.key_at(0), Some("notepad.exe".to_string()));
    assert_eq!(groups.key_at(1), Some("calc.exe".to_string()));
    assert_eq!(groups.key_at(2), None);
    assert_eq!(groups.windows_at(0), Some(&vec![A, B, C]));
    assert_eq!(groups.windows_at(1), Some(&vec![CALC]));
    assert_eq!(groups.windows_at(2), None);
    assert_eq!(groups.position("calc.exe"), Some(1));
    assert_eq!(groups.position("notepad.exe"), Some(0));
    assert_eq!(groups.position("explorer.exe"), None);
}

#[test]
fn empty_groups() {
    let groups = WindowGroups::new();
    assert_eq!(groups.len(), 0);
    assert_eq!(groups.key_at(0), None);
    assert_eq!(groups.position("a"), None);
}

#[test]
fn new_switcher_has_no_state() {
    let s = Switcher::new();
    assert!(s.windows_state().cache.is_none());
    assert!(s.windows_state().modifier_released);
    assert!(s.apps_state().is_none());
}

#[test]
fn single_window_gives_no_target() {
    let mut s = Switcher::new();
    let groups = snapshot(&[A, B, C]);
    assert_eq!(s.next_window(false, &groups, "calc.exe"), None);
    assert!(s.windows_state().cache.is_none());
    assert!(s.windows_state().modifier_released);
    // also with a cache written for another group
    assert_eq!(s.next_window(false, &groups, "notepad.exe"), Some(B));
    assert_eq!(s.next_window(true, &groups, "calc.exe"), None);
    let cache = s.windows_state().cache.as_ref().unwrap();
    assert_eq!(cache.executable_key, "notepad.exe");
    assert!(!s.windows_state().modifier_released);
}

#[test]
fn unknown_executable_gives_no_target() {
    let mut s = Switcher::new();
    let groups = snapshot(&[A, B, C]);
    assert_eq!(s.next_window(false, &groups, "explorer.exe"), None);
    assert!(s.windows_state().cache.is_none());
}

#[test]
fn two_windows_always_target_the_other() {
    let mut s = Switcher::new();
    assert_eq!(s.next_window(false, &snapshot(&[A, B]), "notepad.exe"), Some(B));
    // the switch brought B to the front
    assert_eq!(s.next_window(false, &snapshot(&[B, A]), "notepad.exe"), Some(A));
    assert_eq!(s.next_window(true, &snapshot(&[A, B]), "notepad.exe"), Some(B));
    s.release_modifier();
    assert_eq!(s.next_window(true, &snapshot(&[B, A]), "notepad.exe"), Some(A));
    assert_eq!(s.next_window(false, &snapshot(&[B, A]), "notepad.exe"), Some(A));
}

#[test]
fn forward_presses_walk_the_frozen_order_and_wrap() {
    let mut s = Switcher::new();
    assert_eq!(s.next_window(false, &snapshot(&[A, B, C]), "notepad.exe"), Some(B));
    {
        let cache = s.windows_state().cache.as_ref().unwrap();
        assert_eq!(cache.executable_key, "notepad.exe");
        assert_eq!(cache.anchor_handle, A);
        assert_eq!(cache.index, 1);
        assert_eq!(cache.ordered_handles, vec![A, B, C]);
    }
    assert!(!s.windows_state().modifier_released);
    // each switch reshuffles the Z-order; the traversal order stays
    assert_eq!(s.next_window(false, &snapshot(&[B, A, C]), "notepad.exe"), Some(C));
    {
        let cache = s.windows_state().cache.as_ref().unwrap();
        assert_eq!(cache.anchor_handle, A);
        assert_eq!(cache.index, 2);
        assert_eq!(cache.ordered_handles, vec![A, B, C]);
    }
    assert_eq!(s.next_window(false, &snapshot(&[C, B, A]), "notepad.exe"), Some(A));
    assert_eq!(s.windows_state().cache.as_ref().unwrap().index, 0);
    assert_eq!(s.next_window(false, &snapshot(&[A, C, B]), "notepad.exe"), Some(B));
}

#[test]
fn as_many_presses_as_windows_return_to_the_start() {
    let mut s = Switcher::new();
    let order = [A, B, C, D];
    let mut last = None;
    for _ in 0..order.len() {
        last = s.next_window(false, &snapshot(&order), "notepad.exe");
    }
    assert_eq!(last, Some(A));
}

#[test]
fn backward_undoes_forward() {
    let mut s = Switcher::new();
    assert_eq!(s.next_window(false, &snapshot(&[A, B, C, D]), "notepad.exe"), Some(B));
    assert_eq!(s.next_window(false, &snapshot(&[B, A, C, D]), "notepad.exe"), Some(C));
    assert_eq!(s.next_window(true, &snapshot(&[C, B, A, D]), "notepad.exe"), Some(B));
    assert_eq!(s.windows_state().cache.as_ref().unwrap().index, 1);
}

#[test]
fn backward_wraps_from_the_first_to_the_last() {
    let mut s = Switcher::new();
    assert_eq!(s.next_window(false, &snapshot(&[A, B, C]), "notepad.exe"), Some(B));
    assert_eq!(s.next_window(true, &snapshot(&[B, A, C]), "notepad.exe"), Some(A));
    assert_eq!(s.next_window(true, &snapshot(&[A, B, C]), "notepad.exe"), Some(C));
    assert_eq!(s.windows_state().cache.as_ref().unwrap().index, 2);
}

#[test]
fn press_after_release_resumes_at_the_anchor() {
    let mut s = Switcher::new();
    assert_eq!(s.next_window(false, &snapshot(&[A, B, C]), "notepad.exe"), Some(B));
    s.release_modifier();
    assert!(s.windows_state().modifier_released);
    // focus went to the calculator and came back; B is frontmost now
    assert_eq!(s.next_window(false, &snapshot(&[B, A, C]), "notepad.exe"), Some(A));
    let cache = s.windows_state().cache.as_ref().unwrap();
    assert_eq!(cache.anchor_handle, B);
    assert_eq!(cache.index, 1);
    assert_eq!(cache.ordered_handles, vec![B, A, C]);
    assert!(!s.windows_state().modifier_released);
}

#[test]
fn press_after_release_finds_the_anchor_where_it_stands() {
    let mut s = Switcher::new();
    assert_eq!(s.next_window(false, &snapshot(&[A, B, C]), "notepad.exe"), Some(B));
    s.release_modifier();
    // the anchor A has sunk to the back
    assert_eq!(s.next_window(false, &snapshot(&[B, C, A]), "notepad.exe"), Some(A));
    assert_eq!(s.windows_state().cache.as_ref().unwrap().index, 2);
    s.release_modifier();
    // the anchor is B now, and B is frontmost
    assert_eq!(s.next_window(true, &snapshot(&[B, C, A]), "notepad.exe"), Some(B));
    assert_eq!(s.windows_state().cache.as_ref().unwrap().index, 0);
}

#[test]
fn missing_anchor_falls_back_to_the_second_window() {
    let mut s = Switcher::new();
    assert_eq!(s.next_window(false, &snapshot(&[A, B, C, D]), "notepad.exe"), Some(B));
    s.release_modifier();
    // A was closed
    assert_eq!(s.next_window(false, &snapshot(&[B, C, D]), "notepad.exe"), Some(C));
    let cache = s.windows_state().cache.as_ref().unwrap();
    assert_eq!(cache.anchor_handle, B);
    assert_eq!(cache.index, 1);
    assert_eq!(cache.ordered_handles, vec![B, C, D]);
}

#[test]
fn cache_of_another_executable_is_not_used() {
    let mut s = Switcher::new();
    let mut groups = WindowGroups::new();
    for h in [A, B, C] {
        groups.push("notepad.exe", h);
    }
    for h in [11, 12, 13] {
        groups.push("calc.exe", h);
    }
    assert_eq!(s.next_window(false, &groups, "notepad.exe"), Some(B));
    assert_eq!(s.next_window(false, &groups, "notepad.exe"), Some(C));
    assert_eq!(s.next_window(false, &groups, "calc.exe"), Some(12));
    let cache = s.windows_state().cache.as_ref().unwrap();
    assert_eq!(cache.executable_key, "calc.exe");
    assert_eq!(cache.anchor_handle, 11);
    assert_eq!(cache.ordered_handles, vec![11, 12, 13]);
}

#[test]
fn continuation_drops_closed_windows_and_appends_new_ones() {
    let mut s = Switcher::new();
    assert_eq!(s.next_window(false, &snapshot(&[A, B, C, D]), "notepad.exe"), Some(B));
    // C was closed, 105 and 106 were opened
    let now = snapshot(&[B, 105, A, 106, D]);
    assert_eq!(s.next_window(false, &now, "notepad.exe"), Some(D));
    let cache = s.windows_state().cache.as_ref().unwrap();
    assert_eq!(cache.anchor_handle, A);
    assert_eq!(cache.index, 2);
    assert_eq!(cache.ordered_handles[..3], [A, B, D]);
    let mut rest = cache.ordered_handles[3..].to_vec();
    rest.sort();
    assert_eq!(rest, vec![105, 106]);
}

#[test]
fn continuation_wraps_when_the_group_shrank() {
    let mut s = Switcher::new();
    let five = [A, B, C, D, 105];
    for _ in 0..4 {
        s.next_window(false, &snapshot(&five), "notepad.exe");
    }
    assert_eq!(s.windows_state().cache.as_ref().unwrap().index, 4);
    // two windows were closed; the index lies beyond the list now
    assert_eq!(s.next_window(false, &snapshot(&[A, B, C]), "notepad.exe"), Some(A));
    assert_eq!(s.windows_state().cache.as_ref().unwrap().index, 0);
}

#[test]
fn backward_lands_on_the_last_when_the_index_is_beyond() {
    let mut s = Switcher::new();
    let six = [A, B, C, D, 105, 106];
    for _ in 0..5 {
        s.next_window(false, &snapshot(&six), "notepad.exe");
    }
    assert_eq!(s.windows_state().cache.as_ref().unwrap().index, 5);
    assert_eq!(s.next_window(true, &snapshot(&[A, B, C]), "notepad.exe"), Some(C));
    assert_eq!(s.windows_state().cache.as_ref().unwrap().index, 2);
}

#[test]
fn advance_index_steps_and_wraps() {
    assert_eq!(advance_index(0, 3, false), 1);
    assert_eq!(advance_index(1, 3, false), 2);
    assert_eq!(advance_index(2, 3, false), 0);
    assert_eq!(advance_index(7, 3, false), 0);
    assert_eq!(advance_index(0, 3, true), 2);
    assert_eq!(advance_index(2, 3, true), 1);
    assert_eq!(advance_index(3, 3, true), 2);
    assert_eq!(advance_index(4, 3, true), 2);
    assert_eq!(advance_index(9, 3, true), 2);
    assert_eq!(advance_index(5, 0, true), 0);
    assert_eq!(advance_index(5, 0, false), 0);
    assert_eq!(advance_index(0, 1, false), 0);
    assert_eq!(advance_index(0, 1, true), 0);
}

#[test]
fn find_handle_gives_the_first_position() {
    assert_eq!(find_handle(&vec![A, B, C, B], B), Some(1));
    assert_eq!(find_handle(&vec![A, B, C], A), Some(0));
    assert_eq!(find_handle(&vec![A, B, C], D), None);
    assert_eq!(find_handle(&vec![], D), None);
}

#[test]
fn reconcile_order_keeps_cached_order() {
    assert_eq!(reconcile_order(&vec![A, B, C], &vec![C, A, B]), vec![A, B, C]);
    assert_eq!(reconcile_order(&vec![A, B, C], &vec![C, B]), vec![B, C]);
    assert_eq!(reconcile_order(&vec![], &vec![C, B]), vec![C, B]);
    assert_eq!(reconcile_order(&vec![A, B], &vec![]), Vec::<isize>::new());
    assert_eq!(reconcile_order(&vec![A], &vec![B, A, C]), vec![A, B, C]);
    // a handle that is cached twice is taken once
    assert_eq!(reconcile_order(&vec![A, A, B], &vec![B, A]), vec![A, B]);
    // a handle that is listed twice is taken once
    assert_eq!(reconcile_order(&vec![B], &vec![A, A, B]), vec![B, A]);
}

#[test]
fn reconcile_order_swaps_the_last_new_window_forward() {
    // removing A from [A, D, C, B] puts B in its place
    assert_eq!(reconcile_order(&vec![A], &vec![A, D, C, B]), vec![A, B, D, C]);
}

#[test]
fn copy_handles_copies() {
    assert_eq!(copy_handles(&vec![A, B]), vec![A, B]);
    assert_eq!(copy_handles(&vec![]), Vec::<isize>::new());
}

fn three_apps() -> WindowGroups {
    let mut groups = WindowGroups::new();
    groups.push("notepad.exe", A);
    groups.push("calc.exe", CALC);
    groups.push("notepad.exe", B);
    groups.push("explorer.exe", 700);
    groups.push("explorer.exe", 701);
    groups
}

#[test]
fn app_preview_opens_on_the_second_app() {
    let mut s = Switcher::new();
    assert_eq!(s.next_app(false, &three_apps()), Some(CALC));
    let state = s.apps_state().unwrap();
    assert_eq!(
        state.apps,
        vec![
            ("notepad.exe".to_string(), A),
            ("calc.exe".to_string(), CALC),
            ("explorer.exe".to_string(), 700)
        ]
    );
    assert_eq!(state.index, 1);
}

#[test]
fn app_preview_opens_on_the_last_app_going_backward() {
    let mut s = Switcher::new();
    assert_eq!(s.next_app(true, &three_apps()), Some(700));
    assert_eq!(s.apps_state().unwrap().index, 2);
}

#[test]
fn one_app_opens_no_preview() {
    let mut s = Switcher::new();
    let mut groups = WindowGroups::new();
    groups.push("notepad.exe", A);
    groups.push("notepad.exe", B);
    for reverse in [false, true] {
        assert_eq!(s.next_app(reverse, &groups), None);
        assert!(s.apps_state().is_none());
    }
    assert_eq!(s.finish_app_switch(), None);
    assert!(s.windows_state().cache.is_none());
}

#[test]
fn two_apps_open_a_preview_on_the_other() {
    let mut s = Switcher::new();
    let mut groups = WindowGroups::new();
    groups.push("notepad.exe", A);
    groups.push("calc.exe", CALC);
    assert_eq!(s.next_app(false, &groups), Some(CALC));
    assert_eq!(s.apps_state().unwrap().index, 1);
    assert_eq!(s.next_app(false, &groups), Some(A));
    assert_eq!(s.apps_state().unwrap().index, 0);
    s.cancel_app_switch();
    assert_eq!(s.next_app(true, &groups), Some(CALC));
    assert_eq!(s.finish_app_switch(), Some(CALC));
}

#[test]
fn app_preview_of_nothing_stays_closed() {
    let mut s = Switcher::new();
    assert_eq!(s.next_app(false, &WindowGroups::new()), None);
    assert!(s.apps_state().is_none());
    assert_eq!(s.finish_app_switch(), None);
}

#[test]
fn app_steps_wrap_and_ignore_later_snapshots() {
    let mut s = Switcher::new();
    s.next_app(false, &three_apps());
    s.next_app(false, &WindowGroups::new());
    assert_eq!(s.apps_state().unwrap().index, 2);
    assert_eq!(s.apps_state().unwrap().apps.len(), 3);
    s.next_app(false, &three_apps());
    assert_eq!(s.apps_state().unwrap().index, 0);
    s.next_app(true, &three_apps());
    assert_eq!(s.apps_state().unwrap().index, 2);
    s.next_app(true, &three_apps());
    assert_eq!(s.apps_state().unwrap().index, 1);
}

#[test]
fn finishing_activates_the_selected_app() {
    let mut s = Switcher::new();
    s.next_app(false, &three_apps());
    s.next_app(false, &three_apps());
    assert_eq!(s.finish_app_switch(), Some(700));
    assert!(s.apps_state().is_none());
    assert_eq!(s.finish_app_switch(), None);
}

#[test]
fn escape_after_two_steps_activates_nothing() {
    let mut s = Switcher::new();
    s.next_app(false, &three_apps());
    s.next_app(false, &three_apps());
    s.cancel_app_switch();
    assert!(s.apps_state().is_none());
    assert_eq!(s.finish_app_switch(), None);
    assert!(s.windows_state().cache.is_none());
}

#[test]
fn clicking_an_entry_selects_it() {
    let mut s = Switcher::new();
    assert!(!s.select_app(0));
    s.next_app(false, &three_apps());
    assert!(!s.select_app(3));
    assert_eq!(s.apps_state().unwrap().index, 1);
    assert!(s.select_app(0));
    assert_eq!(s.apps_state().unwrap().index, 0);
    assert_eq!(s.finish_app_switch(), Some(A));
}

#[test]
fn app_gesture_leaves_the_window_cache_alone() {
    let mut s = Switcher::new();
    s.next_window(false, &snapshot(&[A, B, C]), "notepad.exe");
    s.next_app(false, &three_apps());
    s.cancel_app_switch();
    let cache = s.windows_state().cache.as_ref().unwrap();
    assert_eq!(cache.index, 1);
    assert_eq!(cache.ordered_handles, vec![A, B, C]);
}
