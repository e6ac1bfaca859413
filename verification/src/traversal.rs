//! What holds of every switch-windows traversal, proved over the step
//! function of the cycle state machine.
use crate::cycle::{
    forward_steps, lemma_forward_steps, lemma_reconciled_order, lemma_reconciled_same_handles,
    lemma_step_inverse, reconciled_order, step_index,
};
use crate::ordered::{handle_position, key_position, lemma_handle_position, lemma_key_position};
use crate::switcher::{cache_usable, spec_next_window, step_group, CacheModel, WindowsModel};
use vstd::prelude::*;

verus! {

/// Two lists hold the same handles.
pub open spec fn same_handles(a: Seq<isize>, b: Seq<isize>) -> bool {
    forall|h: isize| a.contains(h) <==> b.contains(h)
}

/// The state is in the middle of a gesture on `key`: the modifier is held and
/// the cache, written for `key`, holds a valid index into an order of more
/// than two distinct handles.
pub open spec fn gesture_held(st: WindowsModel, key: Seq<char>) -> bool {
    &&& !st.released
    &&& st.cache is Some
    &&& st.cache->0.key == key
    &&& st.cache->0.ordered.len() > 2
    &&& st.cache->0.ordered.no_duplicates()
    &&& st.cache->0.index < st.cache->0.ordered.len()
}

/// Every snapshot lists the handles of `order`, each once, in any order.
pub open spec fn snapshots_of(snapshots: Seq<Seq<isize>>, order: Seq<isize>) -> bool {
    forall|k: int|
        0 <= k < snapshots.len() ==> (#[trigger] snapshots[k]).no_duplicates() && same_handles(
            snapshots[k],
            order,
        )
}

/// Forward presses, one per snapshot, from first to last: the target of the
/// last press and the state after it.
pub open spec fn press_forward(key: Seq<char>, snapshots: Seq<Seq<isize>>, st: WindowsModel) -> (
    Option<isize>,
    WindowsModel,
)
    decreases snapshots.len(),
{
    if snapshots.len() == 0 {
        (None, st)
    } else {
        step_group(false, key, snapshots.last(), press_forward(key, snapshots.drop_last(), st).1)
    }
}

/// A list without repeats is as long as any other such list of the same handles.
pub proof fn lemma_same_handles_len(a: Seq<isize>, b: Seq<isize>)
    requires
        a.no_duplicates(),
        b.no_duplicates(),
        same_handles(a, b),
    ensures
        a.len() == b.len(),
{
    lemma_reconciled_same_handles(a, b);
    lemma_reconciled_order(a, b);
}

/// Where the focused executable has one window in the snapshot, or none, a
/// press gives no activation target and leaves the state as it was.
pub proof fn law_snapshot_single_window_no_target(
    reverse: bool,
    groups: Seq<(Seq<char>, Seq<isize>)>,
    focused_key: Seq<char>,
    st: WindowsModel,
)
    requires
        match key_position(groups, focused_key) {
            Some(i) => groups[i].1.len() == 1,
            None => true,
        },
    ensures
        spec_next_window(reverse, groups, focused_key, st) == (None::<isize>, st),
{
}

/// Where the focused executable has two windows in the snapshot, a press
/// targets the one that is not frontmost, whatever the cache holds.
pub proof fn law_snapshot_two_windows_target_other(
    reverse: bool,
    groups: Seq<(Seq<char>, Seq<isize>)>,
    focused_key: Seq<char>,
    st: WindowsModel,
)
    requires
        key_position(groups, focused_key) is Some,
        groups[key_position(groups, focused_key).unwrap()].1.len() == 2,
    ensures
        spec_next_window(reverse, groups, focused_key, st).0 == Some(
            groups[key_position(groups, focused_key).unwrap()].1[1],
        ),
{
    lemma_key_position(groups, focused_key);
}

/// A group of one window gives no activation target, whatever the cache
/// holds, and the state stays as it was.
pub proof fn law_single_window_no_target(reverse: bool, key: Seq<char>, group: Seq<isize>, st: WindowsModel)
    requires
        group.len() == 1,
    ensures
        step_group(reverse, key, group, st) == (None::<isize>, st),
{
}

/// In a group of two windows every step targets the window that is not
/// frontmost, whatever the cache holds.
pub proof fn law_two_windows_target_other(reverse: bool, key: Seq<char>, group: Seq<isize>, st: WindowsModel)
    requires
        group.len() == 2,
    ensures
        step_group(reverse, key, group, st).0 == Some(group[1]),
{
}

/// A press after the modifier was released resumes at the cached anchor: where
/// the cache was written for this executable, the group has more than two
/// windows and the anchor is still among them, the anchor is the target.
pub proof fn law_release_resumes_at_anchor(reverse: bool, key: Seq<char>, group: Seq<isize>, st: WindowsModel)
    requires
        group.len() > 2,
        st.released,
        st.cache is Some,
        st.cache->0.key == key,
        group.contains(st.cache->0.anchor),
    ensures
        step_group(reverse, key, group, st).0 == Some(st.cache->0.anchor),
        step_group(reverse, key, group, st).1.cache->0.anchor == group[0],
        step_group(reverse, key, group, st).1.cache->0.ordered == group,
{
    lemma_handle_position(group, st.cache->0.anchor);
}

/// A press after the modifier was released falls back to the second window
/// where the cached anchor is no longer in the group.
pub proof fn law_missing_anchor_falls_back(reverse: bool, key: Seq<char>, group: Seq<isize>, st: WindowsModel)
    requires
        group.len() > 2,
        st.released,
        st.cache is Some,
        st.cache->0.key == key,
        !group.contains(st.cache->0.anchor),
    ensures
        step_group(reverse, key, group, st).0 == Some(group[1]),
        step_group(reverse, key, group, st).1 == (WindowsModel {
            cache: Some(CacheModel { key, anchor: group[0], index: 1, ordered: group }),
            released: false,
        }),
{
    lemma_handle_position(group, st.cache->0.anchor);
}

/// While the modifier is held and the windows stay the same, a step keeps the
/// frozen order and the anchor, moves the index by one, and targets the handle
/// at the new index.
pub proof fn lemma_held_step(reverse: bool, key: Seq<char>, group: Seq<isize>, st: WindowsModel)
    requires
        gesture_held(st, key),
        group.no_duplicates(),
        same_handles(group, st.cache->0.ordered),
    ensures
        step_group(reverse, key, group, st).1 == (WindowsModel {
            cache: Some(
                CacheModel {
                    key,
                    anchor: st.cache->0.anchor,
                    index: step_index(st.cache->0.index, st.cache->0.ordered.len(), reverse),
                    ordered: st.cache->0.ordered,
                },
            ),
            released: false,
        }),
        step_group(reverse, key, group, st).0 == Some(
            st.cache->0.ordered[step_index(st.cache->0.index, st.cache->0.ordered.len(), reverse) as int],
        ),
        gesture_held(step_group(reverse, key, group, st).1, key),
{
    let order = st.cache->0.ordered;
    lemma_same_handles_len(group, order);
    lemma_reconciled_same_handles(order, group);
    assert(cache_usable(st.cache, key, group));
    assert(reconciled_order(order, group) == order);
}

/// Forward presses while the modifier is held and the windows stay the same:
/// the order and the anchor are kept, and the index has moved by the number
/// of presses.
pub proof fn lemma_held_forward(key: Seq<char>, snapshots: Seq<Seq<isize>>, st: WindowsModel)
    requires
        gesture_held(st, key),
        snapshots_of(snapshots, st.cache->0.ordered),
    ensures
        press_forward(key, snapshots, st).1 == (WindowsModel {
            cache: Some(
                CacheModel {
                    key,
                    anchor: st.cache->0.anchor,
                    index: forward_steps(st.cache->0.index, st.cache->0.ordered.len(), snapshots.len()),
                    ordered: st.cache->0.ordered,
                },
            ),
            released: false,
        }),
        snapshots.len() > 0 ==> press_forward(key, snapshots, st).0 == Some(
            st.cache->0.ordered[forward_steps(
                st.cache->0.index,
                st.cache->0.ordered.len(),
                snapshots.len(),
            ) as int],
        ),
        gesture_held(press_forward(key, snapshots, st).1, key),
    decreases snapshots.len(),
{
    if snapshots.len() > 0 {
        let head = snapshots.drop_last();
        assert forall|k: int| 0 <= k < head.len() implies (#[trigger] head[k]).no_duplicates()
            && same_handles(head[k], st.cache->0.ordered) by {
            assert(head[k] == snapshots[k]);
        }
        lemma_held_forward(key, head, st);
        let mid = press_forward(key, head, st).1;
        assert(snapshots.last() == snapshots[snapshots.len() - 1]);
        lemma_held_step(false, key, snapshots.last(), mid);
    }
}

/// Cycle closure. While the modifier is held and the windows stay the same, as
/// many forward presses as there are windows lead back to the handle that was
/// targeted last before them.
pub proof fn law_forward_cycle_closes(key: Seq<char>, snapshots: Seq<Seq<isize>>, st: WindowsModel)
    requires
        gesture_held(st, key),
        snapshots_of(snapshots, st.cache->0.ordered),
        snapshots.len() == st.cache->0.ordered.len(),
    ensures
        press_forward(key, snapshots, st).0 == Some(st.cache->0.ordered[st.cache->0.index as int]),
        press_forward(key, snapshots, st).1 == st,
{
    lemma_held_forward(key, snapshots, st);
    lemma_forward_steps(st.cache->0.index, st.cache->0.ordered.len(), snapshots.len());
}

/// Pressing first and then going on is the same as pressing through.
pub proof fn lemma_press_forward_split(key: Seq<char>, snapshots: Seq<Seq<isize>>, st: WindowsModel)
    requires
        snapshots.len() > 1,
    ensures
        press_forward(key, snapshots, st) == press_forward(
            key,
            snapshots.skip(1),
            step_group(false, key, snapshots[0], st).1,
        ),
    decreases snapshots.len(),
{
    let first = step_group(false, key, snapshots[0], st).1;
    let head = snapshots.drop_last();
    let tail = snapshots.skip(1);
    assert(tail.last() == snapshots.last());
    if snapshots.len() == 2 {
        assert(head.drop_last().len() == 0);
        assert(head.last() == snapshots[0]);
        assert(press_forward(key, head.drop_last(), st) == (None::<isize>, st));
        assert(press_forward(key, head, st) == step_group(false, key, snapshots[0], st));
        assert(tail.drop_last().len() == 0);
        assert(press_forward(key, tail.drop_last(), first) == (None::<isize>, first));
    } else {
        lemma_press_forward_split(key, head, st);
        assert(head.skip(1) =~= tail.drop_last());
        assert(head[0] == snapshots[0]);
    }
}

/// Cycle closure from the start of a gesture. In a group of more than two
/// distinct windows that stay the same, where the first press targets the
/// second window, as many forward presses as there are windows, with the
/// modifier held from the first on, end on the window that was frontmost at
/// the start.
pub proof fn law_gesture_returns_to_start(key: Seq<char>, snapshots: Seq<Seq<isize>>, st: WindowsModel)
    requires
        snapshots.len() > 2,
        snapshots.len() == snapshots[0].len(),
        snapshots_of(snapshots, snapshots[0]),
        cache_usable(st.cache, key, snapshots[0]) ==> st.released && (handle_position(
            snapshots[0],
            st.cache->0.anchor,
        ) is None || handle_position(snapshots[0], st.cache->0.anchor) == Some(1int)),
    ensures
        press_forward(key, snapshots, st).0 == Some(snapshots[0][0]),
{
    let group = snapshots[0];
    let n = group.len();
    let first = step_group(false, key, group, st).1;
    assert(first.cache == Some(CacheModel { key, anchor: group[0], index: 1, ordered: group }));
    lemma_press_forward_split(key, snapshots, st);
    let rest = snapshots.skip(1);
    assert forall|k: int| 0 <= k < rest.len() implies (#[trigger] rest[k]).no_duplicates()
        && same_handles(rest[k], group) by {
        assert(rest[k] == snapshots[k + 1]);
    }
    assert(group.no_duplicates());
    lemma_held_forward(key, rest, first);
    lemma_forward_steps(1, n, rest.len());
}

/// Inverse steps. While the modifier is held and the windows stay the same, a
/// forward press followed by a backward press targets the handle that was
/// targeted last before the two, and leaves the state as it was.
pub proof fn law_backward_undoes_forward(
    key: Seq<char>,
    first: Seq<isize>,
    second: Seq<isize>,
    st: WindowsModel,
)
    requires
        gesture_held(st, key),
        first.no_duplicates(),
        second.no_duplicates(),
        same_handles(first, st.cache->0.ordered),
        same_handles(second, st.cache->0.ordered),
    ensures
        step_group(true, key, second, step_group(false, key, first, st).1).0 == Some(
            st.cache->0.ordered[st.cache->0.index as int],
        ),
        step_group(true, key, second, step_group(false, key, first, st).1).1 == st,
{
    lemma_held_step(false, key, first, st);
    let mid = step_group(false, key, first, st).1;
    lemma_held_step(true, key, second, mid);
    lemma_step_inverse(st.cache->0.index, st.cache->0.ordered.len());
}

} // verus!
