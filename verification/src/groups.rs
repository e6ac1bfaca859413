//! The snapshot that window discovery produces: window handles grouped by the
//! executable that owns them, groups in first-seen order.
use crate::ordered::{
    group_entries, key_position, lemma_key_position, map_entry_or_default, map_get_index,
    map_get_index_of, map_len, map_new,
};
use indexmap::IndexMap;
use vstd::prelude::*;

verus! {

/// No two entries share a key.
pub open spec fn keys_distinct(entries: Seq<(Seq<char>, Seq<isize>)>) -> bool {
    forall|i: int, j: int| 0 <= i < j < entries.len() ==> entries[i].0 != entries[j].0
}

/// Keys are distinct and no group is empty.
pub open spec fn groups_wf(entries: Seq<(Seq<char>, Seq<isize>)>) -> bool {
    &&& keys_distinct(entries)
    &&& forall|i: int| 0 <= i < entries.len() ==> (#[trigger] entries[i]).1.len() > 0
}

/// The entries after `hwnd` was added under `key`: at the end of the key's
/// group, or as a new last group when the key is new.
pub open spec fn with_window(entries: Seq<(Seq<char>, Seq<isize>)>, key: Seq<char>, hwnd: isize) -> Seq<
    (Seq<char>, Seq<isize>),
> {
    match key_position(entries, key) {
        Some(i) => entries.update(i, (key, entries[i].1.push(hwnd))),
        None => entries.push((key, seq![hwnd])),
    }
}

/// Adding a window keeps the groups well formed.
pub proof fn lemma_with_window_wf(entries: Seq<(Seq<char>, Seq<isize>)>, key: Seq<char>, hwnd: isize)
    requires
        groups_wf(entries),
    ensures
        groups_wf(with_window(entries, key, hwnd)),
{
    lemma_key_position(entries, key);
    let after = with_window(entries, key, hwnd);
    match key_position(entries, key) {
        Some(p) => {
            assert forall|i: int, j: int| 0 <= i < j < after.len() implies after[i].0 != after[j].0 by {
                assert(after[i].0 == entries[i].0);
                assert(after[j].0 == entries[j].0);
            }
            assert forall|i: int| 0 <= i < after.len() implies (#[trigger] after[i]).1.len() > 0 by {
                if i != p {
                    assert(after[i] == entries[i]);
                }
            }
        },
        None => {
            assert forall|i: int, j: int| 0 <= i < j < after.len() implies after[i].0 != after[j].0 by {
                assert(after[i].0 == entries[i].0);
                if j < entries.len() {
                    assert(after[j].0 == entries[j].0);
                }
            }
            assert forall|i: int| 0 <= i < after.len() implies (#[trigger] after[i]).1.len() > 0 by {
                if i < entries.len() {
                    assert(after[i] == entries[i]);
                }
            }
        },
    }
}

/// Window handles grouped by executable key. Groups stand in the order in
/// which their keys were first seen; within a group, handles stand in the
/// order in which they were added.
pub struct WindowGroups {
    map: IndexMap<String, Vec<isize>>,
}

impl View for WindowGroups {
    type V = Seq<(Seq<char>, Seq<isize>)>;

    closed spec fn view(&self) -> Seq<(Seq<char>, Seq<isize>)> {
        group_entries(self.map)
    }
}

impl WindowGroups {
    #[verifier::type_invariant]
    spec fn inv(self) -> bool {
        groups_wf(group_entries(self.map))
    }

    /// A snapshot with no windows.
    pub fn new() -> (r: Self)
        ensures
            r@ == Seq::<(Seq<char>, Seq<isize>)>::empty(),
    {
        WindowGroups { map: map_new() }
    }

    /// Adds a window under its executable key.
    pub fn push(&mut self, key: &str, hwnd: isize)
        ensures
            final(self)@ == with_window(old(self)@, key@, hwnd),
            groups_wf(final(self)@),
    {
        proof {
            use_type_invariant(&*self);
            lemma_with_window_wf(self@, key@, hwnd);
        }
        let mut map = map_new();
        std::mem::swap(&mut self.map, &mut map);
        let group = map_entry_or_default(&mut map, key.to_owned());
        group.push(hwnd);
        self.map = map;
    }

    /// The number of groups.
    pub fn len(&self) -> (n: usize)
        ensures
            n == self@.len(),
            groups_wf(self@),
    {
        proof {
            use_type_invariant(self);
        }
        map_len(&self.map)
    }

    /// The key of the group at `index`.
    pub fn key_at(&self, index: usize) -> (r: Option<String>)
        ensures
            match r {
                Some(key) => index < self@.len() && key@ == self@[index as int].0,
                None => index >= self@.len(),
            },
    {
        match map_get_index(&self.map, index) {
            Some(entry) => Some(entry.0.clone()),
            None => None,
        }
    }

    /// The handles of the group at `index`.
    pub fn windows_at(&self, index: usize) -> (r: Option<&Vec<isize>>)
        ensures
            match r {
                Some(windows) => index < self@.len() && windows@ == self@[index as int].1
                    && windows@.len() > 0,
                None => index >= self@.len(),
            },
    {
        proof {
            use_type_invariant(self);
        }
        match map_get_index(&self.map, index) {
            Some(entry) => Some(entry.1),
            None => None,
        }
    }

    /// The position of the group stored under `key`.
    pub fn position(&self, key: &str) -> (r: Option<usize>)
        ensures
            match r {
                Some(i) => key_position(self@, key@) == Some(i as int) && i < self@.len(),
                None => key_position(self@, key@) is None,
            },
    {
        proof {
            lemma_key_position(self@, key@);
        }
        map_get_index_of(&self.map, key)
    }
}

} // verus!
