//! Insertion-ordered collections from `indexmap`, with the contracts the
//! rest of the crate relies on. The functions that call into `indexmap` are
//! believed, not proved: each states what the method does to the
//! collection's contents, which are given as a sequence in insertion order.
use indexmap::IndexMap;
use indexmap::IndexSet;
use vstd::prelude::*;

verus! {

#[verifier::external_type_specification]
#[verifier::external_body]
#[verifier::reject_recursive_types(K)]
#[verifier::reject_recursive_types(V)]
#[verifier::reject_recursive_types(S)]
pub struct ExIndexMap<K, V, S>(IndexMap<K, V, S>);

#[verifier::external_type_specification]
#[verifier::external_body]
#[verifier::reject_recursive_types(T)]
#[verifier::reject_recursive_types(S)]
pub struct ExIndexSet<T, S>(IndexSet<T, S>);

/// The entries of a map from executable key to window handles, in insertion order.
pub uninterp spec fn group_entries(m: IndexMap<String, Vec<isize>>) -> Seq<(Seq<char>, Seq<isize>)>;

/// The items of a handle set, in the order the set holds them.
pub uninterp spec fn set_items(s: IndexSet<isize>) -> Seq<isize>;

/// Position of the first entry with the given key.
pub open spec fn key_position(entries: Seq<(Seq<char>, Seq<isize>)>, key: Seq<char>) -> Option<int>
    decreases entries.len(),
{
    if entries.len() == 0 {
        None
    } else {
        match key_position(entries.drop_last(), key) {
            Some(i) => Some(i),
            None => if entries.last().0 == key {
                Some(entries.len() - 1)
            } else {
                None
            },
        }
    }
}

/// What `key_position` finds: the first entry with the key, or that there is none.
pub proof fn lemma_key_position(entries: Seq<(Seq<char>, Seq<isize>)>, key: Seq<char>)
    ensures
        match key_position(entries, key) {
            Some(i) => 0 <= i < entries.len() && entries[i].0 == key && forall|j: int|
                0 <= j < i ==> entries[j].0 != key,
            None => forall|j: int| 0 <= j < entries.len() ==> entries[j].0 != key,
        },
    decreases entries.len(),
{
    if entries.len() > 0 {
        let head = entries.drop_last();
        lemma_key_position(head, key);
        match key_position(head, key) {
            Some(i) => {
                assert(head[i] == entries[i]);
                assert forall|j: int| 0 <= j < i implies entries[j].0 != key by {
                    assert(head[j] == entries[j]);
                }
            },
            None => {
                assert forall|j: int| 0 <= j < entries.len() - 1 implies entries[j].0 != key by {
                    assert(head[j] == entries[j]);
                }
            },
        }
    }
}

/// Position of the first occurrence of a handle.
pub open spec fn handle_position(items: Seq<isize>, value: isize) -> Option<int>
    decreases items.len(),
{
    if items.len() == 0 {
        None
    } else {
        match handle_position(items.drop_last(), value) {
            Some(i) => Some(i),
            None => if items.last() == value {
                Some(items.len() - 1)
            } else {
                None
            },
        }
    }
}

/// What `handle_position` finds: the first occurrence, or that there is none.
pub proof fn lemma_handle_position(items: Seq<isize>, value: isize)
    ensures
        match handle_position(items, value) {
            Some(i) => 0 <= i < items.len() && items[i] == value && forall|j: int|
                0 <= j < i ==> items[j] != value,
            None => !items.contains(value),
        },
        handle_position(items, value) is Some <==> items.contains(value),
    decreases items.len(),
{
    if items.len() > 0 {
        let head = items.drop_last();
        lemma_handle_position(head, value);
        match handle_position(head, value) {
            Some(i) => {
                assert(head[i] == items[i]);
                assert forall|j: int| 0 <= j < i implies items[j] != value by {
                    assert(head[j] == items[j]);
                }
            },
            None => {
                assert forall|j: int| 0 <= j < items.len() - 1 implies items[j] != value by {
                    assert(head[j] == items[j]);
                    assert(head.contains(head[j]));
                }
                if items.last() != value {
                    assert forall|j: int| 0 <= j < items.len() implies items[j] != value by {}
                }
            },
        }
    }
}

/// The items with the one at `index` replaced by the last and the last dropped.
pub open spec fn swap_removed(items: Seq<isize>, index: int) -> Seq<isize> {
    items.update(index, items.last()).drop_last()
}

/// The items after a swap-removal of `value`; unchanged when it is absent.
pub open spec fn without(items: Seq<isize>, value: isize) -> Seq<isize> {
    match handle_position(items, value) {
        Some(i) => swap_removed(items, i),
        None => items,
    }
}

/// `IndexMap::new`: the new map has no entries.
#[verifier::external_body]
pub(crate) fn map_new() -> (m: IndexMap<String, Vec<isize>>)
    ensures
        group_entries(m) == Seq::<(Seq<char>, Seq<isize>)>::empty(),
{
    IndexMap::new()
}

/// `IndexMap::len`: the number of entries.
#[verifier::external_body]
pub(crate) fn map_len(m: &IndexMap<String, Vec<isize>>) -> (n: usize)
    ensures
        n == group_entries(*m).len(),
{
    m.len()
}

/// `IndexMap::get_index`: the entry at a position, exactly when the position is in range.
#[verifier::external_body]
pub(crate) fn map_get_index(m: &IndexMap<String, Vec<isize>>, index: usize) -> (r: Option<
    (&String, &Vec<isize>),
>)
    ensures
        match r {
            Some(entry) => index < group_entries(*m).len() && entry.0@ == group_entries(
                *m,
            )[index as int].0 && entry.1@ == group_entries(*m)[index as int].1,
            None => index >= group_entries(*m).len(),
        },
{
    m.get_index(index)
}

/// `IndexMap::get_index_of`: the position of the entry stored under `key`, if
/// there is one. A map holds a key at most once, so it is the first such entry.
#[verifier::external_body]
pub(crate) fn map_get_index_of(m: &IndexMap<String, Vec<isize>>, key: &str) -> (r: Option<usize>)
    ensures
        match r {
            Some(i) => key_position(group_entries(*m), key@) == Some(i as int),
            None => key_position(group_entries(*m), key@) is None,
        },
{
    m.get_index_of(key)
}

/// `IndexMap::entry` followed by `Entry::or_default`: a mutable reference to the
/// value stored under `key`, after an empty value was appended under it if the
/// key was absent. No other entry moves or changes.
#[verifier::external_body]
pub(crate) fn map_entry_or_default(m: &mut IndexMap<String, Vec<isize>>, key: String) -> (r:
    &mut Vec<isize>)
    ensures
        match key_position(group_entries(*old(m)), key@) {
            Some(i) => r@ == group_entries(*old(m))[i].1 && group_entries(*final(m))
                == group_entries(*old(m)).update(i, (key@, final(r)@)),
            None => r@ == Seq::<isize>::empty() && group_entries(*final(m)) == group_entries(
                *old(m),
            ).push((key@, final(r)@)),
        },
{
    m.entry(key).or_default()
}

/// `IndexSet::new`: the new set has no items.
#[verifier::external_body]
pub(crate) fn set_new() -> (s: IndexSet<isize>)
    ensures
        set_items(s) == Seq::<isize>::empty(),
{
    IndexSet::new()
}

/// `IndexSet::len`: the number of items.
#[verifier::external_body]
pub(crate) fn set_len(s: &IndexSet<isize>) -> (n: usize)
    ensures
        n == set_items(*s).len(),
{
    s.len()
}

/// `IndexSet::insert`: an absent item is appended and `true` returned; a present
/// one leaves the set as it was and `false` is returned.
#[verifier::external_body]
pub(crate) fn set_insert(s: &mut IndexSet<isize>, value: isize) -> (added: bool)
    ensures
        added == !set_items(*old(s)).contains(value),
        set_items(*final(s)) == if added {
            set_items(*old(s)).push(value)
        } else {
            set_items(*old(s))
        },
{
    s.insert(value)
}

/// `IndexSet::contains`: whether the item is in the set.
#[verifier::external_body]
pub(crate) fn set_contains(s: &IndexSet<isize>, value: isize) -> (r: bool)
    ensures
        r == set_items(*s).contains(value),
{
    s.contains(&value)
}

/// `IndexSet::swap_remove`: a present item is replaced by the last item, the
/// last position is dropped, and `true` is returned; an absent one leaves the
/// set as it was and `false` is returned.
#[verifier::external_body]
pub(crate) fn set_swap_remove(s: &mut IndexSet<isize>, value: isize) -> (removed: bool)
    ensures
        removed == set_items(*old(s)).contains(value),
        set_items(*final(s)) == without(set_items(*old(s)), value),
{
    s.swap_remove(&value)
}

/// `IndexSet::get_index`: the item at a position, exactly when the position is in range.
#[verifier::external_body]
pub(crate) fn set_get_index(s: &IndexSet<isize>, index: usize) -> (r: Option<isize>)
    ensures
        match r {
            Some(item) => index < set_items(*s).len() && item == set_items(*s)[index as int],
            None => index >= set_items(*s).len(),
        },
{
    s.get_index(index).copied()
}

/// The entries of a map from text to text, in insertion order.
pub uninterp spec fn text_entries(m: IndexMap<String, String>) -> Seq<(Seq<char>, Seq<char>)>;

/// Position of the first entry with the given key.
pub open spec fn text_key_position(entries: Seq<(Seq<char>, Seq<char>)>, key: Seq<char>) -> Option<int>
    decreases entries.len(),
{
    if entries.len() == 0 {
        None
    } else {
        match text_key_position(entries.drop_last(), key) {
            Some(i) => Some(i),
            None => if entries.last().0 == key {
                Some(entries.len() - 1)
            } else {
                None
            },
        }
    }
}

/// The entries after `value` was stored under `key`: in the place of the
/// key's entry, or as a new last entry when the key is new.
pub open spec fn with_text_entry(entries: Seq<(Seq<char>, Seq<char>)>, key: Seq<char>, value: Seq<char>) -> Seq<
    (Seq<char>, Seq<char>),
> {
    match text_key_position(entries, key) {
        Some(i) => entries.update(i, (key, value)),
        None => entries.push((key, value)),
    }
}

/// `IndexMap::new`: the new map has no entries.
#[verifier::external_body]
pub(crate) fn text_map_new() -> (m: IndexMap<String, String>)
    ensures
        text_entries(m) == Seq::<(Seq<char>, Seq<char>)>::empty(),
{
    IndexMap::new()
}

/// `IndexMap::len`: the number of entries.
#[verifier::external_body]
pub(crate) fn text_map_len(m: &IndexMap<String, String>) -> (n: usize)
    ensures
        n == text_entries(*m).len(),
{
    m.len()
}

/// `IndexMap::insert`: a value stored under a key that the map holds takes
/// the place of the old value, where it stands; under a new key it is
/// appended.
#[verifier::external_body]
pub(crate) fn text_map_insert(m: &mut IndexMap<String, String>, key: String, value: String)
    ensures
        text_entries(*final(m)) == with_text_entry(text_entries(*old(m)), key@, value@),
{
    m.insert(key, value);
}

/// `IndexMap::get_index`: the entry at a position, exactly when the position is in range.
#[verifier::external_body]
pub(crate) fn text_map_get_index(m: &IndexMap<String, String>, index: usize) -> (r: Option<
    (&String, &String),
>)
    ensures
        match r {
            Some(entry) => index < text_entries(*m).len() && entry.0@ == text_entries(
                *m,
            )[index as int].0 && entry.1@ == text_entries(*m)[index as int].1,
            None => index >= text_entries(*m).len(),
        },
{
    m.get_index(index)
}

} // verus!
