//! The arithmetic and the list handling behind one traversal step: where the
//! index goes, and how a frozen traversal order is brought up to date with
//! the windows that exist now.
use crate::ordered::{
    handle_position, lemma_handle_position, set_contains, set_get_index, set_insert, set_items,
    set_len, set_new, set_swap_remove, swap_removed, without,
};
use vstd::prelude::*;

verus! {

/// The index after one step over a list of `len` entries. Forward goes up by
/// one and wraps to 0 past the end; backward goes down by one, wraps from 0 to
/// the last entry, and lands on the last entry when the old index lies beyond
/// the list.
pub open spec fn step_index(index: nat, len: nat, reverse: bool) -> nat {
    if len == 0 {
        0
    } else if reverse {
        if index == 0 || index > len {
            (len - 1) as nat
        } else {
            (index - 1) as nat
        }
    } else {
        if index + 1 >= len {
            0
        } else {
            index + 1
        }
    }
}

pub fn advance_index(index: usize, len: usize, reverse: bool) -> (r: usize)
    ensures
        r == step_index(index as nat, len as nat, reverse),
        len > 0 ==> r < len,
{
    if len == 0 {
        0
    } else if reverse {
        if index == 0 || index > len {
            len - 1
        } else {
            index - 1
        }
    } else {
        if index >= len - 1 {
            0
        } else {
            index + 1
        }
    }
}

/// The index after `count` forward steps.
pub open spec fn forward_steps(index: nat, len: nat, count: nat) -> nat
    decreases count,
{
    if count == 0 {
        index
    } else {
        step_index(forward_steps(index, len, (count - 1) as nat), len, false)
    }
}

/// Forward steps add up modulo the length of the list.
pub proof fn lemma_forward_steps(index: nat, len: nat, count: nat)
    requires
        index < len,
        count <= len,
    ensures
        forward_steps(index, len, count) == if index + count < len {
            index + count
        } else {
            (index + count - len) as nat
        },
    decreases count,
{
    if count > 0 {
        lemma_forward_steps(index, len, (count - 1) as nat);
    }
}

/// A backward step undoes a forward step, and a forward step a backward one.
pub proof fn lemma_step_inverse(index: nat, len: nat)
    requires
        index < len,
    ensures
        step_index(step_index(index, len, false), len, true) == index,
        step_index(step_index(index, len, true), len, false) == index,
{
}

/// The position of the first occurrence of `value`.
pub fn find_handle(items: &Vec<isize>, value: isize) -> (r: Option<usize>)
    ensures
        match r {
            Some(i) => handle_position(items@, value) == Some(i as int) && i < items.len(),
            None => handle_position(items@, value) is None,
        },
{
    let mut i: usize = 0;
    while i < items.len()
        invariant
            0 <= i <= items.len(),
            handle_position(items@.take(i as int), value) is None,
        decreases items.len() - i,
    {
        proof {
            assert(items@.take(i + 1).drop_last() =~= items@.take(i as int));
        }
        if items[i] == value {
            proof {
                lemma_stable_position(items@, value, i + 1);
            }
            return Some(i);
        }
        i += 1;
    }
    proof {
        assert(items@.take(items.len() as int) =~= items@);
    }
    None
}

/// A first occurrence found in a prefix is the first occurrence in the whole.
pub proof fn lemma_stable_position(items: Seq<isize>, value: isize, n: int)
    requires
        0 <= n <= items.len(),
        handle_position(items.take(n), value) is Some,
    ensures
        handle_position(items, value) == handle_position(items.take(n), value),
    decreases items.len() - n,
{
    if n < items.len() {
        assert(items.take(n + 1).drop_last() =~= items.take(n));
        lemma_stable_position(items, value, n + 1);
    } else {
        assert(items.take(n) =~= items);
    }
}

/// The handles of `items` in the order of their first occurrence, each once.
pub open spec fn dedup(items: Seq<isize>) -> Seq<isize>
    decreases items.len(),
{
    if items.len() == 0 {
        Seq::empty()
    } else {
        let head = dedup(items.drop_last());
        if head.contains(items.last()) {
            head
        } else {
            head.push(items.last())
        }
    }
}

/// `dedup` keeps every handle, repeats none, and changes nothing where
/// nothing repeats.
pub proof fn lemma_dedup(items: Seq<isize>)
    ensures
        dedup(items).no_duplicates(),
        forall|h: isize| dedup(items).contains(h) <==> items.contains(h),
        dedup(items).len() <= items.len(),
        items.len() > 0 ==> dedup(items).len() > 0,
        items.no_duplicates() ==> dedup(items) == items,
    decreases items.len(),
{
    if items.len() > 0 {
        let front = items.drop_last();
        let head = dedup(front);
        lemma_dedup(front);
        assert forall|h: isize| dedup(items).contains(h) <==> items.contains(h) by {
            if items.contains(h) {
                let i = choose|i: int| 0 <= i < items.len() && items[i] == h;
                if i < front.len() {
                    assert(front[i] == h);
                    assert(front.contains(h));
                    assert(head.contains(h));
                    if !head.contains(items.last()) {
                        let k = choose|k: int| 0 <= k < head.len() && head[k] == h;
                        assert(head.push(items.last())[k] == h);
                    }
                } else {
                    if !head.contains(items.last()) {
                        assert(head.push(items.last())[head.len() as int] == h);
                    }
                }
            }
            if dedup(items).contains(h) {
                let k = choose|k: int| 0 <= k < dedup(items).len() && dedup(items)[k] == h;
                if k < head.len() {
                    assert(head[k] == h);
                    assert(head.contains(h));
                    assert(front.contains(h));
                    let i = choose|i: int| 0 <= i < front.len() && front[i] == h;
                    assert(items[i] == h);
                } else {
                    assert(items[items.len() - 1] == h);
                }
            }
        }
        if items.no_duplicates() {
            assert forall|i: int, j: int| 0 <= i < j < front.len() implies front[i] != front[j] by {
                assert(front[i] == items[i] && front[j] == items[j]);
            }
            if front.contains(items.last()) {
                let i = choose|i: int| 0 <= i < front.len() && front[i] == items.last();
                assert(items[i] == items[items.len() - 1]);
            }
            assert(front.push(items.last()) =~= items);
        }
    }
}

/// What a swap-removal does to a list without repeats: the handle is gone,
/// every other handle stays, and nothing repeats.
pub proof fn lemma_without(pool: Seq<isize>, value: isize)
    requires
        pool.no_duplicates(),
    ensures
        without(pool, value).no_duplicates(),
        forall|h: isize| without(pool, value).contains(h) <==> (pool.contains(h) && h != value),
        without(pool, value).len() == if pool.contains(value) {
            pool.len() - 1
        } else {
            pool.len() as int
        },
{
    lemma_handle_position(pool, value);
    match handle_position(pool, value) {
        Some(p) => {
            let after = swap_removed(pool, p);
            let last = pool.len() - 1;
            assert forall|h: isize| after.contains(h) <==> (pool.contains(h) && h != value) by {
                if after.contains(h) {
                    let k = choose|k: int| 0 <= k < after.len() && after[k] == h;
                    if k == p {
                        assert(pool[last] == h);
                    } else {
                        assert(pool[k] == h);
                    }
                }
                if pool.contains(h) && h != value {
                    let i = choose|i: int| 0 <= i < pool.len() && pool[i] == h;
                    if i == last {
                        assert(after[p] == h);
                    } else {
                        assert(after[i] == h);
                    }
                }
            }
        },
        None => {},
    }
}

/// The cached handles that are still in the pool, in cached order, each taken
/// out of the pool as it is kept.
pub open spec fn kept_from(cached: Seq<isize>, pool: Seq<isize>) -> Seq<isize>
    decreases cached.len(),
{
    if cached.len() == 0 {
        Seq::empty()
    } else if pool.contains(cached[0]) {
        seq![cached[0]] + kept_from(cached.drop_first(), without(pool, cached[0]))
    } else {
        kept_from(cached.drop_first(), pool)
    }
}

/// What is left of the pool after every cached handle was swap-removed from it,
/// in cached order.
pub open spec fn left_over(cached: Seq<isize>, pool: Seq<isize>) -> Seq<isize>
    decreases cached.len(),
{
    if cached.len() == 0 {
        pool
    } else {
        left_over(cached.drop_first(), without(pool, cached[0]))
    }
}

/// A frozen traversal order brought up to date with the handles that exist
/// now: the cached handles that still exist, in cached order, then the
/// handles that are new.
pub open spec fn reconciled_order(cached: Seq<isize>, group: Seq<isize>) -> Seq<isize> {
    kept_from(cached, dedup(group)) + left_over(cached, dedup(group))
}

/// The kept and the left-over handles are together exactly the pool, each once.
pub proof fn lemma_kept_and_left(cached: Seq<isize>, pool: Seq<isize>)
    requires
        pool.no_duplicates(),
    ensures
        (kept_from(cached, pool) + left_over(cached, pool)).no_duplicates(),
        kept_from(cached, pool).len() + left_over(cached, pool).len() == pool.len(),
        forall|h: isize|
            (kept_from(cached, pool) + left_over(cached, pool)).contains(h) <==> pool.contains(h),
        forall|h: isize| kept_from(cached, pool).contains(h) ==> cached.contains(h) && pool.contains(h),
        forall|h: isize| left_over(cached, pool).contains(h) <==> pool.contains(h) && !cached.contains(h),
    decreases cached.len(),
{
    let kept = kept_from(cached, pool);
    let left = left_over(cached, pool);
    if cached.len() == 0 {
        assert(kept + left =~= pool);
    } else {
        let first = cached[0];
        let rest = cached.drop_first();
        let pool2 = without(pool, first);
        lemma_without(pool, first);
        lemma_kept_and_left(rest, pool2);
        let kept2 = kept_from(rest, pool2);
        let left2 = left_over(rest, pool2);
        assert(left == left2);
        assert forall|h: isize| rest.contains(h) implies cached.contains(h) by {
            let i = choose|i: int| 0 <= i < rest.len() && rest[i] == h;
            assert(cached[i + 1] == h);
        }
        assert forall|h: isize| cached.contains(h) && h != first implies rest.contains(h) by {
            let i = choose|i: int| 0 <= i < cached.len() && cached[i] == h;
            assert(rest[i - 1] == h);
        }
        assert(cached.contains(first)) by {
            assert(cached[0] == first);
        }
        if pool.contains(first) {
            assert(kept =~= seq![first] + kept2);
            assert(kept + left =~= seq![first] + (kept2 + left2));
            let joined2 = kept2 + left2;
            let joined = kept + left;
            assert(!joined2.contains(first));
            assert forall|i: int, j: int| 0 <= i < j < joined.len() implies joined[i] != joined[j] by {
                if i == 0 {
                    assert(joined2[j - 1] == joined[j]);
                    assert(joined2.contains(joined[j]));
                } else {
                    assert(joined2[i - 1] == joined[i]);
                    assert(joined2[j - 1] == joined[j]);
                }
            }
            assert forall|h: isize| joined.contains(h) <==> pool.contains(h) by {
                if joined.contains(h) {
                    let k = choose|k: int| 0 <= k < joined.len() && joined[k] == h;
                    if k > 0 {
                        assert(joined2[k - 1] == h);
                        assert(joined2.contains(h));
                    }
                }
                if pool.contains(h) {
                    if h == first {
                        assert(joined[0] == h);
                    } else {
                        assert(joined2.contains(h));
                        let k = choose|k: int| 0 <= k < joined2.len() && joined2[k] == h;
                        assert(joined[k + 1] == h);
                    }
                }
            }
            assert forall|h: isize| kept.contains(h) implies cached.contains(h) && pool.contains(h) by {
                let k = choose|k: int| 0 <= k < kept.len() && kept[k] == h;
                if k > 0 {
                    assert(kept2[k - 1] == h);
                    assert(kept2.contains(h));
                }
            }
        } else {
            lemma_handle_position(pool, first);
            assert(pool2 == pool);
            assert(kept == kept2);
        }
    }
}

/// The reconciled order holds exactly the handles of the group, each once.
pub proof fn lemma_reconciled_order(cached: Seq<isize>, group: Seq<isize>)
    ensures
        reconciled_order(cached, group).no_duplicates(),
        forall|h: isize| reconciled_order(cached, group).contains(h) <==> group.contains(h),
        reconciled_order(cached, group).len() == dedup(group).len(),
        group.len() > 0 ==> reconciled_order(cached, group).len() > 0,
        group.no_duplicates() ==> reconciled_order(cached, group).len() == group.len(),
{
    lemma_dedup(group);
    lemma_kept_and_left(cached, dedup(group));
}

/// Where the cached handles and the pool are the same handles, each once, the
/// cached order is kept as it is and nothing is left over.
pub proof fn lemma_same_handles_keep_order(cached: Seq<isize>, pool: Seq<isize>)
    requires
        cached.no_duplicates(),
        pool.no_duplicates(),
        forall|h: isize| cached.contains(h) <==> pool.contains(h),
    ensures
        kept_from(cached, pool) == cached,
        left_over(cached, pool) == Seq::<isize>::empty(),
    decreases cached.len(),
{
    if cached.len() == 0 {
        if pool.len() > 0 {
            assert(pool.contains(pool[0]));
        }
        assert(pool =~= Seq::<isize>::empty());
    } else {
        let first = cached[0];
        let rest = cached.drop_first();
        let pool2 = without(pool, first);
        assert(cached.contains(first)) by {
            assert(cached[0] == first);
        }
        lemma_without(pool, first);
        assert forall|i: int, j: int| 0 <= i < j < rest.len() implies rest[i] != rest[j] by {
            assert(rest[i] == cached[i + 1] && rest[j] == cached[j + 1]);
        }
        assert forall|h: isize| rest.contains(h) <==> pool2.contains(h) by {
            if rest.contains(h) {
                let i = choose|i: int| 0 <= i < rest.len() && rest[i] == h;
                assert(cached[i + 1] == h);
                assert(cached.contains(h));
            }
            if pool2.contains(h) {
                assert(cached.contains(h));
                let i = choose|i: int| 0 <= i < cached.len() && cached[i] == h;
                assert(rest[i - 1] == h);
            }
        }
        lemma_same_handles_keep_order(rest, pool2);
        assert(seq![first] + rest =~= cached);
    }
}

/// A group that holds the cached handles, each once and in any order, leaves
/// the cached traversal order as it is.
pub proof fn lemma_reconciled_same_handles(cached: Seq<isize>, group: Seq<isize>)
    requires
        cached.no_duplicates(),
        group.no_duplicates(),
        forall|h: isize| cached.contains(h) <==> group.contains(h),
    ensures
        reconciled_order(cached, group) == cached,
{
    lemma_dedup(group);
    lemma_same_handles_keep_order(cached, group);
    assert(cached + Seq::<isize>::empty() =~= cached);
}

/// Brings a frozen traversal order up to date with the handles of `group`.
pub fn reconcile_order(cached: &Vec<isize>, group: &Vec<isize>) -> (r: Vec<isize>)
    ensures
        r@ == reconciled_order(cached@, group@),
{
    let mut pool = set_new();
    let mut g: usize = 0;
    while g < group.len()
        invariant
            0 <= g <= group.len(),
            set_items(pool) == dedup(group@.take(g as int)),
        decreases group.len() - g,
    {
        proof {
            assert(group@.take(g + 1).drop_last() =~= group@.take(g as int));
        }
        let _ = set_insert(&mut pool, group[g]);
        g += 1;
    }
    proof {
        assert(group@.take(group.len() as int) =~= group@);
    }
    let mut r: Vec<isize> = Vec::new();
    let mut i: usize = 0;
    proof {
        assert(cached@.skip(0) =~= cached@);
        assert(r@ + kept_from(cached@, dedup(group@)) =~= kept_from(cached@, dedup(group@)));
    }
    while i < cached.len()
        invariant
            0 <= i <= cached.len(),
            r@ + kept_from(cached@.skip(i as int), set_items(pool)) == kept_from(
                cached@,
                dedup(group@),
            ),
            left_over(cached@.skip(i as int), set_items(pool)) == left_over(cached@, dedup(group@)),
        decreases cached.len() - i,
    {
        let id = cached[i];
        proof {
            assert(cached@.skip(i as int)[0] == id);
            assert(cached@.skip(i as int).drop_first() =~= cached@.skip(i + 1));
            lemma_handle_position(set_items(pool), id);
        }
        let ghost before = r@;
        let ghost pool_before = set_items(pool);
        if set_contains(&pool, id) {
            r.push(id);
            let _ = set_swap_remove(&mut pool, id);
            proof {
                assert(r@ + kept_from(cached@.skip(i + 1), set_items(pool)) =~= before + (seq![id]
                    + kept_from(cached@.skip(i + 1), without(pool_before, id))));
            }
        }
        i += 1;
    }
    proof {
        assert(r@ + Seq::<isize>::empty() =~= r@);
    }
    let ghost kept = r@;
    let n = set_len(&pool);
    let mut j: usize = 0;
    while j < n
        invariant
            0 <= j <= n,
            n == set_items(pool).len(),
            r@ == kept + set_items(pool).take(j as int),
        decreases n - j,
    {
        match set_get_index(&pool, j) {
            Some(item) => {
                r.push(item);
                proof {
                    assert(set_items(pool).take(j + 1) =~= set_items(pool).take(j as int).push(item));
                    assert(r@ =~= kept + set_items(pool).take(j + 1));
                }
            },
            None => {},
        }
        j += 1;
    }
    proof {
        assert(set_items(pool).take(n as int) =~= set_items(pool));
    }
    r
}

} // verus!
