use vstd::prelude::*;
use crate::item::{
    key_rel, lemma_sort_partitions, logical_order, positions, tier_rel, tier_sorted, TodoItem,
};
use crate::order::{lemma_stable_sort_of_sorted, sorted_by, lemma_stable_sort_contents};
use crate::reorder::{first_match, has_id, is_first_match, moved, swap_keys, walk_down, walk_up};
use crate::edit::{inserted_at, text_committed};
use crate::load::migrated;
use crate::ids::{has_item_id, ids_below, ids_unique, lemma_same_ids, lemma_sort_keeps_ids, same_ids};

verus! {

/// `a` and `b` hold the same items in the same places, up to order keys.
pub open spec fn same_but_keys(a: Seq<TodoItem>, b: Seq<TodoItem>) -> bool {
    &&& a.len() == b.len()
    &&& forall|i: int|
        0 <= i < a.len() ==> (#[trigger] a[i]).id == b[i].id && a[i].text == b[i].text
            && a[i].done == b[i].done
}

/// Trading order keys changes nothing else.
proof fn lemma_swap_keys_same(items: Seq<TodoItem>, a: int, b: int)
    requires
        0 <= a < items.len(),
        0 <= b < items.len(),
    ensures
        same_but_keys(items, swap_keys(items, a, b)),
{
}

/// The downward walk changes order keys only.
proof fn lemma_walk_down_same(items: Seq<TodoItem>, l: Seq<usize>, c: int, g: int, tier: bool)
    requires
        0 <= g < items.len(),
        forall|k: int| 0 <= k < l.len() ==> (#[trigger] l[k]) < items.len(),
    ensures
        same_but_keys(items, walk_down(items, l, c, g, tier)),
    decreases l.len() - c,
{
    if !(c < 0 || c + 1 >= l.len()) {
        let j = l[c + 1] as int;
        let next = swap_keys(items, g, j);
        lemma_swap_keys_same(items, g, j);
        if items[j].done != tier {
            lemma_walk_down_same(next, l, c + 1, g, tier);
        }
    }
}

/// The upward walk changes order keys only.
proof fn lemma_walk_up_same(items: Seq<TodoItem>, l: Seq<usize>, c: int, g: int, tier: bool)
    requires
        0 <= g < items.len(),
        forall|k: int| 0 <= k < l.len() ==> (#[trigger] l[k]) < items.len(),
    ensures
        same_but_keys(items, walk_up(items, l, c, g, tier)),
    decreases c,
{
    if !(c <= 0 || c >= l.len()) {
        let j = l[c - 1] as int;
        let next = swap_keys(items, g, j);
        lemma_swap_keys_same(items, g, j);
        if items[j].done != tier {
            lemma_walk_up_same(next, l, c - 1, g, tier);
        }
    }
}

/// A grab follows its item by id: after the grabbed item moves and the
/// collection is sorted again, an item with the grabbed id is still present.
pub proof fn lemma_move_keeps_grabbed(items: Seq<TodoItem>, id: usize, down: bool)
    requires
        exists|i: int| 0 <= i < items.len() && (#[trigger] items[i]).id == id,
    ensures
        exists|j: int|
            0 <= j < moved(items, id, down).len() && (#[trigger] moved(items, id, down)[j]).id
                == id,
{
    let i0 = choose|i: int| 0 <= i < items.len() && (#[trigger] items[i]).id == id;
    match first_match(items, has_id(id)) {
        None => {
            assert(moved(items, id, down) == items);
            assert(moved(items, id, down)[i0].id == id);
        },
        Some(g) => {
            assert(is_first_match(items, has_id(id), g));
            let l = logical_order(items);
            match first_match(l, crate::reorder::is_pos(g as usize)) {
                None => {
                    assert(moved(items, id, down)[i0].id == id);
                },
                Some(c) => {
                    lemma_stable_sort_contents(positions(items.len()), key_rel(items));
                    assert forall|k: int| 0 <= k < l.len() implies (#[trigger] l[k]) < items.len() by {
                        assert(l.contains(l[k]));
                        assert(positions(items.len()).contains(l[k]));
                    }
                    let w = if down {
                        walk_down(items, l, c, g, items[g].done)
                    } else {
                        walk_up(items, l, c, g, items[g].done)
                    };
                    if down {
                        lemma_walk_down_same(items, l, c, g, items[g].done);
                    } else {
                        lemma_walk_up_same(items, l, c, g, items[g].done);
                    }
                    assert(w[g].id == id);
                    lemma_sort_partitions(w);
                    assert(w.contains(w[g]));
                    assert(tier_sorted(w).contains(w[g]));
                    let j = choose|j: int| 0 <= j < tier_sorted(w).len() && tier_sorted(w)[j] == w[g];
                    assert(moved(items, id, down) == tier_sorted(w));
                    assert(moved(items, id, down)[j].id == id);
                },
            }
        },
    }
}

/// A move keeps the id facts of the collection and the grabbed item present.
pub proof fn lemma_moved_keeps_ids(items: Seq<TodoItem>, id: usize, down: bool, n: usize)
    ensures
        ids_below(items, n) ==> ids_below(moved(items, id, down), n),
        ids_unique(items) ==> ids_unique(moved(items, id, down)),
        has_item_id(items, id) ==> has_item_id(moved(items, id, down), id),
{
    match first_match(items, has_id(id)) {
        None => {},
        Some(g) => {
            assert(is_first_match(items, has_id(id), g));
            let l = logical_order(items);
            match first_match(l, crate::reorder::is_pos(g as usize)) {
                None => {},
                Some(c) => {
                    lemma_stable_sort_contents(positions(items.len()), key_rel(items));
                    assert forall|k: int| 0 <= k < l.len() implies (#[trigger] l[k]) < items.len() by {
                        assert(l.contains(l[k]));
                        assert(positions(items.len()).contains(l[k]));
                    }
                    let w = if down {
                        walk_down(items, l, c, g, items[g].done)
                    } else {
                        walk_up(items, l, c, g, items[g].done)
                    };
                    if down {
                        lemma_walk_down_same(items, l, c, g, items[g].done);
                    } else {
                        lemma_walk_up_same(items, l, c, g, items[g].done);
                    }
                    assert(same_ids(items, w));
                    lemma_same_ids(items, w, n, id);
                    lemma_sort_keeps_ids(w, n, id);
                },
            }
        },
    }
}

/// Saving and loading again gives back the same sequence: a collection in
/// display order whose items past the first all have a non-zero order key
/// comes out of migration and the sort after loading unchanged.
pub proof fn lemma_reload(s: Seq<TodoItem>)
    requires
        sorted_by(s, tier_rel()),
        forall|i: int| 0 < i < s.len() ==> (#[trigger] s[i]).display_order != 0,
    ensures
        tier_sorted(migrated(s)) == s,
{
    assert(migrated(s) =~= s);
    lemma_stable_sort_of_sorted(s, tier_rel());
}

/// Adding an item and committing an empty text removes it again: the
/// collection is what it was before the add.
pub proof fn lemma_empty_commit_restores(
    before: Seq<TodoItem>,
    added: Seq<TodoItem>,
    after: Seq<TodoItem>,
    pos: usize,
    text: Seq<char>,
)
    requires
        pos <= before.len(),
        inserted_at(before, added, pos as int),
        text_committed(added, after, pos, text),
        text.len() == 0,
    ensures
        after == before,
{
    assert(after =~= before);
}

} // verus!
