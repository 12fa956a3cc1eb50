use vstd::prelude::*;
use crate::item::{lemma_sort_partitions, logical_order, logical_positions, positions, sort_by_tier, tier_sorted, TodoItem};
use crate::order::lemma_stable_sort_contents;

verus! {

/// The first position of `s` whose element satisfies `p`, if any.
pub open spec fn first_match<T>(s: Seq<T>, p: spec_fn(T) -> bool) -> Option<int> {
    if exists|i: int| is_first_match(s, p, i) {
        Some(choose|i: int| is_first_match(s, p, i))
    } else {
        None
    }
}

/// `i` is the first position of `s` whose element satisfies `p`.
pub open spec fn is_first_match<T>(s: Seq<T>, p: spec_fn(T) -> bool, i: int) -> bool {
    0 <= i < s.len() && p(s[i]) && forall|k: int| 0 <= k < i ==> !p(#[trigger] s[k])
}

/// Items with id `id`.
pub open spec fn has_id(id: usize) -> spec_fn(TodoItem) -> bool {
    |t: TodoItem| t.id == id
}

/// The position `v` itself.
pub open spec fn is_pos(v: usize) -> spec_fn(usize) -> bool {
    |x: usize| x == v
}

/// `t` with order key `key`.
pub open spec fn with_key(t: TodoItem, key: usize) -> TodoItem {
    TodoItem { display_order: key, ..t }
}

/// The items at positions `a` and `b` trade their order keys.
pub open spec fn swap_keys(items: Seq<TodoItem>, a: int, b: int) -> Seq<TodoItem> {
    let ka = items[a].display_order;
    let kb = items[b].display_order;
    items.update(a, with_key(items[a], kb)).update(b, with_key(items[b], ka))
}

/// The grabbed item at position `g`, standing at `c` of the logical ordering `l`,
/// trades keys with its logical successors until it has passed one of tier `tier`
/// or has reached the end.
pub open spec fn walk_down(items: Seq<TodoItem>, l: Seq<usize>, c: int, g: int, tier: bool) -> Seq<
    TodoItem,
>
    decreases l.len() - c,
{
    if c < 0 || c + 1 >= l.len() {
        items
    } else {
        let j = l[c + 1] as int;
        let next = swap_keys(items, g, j);
        if items[j].done == tier {
            next
        } else {
            walk_down(next, l, c + 1, g, tier)
        }
    }
}

/// As `walk_down`, towards the start of the logical ordering.
pub open spec fn walk_up(items: Seq<TodoItem>, l: Seq<usize>, c: int, g: int, tier: bool) -> Seq<
    TodoItem,
>
    decreases c,
{
    if c <= 0 || c >= l.len() {
        items
    } else {
        let j = l[c - 1] as int;
        let next = swap_keys(items, g, j);
        if items[j].done == tier {
            next
        } else {
            walk_up(next, l, c - 1, g, tier)
        }
    }
}

/// The collection after the item with id `id` has moved one visual step,
/// down or up, and the collection has been sorted again.
pub open spec fn moved(items: Seq<TodoItem>, id: usize, down: bool) -> Seq<TodoItem> {
    match first_match(items, has_id(id)) {
        None => items,
        Some(g) => {
            let l = logical_order(items);
            match first_match(l, is_pos(g as usize)) {
                None => items,
                Some(c) => tier_sorted(
                    if down {
                        walk_down(items, l, c, g, items[g].done)
                    } else {
                        walk_up(items, l, c, g, items[g].done)
                    },
                ),
            }
        }
    }
}

/// Where some element satisfies `p`, there is a first one.
pub proof fn lemma_first_match_exists<T>(s: Seq<T>, p: spec_fn(T) -> bool, i: int)
    requires
        0 <= i < s.len(),
        p(s[i]),
    ensures
        exists|j: int| is_first_match(s, p, j),
    decreases i,
{
    if exists|k: int| 0 <= k < i && p(#[trigger] s[k]) {
        let k = choose|k: int| 0 <= k < i && p(#[trigger] s[k]);
        lemma_first_match_exists(s, p, k);
    } else {
        assert(is_first_match(s, p, i));
    }
}

/// The position of the first item with id `id`.
pub fn find_id(items: &Vec<TodoItem>, id: usize) -> (r: Option<usize>)
    ensures
        r matches Some(i) ==> i < items@.len(),
        match first_match(items@, has_id(id)) {
            None => r is None,
            Some(i) => r == Some(i as usize),
        },
{
    let mut i: usize = 0;
    while i < items.len()
        invariant
            i <= items@.len(),
            forall|k: int| 0 <= k < i ==> !has_id(id)(#[trigger] items@[k]),
        decreases items.len() - i,
    {
        if items[i].id == id {
            proof {
                assert(is_first_match(items@, has_id(id), i as int));
                assert forall|j: int| is_first_match(items@, has_id(id), j) implies j == i by {
                    if j < i {
                        assert(!has_id(id)(items@[j]));
                    } else if j > i {
                        assert(!has_id(id)(items@[i as int]));
                    }
                }
            }
            return Some(i);
        }
        i = i + 1;
    }
    None
}

/// The first place of `v` in `l`.
fn find_pos(l: &Vec<usize>, v: usize) -> (r: Option<usize>)
    ensures
        r matches Some(i) ==> i < l@.len(),
        match first_match(l@, is_pos(v)) {
            None => r is None,
            Some(i) => r == Some(i as usize),
        },
{
    let mut i: usize = 0;
    while i < l.len()
        invariant
            i <= l@.len(),
            forall|k: int| 0 <= k < i ==> !is_pos(v)(#[trigger] l@[k]),
        decreases l.len() - i,
    {
        if l[i] == v {
            proof {
                assert(is_first_match(l@, is_pos(v), i as int));
                assert forall|j: int| is_first_match(l@, is_pos(v), j) implies j == i by {
                    if j < i {
                        assert(!is_pos(v)(l@[j]));
                    } else if j > i {
                        assert(!is_pos(v)(l@[i as int]));
                    }
                }
            }
            return Some(i);
        }
        i = i + 1;
    }
    None
}

/// Gives the item at `i` the order key `key`.
pub(crate) fn set_key(items: &mut Vec<TodoItem>, i: usize, key: usize)
    requires
        i < old(items).len(),
    ensures
        final(items)@ == old(items)@.update(i as int, with_key(old(items)@[i as int], key)),
{
    let mut t = items.remove(i);
    t.display_order = key;
    items.insert(i, t);
    proof {
        assert(final(items)@ =~= old(items)@.update(i as int, with_key(old(items)@[i as int], key)));
    }
}

/// The items at `a` and `b` trade their order keys.
fn swap_keys_at(items: &mut Vec<TodoItem>, a: usize, b: usize)
    requires
        a < old(items).len(),
        b < old(items).len(),
    ensures
        final(items)@ == swap_keys(old(items)@, a as int, b as int),
{
    let ka = items[a].display_order;
    let kb = items[b].display_order;
    set_key(items, a, kb);
    set_key(items, b, ka);
}

/// Moves the item with id `id` one visual step down (or up): it trades order
/// keys with its logical neighbours, across any run of the other tier, until it
/// has passed one item of its own tier or reached the end; then the collection
/// is sorted again. Without such an item nothing changes.
/// The walk follows the logical ordering taken once at the start, so it
/// ends even where order keys tie.
pub fn move_adjacent(items: &mut Vec<TodoItem>, id: usize, down: bool)
    ensures
        final(items)@ == moved(old(items)@, id, down),
        final(items)@.len() == old(items)@.len(),
{
    let ghost orig = items@;
    let ghost n = orig.len();
    let found = find_id(items, id);
    if let Some(g) = found {
        let l = logical_positions(items);
        proof {
            lemma_stable_sort_contents(positions(n), crate::item::key_rel(orig));
            assert forall|k: int| 0 <= k < l@.len() implies (#[trigger] l@[k]) < n by {
                assert(l@.contains(l@[k]));
                assert(positions(n).contains(l@[k]));
            }
        }
        let at = find_pos(&l, g);
        if let Some(c0) = at {
            let tier = items[g].done;
            let ghost target = if down {
                walk_down(orig, l@, c0 as int, g as int, tier)
            } else {
                walk_up(orig, l@, c0 as int, g as int, tier)
            };
            let mut c: usize = c0;
            let mut going = true;
            while going
                invariant
                    items@.len() == n,
                    l@.len() == n,
                    g < n,
                    c < n,
                    forall|k: int| 0 <= k < l@.len() ==> (#[trigger] l@[k]) < n,
                    forall|k: int| 0 <= k < n ==> (#[trigger] items@[k]).done == orig[k].done,
                    going && down ==> walk_down(items@, l@, c as int, g as int, tier) == target,
                    going && !down ==> walk_up(items@, l@, c as int, g as int, tier) == target,
                    !going ==> items@ == target,
                decreases 2 * (if down { n - c } else { c as int }) + (if going { 1int } else { 0int }),
            {
                if down {
                    if c >= l.len() - 1 {
                        going = false;
                    } else {
                        let j = l[c + 1];
                        let same = items[j].done == tier;
                        swap_keys_at(items, g, j);
                        if same {
                            going = false;
                        } else {
                            c = c + 1;
                        }
                    }
                } else {
                    if c == 0 {
                        going = false;
                    } else {
                        let j = l[c - 1];
                        let same = items[j].done == tier;
                        swap_keys_at(items, g, j);
                        if same {
                            going = false;
                        } else {
                            c = c - 1;
                        }
                    }
                }
            }
            proof {
                lemma_sort_partitions(items@);
            }
            sort_by_tier(items);
        }
    }
}

} // verus!
