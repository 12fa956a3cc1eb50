use vstd::prelude::*;
use crate::item::{tier_sorted, TodoItem};
use crate::reorder::{set_key, with_key};
use crate::state::State;
use crate::ids::{ids_unique, lemma_same_ids, same_ids};

verus! {

/// Records written before order keys existed carry key 0: each such record
/// past the first gets its position as key.
pub open spec fn migrated(s: Seq<TodoItem>) -> Seq<TodoItem> {
    Seq::new(
        s.len(),
        |i: int|
            if s[i].display_order == 0 && i > 0 {
                with_key(s[i], i as usize)
            } else {
                s[i]
            },
    )
}

/// The largest id in `s`, 0 when empty.
pub open spec fn max_id(s: Seq<TodoItem>) -> nat
    decreases s.len(),
{
    if s.len() == 0 {
        0
    } else if s.last().id > max_id(s.drop_last()) {
        s.last().id as nat
    } else {
        max_id(s.drop_last())
    }
}

/// The largest order key in `s`, 0 when empty.
pub open spec fn max_order(s: Seq<TodoItem>) -> nat
    decreases s.len(),
{
    if s.len() == 0 {
        0
    } else if s.last().display_order > max_order(s.drop_last()) {
        s.last().display_order as nat
    } else {
        max_order(s.drop_last())
    }
}

/// The next free value after `x`, held at the largest `usize`.
pub open spec fn successor(x: nat) -> usize {
    if x >= usize::MAX {
        usize::MAX
    } else {
        (x + 1) as usize
    }
}

/// Applies the order-key migration in place.
fn migrate(items: &mut Vec<TodoItem>)
    ensures
        final(items)@ == migrated(old(items)@),
{
    let ghost orig = items@;
    let mut i: usize = 0;
    while i < items.len()
        invariant
            i <= items@.len(),
            items@.len() == orig.len(),
            forall|k: int| 0 <= k < i ==> #[trigger] items@[k] == migrated(orig)[k],
            forall|k: int| i <= k < items@.len() ==> #[trigger] items@[k] == orig[k],
        decreases items.len() - i,
    {
        if items[i].display_order == 0 && i > 0 {
            set_key(items, i, i);
        }
        i = i + 1;
    }
    assert(items@ =~= migrated(orig));
}

/// The largest id present, 0 when empty.
fn largest_id(items: &Vec<TodoItem>) -> (r: usize)
    ensures
        r == max_id(items@),
{
    let mut m: usize = 0;
    let mut i: usize = 0;
    while i < items.len()
        invariant
            i <= items@.len(),
            m == max_id(items@.subrange(0, i as int)),
        decreases items.len() - i,
    {
        proof {
            let p = items@.subrange(0, i + 1);
            assert(p.drop_last() =~= items@.subrange(0, i as int));
        }
        if items[i].id > m {
            m = items[i].id;
        }
        i = i + 1;
    }
    assert(items@.subrange(0, i as int) =~= items@);
    m
}

/// The largest order key present, 0 when empty.
fn largest_order(items: &Vec<TodoItem>) -> (r: usize)
    ensures
        r == max_order(items@),
{
    let mut m: usize = 0;
    let mut i: usize = 0;
    while i < items.len()
        invariant
            i <= items@.len(),
            m == max_order(items@.subrange(0, i as int)),
        decreases items.len() - i,
    {
        proof {
            let p = items@.subrange(0, i + 1);
            assert(p.drop_last() =~= items@.subrange(0, i as int));
        }
        if items[i].display_order > m {
            m = items[i].display_order;
        }
        i = i + 1;
    }
    assert(items@.subrange(0, i as int) =~= items@);
    m
}

/// The value after `x`, held at the largest `usize`.
fn next_after(x: usize) -> (r: usize)
    ensures
        r == successor(x as nat),
{
    if x == usize::MAX {
        x
    } else {
        x + 1
    }
}

impl State {
    /// Takes over a stored collection: migrates old order keys, sets the id and
    /// key counters past the largest values present, and sorts; the cursor
    /// is on the first row.
    pub fn load_todos(&mut self, loaded: Vec<TodoItem>)
        requires
            old(self).wf(),
        ensures
            final(self).wf(),
            final(self).items@ == tier_sorted(migrated(loaded@)),
            final(self).next_id == successor(max_id(loaded@)),
            final(self).next_display_order == successor(max_order(migrated(loaded@))),
            final(self).selected_index == 0,
            final(self).mode == old(self).mode,
            final(self).edit_buffer == old(self).edit_buffer,
            final(self).grabbed_item_id == old(self).grabbed_item_id,
            final(self).save_requested == old(self).save_requested,
            ids_unique(loaded@) && max_id(loaded@) < usize::MAX && old(self).grabbed_item_id is None
                ==> final(self).ids_ok(),
    {
        let mut items = loaded;
        migrate(&mut items);
        let top_id = largest_id(&items);
        let top_order = largest_order(&items);
        proof {
            assert(max_id(migrated(loaded@)) == max_id(loaded@)) by {
                lemma_max_id_migrated(loaded@);
            }
            lemma_max_id_bound(loaded@);
            assert(same_ids(loaded@, items@));
            lemma_same_ids(loaded@, items@, successor(max_id(loaded@)), 0);
        }
        self.items = items;
        self.selected_index = 0;
        self.next_id = next_after(top_id);
        self.next_display_order = next_after(top_order);
        self.sort_items();
    }
}

/// Migration changes order keys only, so the largest id stays.
proof fn lemma_max_id_migrated(s: Seq<TodoItem>)
    ensures
        max_id(migrated(s)) == max_id(s),
    decreases s.len(),
{
    if s.len() > 0 {
        let d = s.drop_last();
        lemma_max_id_migrated(d);
        assert(migrated(s).drop_last() =~= migrated(d));
    }
}

/// No id exceeds the largest id.
proof fn lemma_max_id_bound(s: Seq<TodoItem>)
    ensures
        forall|i: int| 0 <= i < s.len() ==> (#[trigger] s[i]).id <= max_id(s),
    decreases s.len(),
{
    if s.len() > 0 {
        lemma_max_id_bound(s.drop_last());
        assert forall|i: int| 0 <= i < s.len() implies (#[trigger] s[i]).id <= max_id(s) by {
            if i < s.len() - 1 {
                assert(s.drop_last()[i] == s[i]);
            }
        }
    }
}

} // verus!