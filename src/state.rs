use vstd::prelude::*;
use crate::item::{lemma_sort_partitions, sort_by_tier, tier_sorted, TodoItem};
use crate::ids::{has_item_id, ids_below, ids_unique, lemma_remove_keeps_ids, lemma_same_ids, lemma_sort_keeps_ids, same_ids};
use crate::reorder::{find_id, first_match, has_id, move_adjacent, moved};

verus! {

/// Whether keys move the cursor or type into the edit buffer.
#[derive(Debug, Clone, Copy, PartialEq, Eq, Structural)]
pub enum Mode {
    Normal,
    Edit,
}

impl Default for Mode {
    fn default() -> (r: Self)
        ensures
            r == Mode::Normal,
    {
        Mode::Normal
    }
}

/// The whole session: the items, the cursor, the grab and the edit buffer.
#[derive(Debug)]
pub struct State {
    /// The collection, in display order after every sort.
    pub items: Vec<TodoItem>,
    /// The cursor: a position in `items`.
    pub selected_index: usize,
    /// The id the next new item gets.
    pub next_id: usize,
    /// The order key the next new item gets.
    pub next_display_order: usize,
    pub mode: Mode,
    /// The text typed since the edit began.
    pub edit_buffer: String,
    /// The item that up and down move instead of the cursor.
    pub grabbed_item_id: Option<usize>,
    /// Set at each point where the collection should be written out.
    pub save_requested: bool,
}

/// `t` with its completion flag flipped.
pub open spec fn flipped(t: TodoItem) -> TodoItem {
    TodoItem { done: !t.done, ..t }
}

/// The cursor after a removal at `sel` from a collection now `len` long.
pub open spec fn clamped(sel: usize, len: nat) -> usize {
    if sel >= len && len > 0 {
        (len - 1) as usize
    } else {
        sel
    }
}

impl State {
    /// The cursor points at an item whenever there is one.
    pub open spec fn wf(&self) -> bool {
        self.items@.len() == 0 || self.selected_index < self.items@.len()
    }

    /// The grab after a grab toggle: the item under the cursor (id 0 without
    /// one) is grabbed, or the grab is released when that is the grabbed item.
    pub open spec fn grab_toggled(&self) -> Option<usize> {
        let cur = match self.current_id() {
            Some(id) => id,
            None => 0,
        };
        match self.grabbed_item_id {
            None => Some(cur),
            Some(g) => if g == cur {
                None
            } else {
                Some(g)
            },
        }
    }

    /// Ids are unique and below `next_id`, and a grab names an item that is present.
    pub open spec fn ids_ok(&self) -> bool {
        &&& ids_below(self.items@, self.next_id)
        &&& ids_unique(self.items@)
        &&& match self.grabbed_item_id {
            Some(g) => has_item_id(self.items@, g),
            None => true,
        }
    }

    /// The grabbed id, or 0 without a grab.
    pub open spec fn grab_or_zero(&self) -> usize {
        match self.grabbed_item_id {
            Some(g) => g,
            None => 0,
        }
    }

    /// The grab once the item under the cursor is removed: released when it
    /// named that item.
    pub open spec fn grab_after_removal(&self) -> Option<usize> {
        if self.grabbed_item_id is Some && self.grabbed_item_id == self.current_id() {
            None
        } else {
            self.grabbed_item_id
        }
    }

    /// The id of the item under the cursor, if there is one.
    pub open spec fn current_id(&self) -> Option<usize> {
        if self.selected_index < self.items@.len() {
            Some(self.items@[self.selected_index as int].id)
        } else {
            None
        }
    }

    /// Where the cursor goes when the item it was on is looked up again in `items`.
    pub open spec fn followed(items: Seq<TodoItem>, cur: Option<usize>, sel: usize) -> usize {
        match cur {
            None => sel,
            Some(id) => match first_match(items, has_id(id)) {
                Some(p) => p as usize,
                None => sel,
            },
        }
    }

    /// An empty session in normal mode.
    pub fn new() -> (r: State)
        ensures
            r.wf(),
            r.items@.len() == 0,
            r.selected_index == 0,
            r.next_id == 0,
            r.next_display_order == 0,
            r.mode == Mode::Normal,
            r.edit_buffer@.len() == 0,
            r.grabbed_item_id is None,
            !r.save_requested,
    {
        State {
            items: Vec::new(),
            selected_index: 0,
            next_id: 0,
            next_display_order: 0,
            mode: Mode::Normal,
            edit_buffer: String::new(),
            grabbed_item_id: None,
            save_requested: false,
        }
    }

    /// The id of the item under the cursor, if there is one.
    fn current(&self) -> (r: Option<usize>)
        ensures
            r == self.current_id(),
    {
        if self.selected_index < self.items.len() {
            Some(self.items[self.selected_index].id)
        } else {
            None
        }
    }

    /// Puts the cursor on the first item with id `cur`, if there is one.
    fn follow(&mut self, cur: Option<usize>)
        requires
            old(self).wf(),
        ensures
            final(self).wf(),
            final(self).selected_index == State::followed(
                old(self).items@,
                cur,
                old(self).selected_index,
            ),
            final(self).items == old(self).items,
            final(self).next_id == old(self).next_id,
            final(self).next_display_order == old(self).next_display_order,
            final(self).mode == old(self).mode,
            final(self).edit_buffer == old(self).edit_buffer,
            final(self).grabbed_item_id == old(self).grabbed_item_id,
            final(self).save_requested == old(self).save_requested,
    {
        if let Some(id) = cur {
            if let Some(p) = find_id(&self.items, id) {
                self.selected_index = p;
            }
        }
    }

    /// The id of the item under the cursor, or 0 when there is none.
    pub fn get_current_item_id(&self) -> (r: usize)
        ensures
            r == match self.current_id() {
                Some(id) => id,
                None => 0,
            },
    {
        if self.selected_index < self.items.len() {
            self.items[self.selected_index].id
        } else {
            0
        }
    }

    /// Puts the items into display order; the cursor stays where it is.
    pub fn sort_items(&mut self)
        requires
            old(self).wf(),
        ensures
            final(self).wf(),
            final(self).items@ == tier_sorted(old(self).items@),
            final(self).selected_index == old(self).selected_index,
            final(self).next_id == old(self).next_id,
            final(self).next_display_order == old(self).next_display_order,
            final(self).mode == old(self).mode,
            final(self).edit_buffer == old(self).edit_buffer,
            final(self).grabbed_item_id == old(self).grabbed_item_id,
            final(self).save_requested == old(self).save_requested,
            old(self).ids_ok() ==> final(self).ids_ok(),
    {
        proof {
            lemma_sort_partitions(self.items@);
            lemma_sort_keeps_ids(self.items@, self.next_id, self.grab_or_zero());
        }
        sort_by_tier(&mut self.items);
    }

    /// Flips the completion of the item under the cursor and sorts again; the
    /// cursor keeps its slot instead of following the item.
    pub fn toggle_current_item(&mut self)
        requires
            old(self).wf(),
        ensures
            final(self).wf(),
            old(self).selected_index < old(self).items@.len() ==> {
                &&& final(self).items@ == tier_sorted(
                    old(self).items@.update(
                        old(self).selected_index as int,
                        flipped(old(self).items@[old(self).selected_index as int]),
                    ),
                )
                &&& final(self).selected_index == old(self).selected_index
                &&& final(self).save_requested
            },
            old(self).selected_index >= old(self).items@.len() ==> {
                &&& final(self).items == old(self).items
                &&& final(self).selected_index == old(self).selected_index
                &&& final(self).save_requested == old(self).save_requested
            },
            final(self).next_id == old(self).next_id,
            final(self).next_display_order == old(self).next_display_order,
            final(self).mode == old(self).mode,
            final(self).edit_buffer == old(self).edit_buffer,
            final(self).grabbed_item_id == old(self).grabbed_item_id,
            old(self).ids_ok() ==> final(self).ids_ok(),
    {
        let sel = self.selected_index;
        if sel < self.items.len() {
            let mut t = self.items.remove(sel);
            t.done = !t.done;
            self.items.insert(sel, t);
            proof {
                assert(self.items@ =~= old(self).items@.update(
                    sel as int,
                    flipped(old(self).items@[sel as int]),
                ));
                assert(same_ids(old(self).items@, self.items@));
                lemma_same_ids(old(self).items@, self.items@, self.next_id, self.grab_or_zero());
            }
            self.sort_items();
            proof {
                lemma_sort_partitions(
                    old(self).items@.update(sel as int, flipped(old(self).items@[sel as int])),
                );
            }
            self.save_requested = true;
        }
    }

    /// Grabs the item under the cursor, or releases the grab when the grabbed
    /// item is the one under the cursor.
    pub fn toggle_grab(&mut self)
        ensures
            final(self).grabbed_item_id == old(self).grab_toggled(),
            final(self).items == old(self).items,
            final(self).selected_index == old(self).selected_index,
            final(self).next_id == old(self).next_id,
            final(self).next_display_order == old(self).next_display_order,
            final(self).mode == old(self).mode,
            final(self).edit_buffer == old(self).edit_buffer,
            final(self).save_requested == old(self).save_requested,
            old(self).ids_ok() && old(self).selected_index < old(self).items@.len()
                ==> final(self).ids_ok(),
    {
        let cur = self.get_current_item_id();
        match self.grabbed_item_id {
            Some(g) => {
                if g == cur {
                    self.grabbed_item_id = None;
                }
            },
            None => {
                self.grabbed_item_id = Some(cur);
            },
        }
    }

    /// Moves the grabbed item one visual step; the cursor follows the item it was on.
    fn move_grabbed(&mut self, down: bool)
        requires
            old(self).wf(),
        ensures
            final(self).wf(),
            match old(self).grabbed_item_id {
                None => {
                    &&& final(self).items == old(self).items
                    &&& final(self).selected_index == old(self).selected_index
                    &&& final(self).save_requested == old(self).save_requested
                },
                Some(g) => {
                    &&& final(self).items@ == moved(old(self).items@, g, down)
                    &&& final(self).selected_index == State::followed(
                        moved(old(self).items@, g, down),
                        old(self).current_id(),
                        old(self).selected_index,
                    )
                    &&& final(self).save_requested
                },
            },
            final(self).next_id == old(self).next_id,
            final(self).next_display_order == old(self).next_display_order,
            final(self).mode == old(self).mode,
            final(self).edit_buffer == old(self).edit_buffer,
            final(self).grabbed_item_id == old(self).grabbed_item_id,
            old(self).ids_ok() ==> final(self).ids_ok(),
            old(self).ids_ok() && old(self).grabbed_item_id is Some && old(self).grabbed_item_id
                == old(self).current_id() ==> final(self).current_id() == final(self).grabbed_item_id,
    {
        if let Some(g) = self.grabbed_item_id {
            let cur = self.current();
            proof {
                crate::laws::lemma_moved_keeps_ids(self.items@, g, down, self.next_id);
            }
            move_adjacent(&mut self.items, g, down);
            self.follow(cur);
            proof {
                if old(self).ids_ok() && cur == Some(g) {
                    let m = self.items@;
                    assert(has_item_id(old(self).items@, g));
                    assert(m == moved(old(self).items@, g, down));
                    assert(has_item_id(m, g));
                    let i = choose|i: int| 0 <= i < m.len() && (#[trigger] m[i]).id == g;
                    assert(has_id(g)(m[i]));
                    crate::reorder::lemma_first_match_exists(m, has_id(g), i);
                    let p = choose|j: int| crate::reorder::is_first_match(m, has_id(g), j);
                    assert(crate::reorder::is_first_match(m, has_id(g), p));
                    assert(first_match(m, has_id(g)) == Some(p));
                    assert(m.len() == self.items.len());
                    assert(self.selected_index == p);
                }
            }
            self.save_requested = true;
        }
    }

    /// Moves the grabbed item one visual step up; the cursor follows the item it was on.
    pub fn move_grabbed_item_up(&mut self)
        requires
            old(self).wf(),
        ensures
            final(self).wf(),
            match old(self).grabbed_item_id {
                None => {
                    &&& final(self).items == old(self).items
                    &&& final(self).selected_index == old(self).selected_index
                    &&& final(self).save_requested == old(self).save_requested
                },
                Some(g) => {
                    &&& final(self).items@ == moved(old(self).items@, g, false)
                    &&& final(self).selected_index == State::followed(
                        moved(old(self).items@, g, false),
                        old(self).current_id(),
                        old(self).selected_index,
                    )
                    &&& final(self).save_requested
                },
            },
            final(self).next_id == old(self).next_id,
            final(self).next_display_order == old(self).next_display_order,
            final(self).mode == old(self).mode,
            final(self).edit_buffer == old(self).edit_buffer,
            final(self).grabbed_item_id == old(self).grabbed_item_id,
            old(self).ids_ok() ==> final(self).ids_ok(),
            old(self).ids_ok() && old(self).grabbed_item_id is Some && old(self).grabbed_item_id
                == old(self).current_id() ==> final(self).current_id() == final(self).grabbed_item_id,
    {
        self.move_grabbed(false)
    }

    /// Moves the grabbed item one visual step down; the cursor follows the item it was on.
    pub fn move_grabbed_item_down(&mut self)
        requires
            old(self).wf(),
        ensures
            final(self).wf(),
            match old(self).grabbed_item_id {
                None => {
                    &&& final(self).items == old(self).items
                    &&& final(self).selected_index == old(self).selected_index
                    &&& final(self).save_requested == old(self).save_requested
                },
                Some(g) => {
                    &&& final(self).items@ == moved(old(self).items@, g, true)
                    &&& final(self).selected_index == State::followed(
                        moved(old(self).items@, g, true),
                        old(self).current_id(),
                        old(self).selected_index,
                    )
                    &&& final(self).save_requested
                },
            },
            final(self).next_id == old(self).next_id,
            final(self).next_display_order == old(self).next_display_order,
            final(self).mode == old(self).mode,
            final(self).edit_buffer == old(self).edit_buffer,
            final(self).grabbed_item_id == old(self).grabbed_item_id,
            old(self).ids_ok() ==> final(self).ids_ok(),
            old(self).ids_ok() && old(self).grabbed_item_id is Some && old(self).grabbed_item_id
                == old(self).current_id() ==> final(self).current_id() == final(self).grabbed_item_id,
    {
        self.move_grabbed(true)
    }

    /// Removes the item under the cursor, if any; the cursor stays, clamped to the
    /// end, and a grab on the removed item is released.
    pub fn delete_current_item(&mut self)
        requires
            old(self).wf(),
        ensures
            final(self).wf(),
            old(self).items@.len() > 0 ==> {
                &&& final(self).items@ == old(self).items@.remove(old(self).selected_index as int)
                &&& final(self).selected_index == clamped(
                    old(self).selected_index,
                    (old(self).items@.len() - 1) as nat,
                )
                &&& final(self).save_requested
            },
            old(self).items@.len() == 0 ==> {
                &&& final(self).items == old(self).items
                &&& final(self).selected_index == old(self).selected_index
                &&& final(self).save_requested == old(self).save_requested
            },
            final(self).next_id == old(self).next_id,
            final(self).next_display_order == old(self).next_display_order,
            final(self).mode == old(self).mode,
            final(self).edit_buffer == old(self).edit_buffer,
            final(self).grabbed_item_id == old(self).grab_after_removal(),
            old(self).ids_ok() ==> final(self).ids_ok(),
    {
        if self.items.len() > 0 {
            self.release_grab_if_current();
            proof {
                lemma_remove_keeps_ids(
                    self.items@,
                    self.selected_index as int,
                    self.next_id,
                    self.grab_or_zero(),
                );
            }
            self.items.remove(self.selected_index);
            self.clamp_cursor();
            self.save_requested = true;
        }
    }

    /// Releases the grab when it names the item under the cursor.
    pub(crate) fn release_grab_if_current(&mut self)
        ensures
            final(self).grabbed_item_id == old(self).grab_after_removal(),
            final(self).items == old(self).items,
            final(self).selected_index == old(self).selected_index,
            final(self).next_id == old(self).next_id,
            final(self).next_display_order == old(self).next_display_order,
            final(self).mode == old(self).mode,
            final(self).edit_buffer == old(self).edit_buffer,
            final(self).save_requested == old(self).save_requested,
    {
        let cur = self.current();
        if let Some(g) = self.grabbed_item_id {
            if let Some(c) = cur {
                if g == c {
                    self.grabbed_item_id = None;
                }
            }
        }
    }

    /// Pulls the cursor back onto the last item after a removal.
    pub(crate) fn clamp_cursor(&mut self)
        ensures
            final(self).selected_index == clamped(
                old(self).selected_index,
                old(self).items@.len(),
            ),
            final(self).items == old(self).items,
            final(self).next_id == old(self).next_id,
            final(self).next_display_order == old(self).next_display_order,
            final(self).mode == old(self).mode,
            final(self).edit_buffer == old(self).edit_buffer,
            final(self).grabbed_item_id == old(self).grabbed_item_id,
            final(self).save_requested == old(self).save_requested,
    {
        if self.selected_index >= self.items.len() && self.items.len() > 0 {
            self.selected_index = self.items.len() - 1;
        }
    }
}

} // verus!
