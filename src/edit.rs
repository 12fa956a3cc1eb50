use vstd::prelude::*;
use crate::item::TodoItem;
use crate::reorder::{first_match, is_first_match};
use crate::state::{clamped, Mode, State};
use crate::ids::{lemma_insert_keeps_ids, lemma_remove_keeps_ids, lemma_same_ids, same_ids};
use crate::text::{trim_text, trimmed};

verus! {

/// `t` with text `text`.
pub open spec fn with_text(t: TodoItem, text: String) -> TodoItem {
    TodoItem { text: text, ..t }
}

/// Finished items.
pub open spec fn is_done() -> spec_fn(TodoItem) -> bool {
    |t: TodoItem| t.done
}

/// Where a new item goes: above the cursor on an open item; at the top of the
/// finished tier when the cursor is on a finished item.
pub open spec fn new_item_position(items: Seq<TodoItem>, sel: usize) -> int {
    if items.len() == 0 {
        0
    } else if sel < items.len() && items[sel as int].done {
        match first_match(items, is_done()) {
            Some(p) => p,
            None => items.len() as int,
        }
    } else if sel < items.len() {
        sel as int
    } else {
        0
    }
}

/// `new` stands at `pos` of `after`, and the rest is `before` in order.
pub open spec fn inserted_at(before: Seq<TodoItem>, after: Seq<TodoItem>, pos: int) -> bool {
    &&& after.len() == before.len() + 1
    &&& forall|k: int| 0 <= k < pos ==> after[k] == before[k]
    &&& forall|k: int| pos < k < after.len() ==> after[k] == before[k - 1]
}

/// `after` is `before` with the text of the item at `sel` set to `text`, or
/// without that item when `text` is empty.
pub open spec fn text_committed(
    before: Seq<TodoItem>,
    after: Seq<TodoItem>,
    sel: usize,
    text: Seq<char>,
) -> bool {
    if text.len() == 0 {
        after == before.remove(sel as int)
    } else {
        &&& after.len() == before.len()
        &&& forall|k: int| 0 <= k < before.len() && k != sel ==> after[k] == before[k]
        &&& after[sel as int].text@ == text
        &&& after[sel as int].done == before[sel as int].done
        &&& after[sel as int].id == before[sel as int].id
        &&& after[sel as int].display_order == before[sel as int].display_order
    }
}

/// The position of the first finished item.
fn first_done(items: &Vec<TodoItem>) -> (r: Option<usize>)
    ensures
        r matches Some(i) ==> i < items@.len(),
        match first_match(items@, is_done()) {
            None => r is None,
            Some(i) => r == Some(i as usize),
        },
{
    let mut i: usize = 0;
    while i < items.len()
        invariant
            i <= items@.len(),
            forall|k: int| 0 <= k < i ==> !is_done()(#[trigger] items@[k]),
        decreases items.len() - i,
    {
        if items[i].done {
            proof {
                assert(is_first_match(items@, is_done(), i as int));
                assert forall|j: int| is_first_match(items@, is_done(), j) implies j == i by {
                    if j < i {
                        assert(!is_done()(items@[j]));
                    } else if j > i {
                        assert(!is_done()(items@[i as int]));
                    }
                }
            }
            return Some(i);
        }
        i = i + 1;
    }
    None
}

impl State {
    /// Creates an empty open item, places it (see `new_item_position`), puts the
    /// cursor on it and starts editing it. Once the id or order key counter is
    /// exhausted nothing changes.
    pub fn add_new_item(&mut self)
        requires
            old(self).wf(),
        ensures
            final(self).wf(),
            old(self).next_id == usize::MAX || old(self).next_display_order == usize::MAX ==> {
                &&& final(self).items == old(self).items
                &&& final(self).selected_index == old(self).selected_index
                &&& final(self).next_id == old(self).next_id
                &&& final(self).next_display_order == old(self).next_display_order
                &&& final(self).mode == old(self).mode
                &&& final(self).edit_buffer == old(self).edit_buffer
            },
            old(self).next_id < usize::MAX && old(self).next_display_order < usize::MAX ==> {
                let pos = new_item_position(old(self).items@, old(self).selected_index);
                &&& inserted_at(old(self).items@, final(self).items@, pos)
                &&& final(self).items@[pos].text@.len() == 0
                &&& !final(self).items@[pos].done
                &&& final(self).items@[pos].id == old(self).next_id
                &&& final(self).items@[pos].display_order == old(self).next_display_order
                &&& final(self).selected_index == pos
                &&& final(self).next_id == old(self).next_id + 1
                &&& final(self).next_display_order == old(self).next_display_order + 1
                &&& final(self).mode == Mode::Edit
                &&& final(self).edit_buffer@.len() == 0
            },
            final(self).grabbed_item_id == old(self).grabbed_item_id,
            final(self).save_requested == old(self).save_requested,
            old(self).ids_ok() ==> final(self).ids_ok(),
    {
        if self.next_id == usize::MAX || self.next_display_order == usize::MAX {
            return;
        }
        let item = TodoItem {
            text: String::new(),
            done: false,
            id: self.next_id,
            display_order: self.next_display_order,
        };
        self.next_id = self.next_id + 1;
        self.next_display_order = self.next_display_order + 1;
        let pos: usize;
        if self.items.len() == 0 {
            pos = 0;
        } else if self.items[self.selected_index].done {
            pos = match first_done(&self.items) {
                Some(p) => p,
                None => self.items.len(),
            };
        } else {
            pos = self.selected_index;
        }
        proof {
            if old(self).ids_ok() {
                lemma_insert_keeps_ids(
                    self.items@,
                    pos as int,
                    item,
                    old(self).next_id,
                    self.grab_or_zero(),
                );
            }
        }
        self.items.insert(pos, item);
        self.selected_index = pos;
        self.start_editing_current();
    }

    /// Enters edit mode on the item under the cursor with an empty buffer.
    pub fn start_editing_current(&mut self)
        requires
            old(self).wf(),
        ensures
            final(self).wf(),
            old(self).selected_index < old(self).items@.len() ==> final(self).mode == Mode::Edit
                && final(self).edit_buffer@.len() == 0,
            old(self).selected_index >= old(self).items@.len() ==> final(self).mode == old(
                self,
            ).mode && final(self).edit_buffer == old(self).edit_buffer,
            final(self).items == old(self).items,
            final(self).selected_index == old(self).selected_index,
            final(self).next_id == old(self).next_id,
            final(self).next_display_order == old(self).next_display_order,
            final(self).grabbed_item_id == old(self).grabbed_item_id,
            final(self).save_requested == old(self).save_requested,
            old(self).ids_ok() ==> final(self).ids_ok(),
    {
        if self.selected_index < self.items.len() {
            self.edit_buffer = String::new();
            self.mode = Mode::Edit;
        }
    }

    /// Ends the edit with `text` as the new text of the item under the cursor;
    /// an empty text removes the item instead.
    pub fn commit_text(&mut self, text: String)
        requires
            old(self).wf(),
        ensures
            final(self).wf(),
            old(self).selected_index < old(self).items@.len() ==> {
                &&& text_committed(
                    old(self).items@,
                    final(self).items@,
                    old(self).selected_index,
                    text@,
                )
                &&& text@.len() > 0 ==> final(self).items@[old(self).selected_index as int].text
                    == text
                &&& final(self).selected_index == if text@.len() == 0 {
                    clamped(old(self).selected_index, (old(self).items@.len() - 1) as nat)
                } else {
                    old(self).selected_index
                }
                &&& final(self).save_requested
            },
            old(self).selected_index >= old(self).items@.len() ==> {
                &&& final(self).items == old(self).items
                &&& final(self).selected_index == old(self).selected_index
                &&& final(self).save_requested == old(self).save_requested
            },
            final(self).mode == Mode::Normal,
            final(self).edit_buffer@.len() == 0,
            final(self).next_id == old(self).next_id,
            final(self).next_display_order == old(self).next_display_order,
            final(self).grabbed_item_id == if old(self).selected_index < old(self).items@.len() && text@.len() == 0 {
                old(self).grab_after_removal()
            } else {
                old(self).grabbed_item_id
            },
            old(self).ids_ok() ==> final(self).ids_ok(),
    {
        let sel = self.selected_index;
        if sel < self.items.len() {
            if text.as_str().is_empty() {
                self.release_grab_if_current();
                proof {
                    lemma_remove_keeps_ids(self.items@, sel as int, self.next_id, self.grab_or_zero());
                }
                self.items.remove(sel);
                self.clamp_cursor();
            } else {
                let mut t = self.items.remove(sel);
                t.text = text;
                self.items.insert(sel, t);
                proof {
                    assert(self.items@ =~= old(self).items@.update(
                        sel as int,
                        with_text(old(self).items@[sel as int], text),
                    ));
                    assert(same_ids(old(self).items@, self.items@));
                    lemma_same_ids(old(self).items@, self.items@, self.next_id, self.grab_or_zero());
                }
            }
            self.save_requested = true;
        }
        self.mode = Mode::Normal;
        self.edit_buffer = String::new();
    }

    /// Commits the edit buffer, trimmed of surrounding white space.
    pub fn save_edit(&mut self)
        requires
            old(self).wf(),
        ensures
            final(self).wf(),
            old(self).selected_index < old(self).items@.len() ==> {
                let text = trimmed(old(self).edit_buffer@);
                &&& text_committed(
                    old(self).items@,
                    final(self).items@,
                    old(self).selected_index,
                    text,
                )
                &&& final(self).selected_index == if text.len() == 0 {
                    clamped(old(self).selected_index, (old(self).items@.len() - 1) as nat)
                } else {
                    old(self).selected_index
                }
                &&& final(self).save_requested
            },
            old(self).selected_index >= old(self).items@.len() ==> {
                &&& final(self).items == old(self).items
                &&& final(self).selected_index == old(self).selected_index
                &&& final(self).save_requested == old(self).save_requested
            },
            final(self).mode == Mode::Normal,
            final(self).edit_buffer@.len() == 0,
            final(self).next_id == old(self).next_id,
            final(self).next_display_order == old(self).next_display_order,
            final(self).grabbed_item_id == if old(self).selected_index < old(self).items@.len() && trimmed(old(self).edit_buffer@).len() == 0 {
                old(self).grab_after_removal()
            } else {
                old(self).grabbed_item_id
            },
            old(self).ids_ok() ==> final(self).ids_ok(),
    {
        let text = trim_text(self.edit_buffer.as_str()).to_owned();
        self.commit_text(text);
    }

    /// Leaves edit mode without touching the item's text; an item that was
    /// still empty (a new one) is removed.
    pub fn cancel_edit(&mut self)
        requires
            old(self).wf(),
        ensures
            final(self).wf(),
            old(self).selected_index < old(self).items@.len() && old(self).items@[old(
                self,
            ).selected_index as int].text@.len() == 0 ==> {
                &&& final(self).items@ == old(self).items@.remove(old(self).selected_index as int)
                &&& final(self).selected_index == clamped(
                    old(self).selected_index,
                    (old(self).items@.len() - 1) as nat,
                )
            },
            !(old(self).selected_index < old(self).items@.len() && old(self).items@[old(
                self,
            ).selected_index as int].text@.len() == 0) ==> {
                &&& final(self).items == old(self).items
                &&& final(self).selected_index == old(self).selected_index
            },
            final(self).mode == Mode::Normal,
            final(self).edit_buffer@.len() == 0,
            final(self).next_id == old(self).next_id,
            final(self).next_display_order == old(self).next_display_order,
            final(self).grabbed_item_id == if old(self).selected_index < old(self).items@.len()
                && old(self).items@[old(self).selected_index as int].text@.len() == 0 {
                old(self).grab_after_removal()
            } else {
                old(self).grabbed_item_id
            },
            final(self).save_requested == old(self).save_requested,
            old(self).ids_ok() ==> final(self).ids_ok(),
    {
        let sel = self.selected_index;
        if sel < self.items.len() && self.items[sel].text.as_str().is_empty() {
            self.release_grab_if_current();
            proof {
                lemma_remove_keeps_ids(self.items@, sel as int, self.next_id, self.grab_or_zero());
            }
            self.items.remove(sel);
            self.clamp_cursor();
        }
        self.mode = Mode::Normal;
        self.edit_buffer = String::new();
    }
}

} // verus!
