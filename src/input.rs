use vstd::prelude::*;
use crate::item::tier_sorted;
use crate::keys::{command_of, normal_command, Command, Key, KeyCode, KeyOutcome, Modifiers};
use crate::reorder::moved;
use crate::edit::{inserted_at, new_item_position, text_committed};
use crate::state::{clamped, flipped, Mode, State};
use crate::text::{pop_char, push_char, trimmed};

verus! {

/// Whether a normal-mode command only releases the grab while an item is grabbed.
pub open spec fn releases_grab(cmd: Command) -> bool {
    cmd == Command::ToggleDone || cmd == Command::AddItem || cmd == Command::EditCurrent
        || cmd == Command::DeleteCurrent || cmd == Command::Cancel
}

/// What the host is asked to do after a normal-mode command.
pub open spec fn normal_outcome(cmd: Command, grabbed: bool) -> KeyOutcome {
    match cmd {
        Command::Quit | Command::Close => KeyOutcome { render: false, hide: true },
        Command::Ignore => KeyOutcome { render: false, hide: false },
        Command::Cancel => if grabbed {
            KeyOutcome { render: true, hide: false }
        } else {
            KeyOutcome { render: false, hide: true }
        },
        _ => KeyOutcome { render: true, hide: false },
    }
}

/// Whether an edit-mode key does anything: Enter, Esc, Backspace or a
/// character, each without modifiers.
pub open spec fn edit_key_handled(key: Key) -> bool {
    key.modifiers == Modifiers::Plain && match key.code {
        KeyCode::Enter | KeyCode::Esc | KeyCode::Backspace | KeyCode::Char(_) => true,
        _ => false,
    }
}

/// `a` and `b` agree on everything but the grab.
pub open spec fn same_but_grab(a: State, b: State) -> bool {
    &&& b.items == a.items
    &&& b.selected_index == a.selected_index
    &&& b.next_id == a.next_id
    &&& b.next_display_order == a.next_display_order
    &&& b.mode == a.mode
    &&& b.edit_buffer == a.edit_buffer
    &&& b.save_requested == a.save_requested
}

/// `a` and `b` agree on everything.
pub open spec fn unchanged(a: State, b: State) -> bool {
    same_but_grab(a, b) && b.grabbed_item_id == a.grabbed_item_id
}

/// `a` and `b` agree on the counters, the mode, the buffer and the grab.
pub open spec fn same_session(a: State, b: State) -> bool {
    &&& b.next_id == a.next_id
    &&& b.next_display_order == a.next_display_order
    &&& b.mode == a.mode
    &&& b.edit_buffer == a.edit_buffer
    &&& b.grabbed_item_id == a.grabbed_item_id
}

/// One normal-mode key: what `handle_normal_mode_key` does from `before` to `after`,
/// answering `r`.
pub open spec fn normal_step(before: State, after: State, key: Key, r: KeyOutcome) -> bool {
    let empty = before.items@.len() == 0;
    let cmd = command_of(key, empty);
    let grabbed = before.grabbed_item_id is Some && !empty;
    let sel = before.selected_index;
    &&& r == normal_outcome(cmd, before.grabbed_item_id is Some)
    &&& (cmd == Command::Ignore || cmd == Command::Quit || cmd == Command::Close || (cmd
        == Command::Cancel && !grabbed)) ==> unchanged(before, after)
    &&& grabbed && releases_grab(cmd) ==> same_but_grab(before, after)
        && after.grabbed_item_id is None
    &&& (cmd == Command::MoveUp || cmd == Command::MoveDown) ==> {
        let down = cmd == Command::MoveDown;
        &&& same_session(before, after)
        &&& match before.grabbed_item_id {
            Some(g) => {
                &&& after.items@ == moved(before.items@, g, down)
                &&& after.selected_index == State::followed(
                    moved(before.items@, g, down),
                    before.current_id(),
                    sel,
                )
                &&& after.save_requested
            },
            None => {
                &&& after.items == before.items
                &&& after.save_requested == before.save_requested
                &&& after.selected_index == if down {
                    if sel + 1 < before.items@.len() {
                        (sel + 1) as usize
                    } else {
                        sel
                    }
                } else if sel > 0 {
                    (sel - 1) as usize
                } else {
                    sel
                }
            },
        }
    }
    &&& cmd == Command::ToggleDone && !grabbed ==> {
        &&& same_session(before, after)
        &&& after.items@ == tier_sorted(
            before.items@.update(sel as int, flipped(before.items@[sel as int])),
        )
        &&& after.selected_index == sel
        &&& after.save_requested
    }
    &&& cmd == Command::ToggleGrab ==> same_but_grab(before, after) && after.grabbed_item_id
        == before.grab_toggled()
    &&& cmd == Command::AddItem && !grabbed ==> if before.next_id == usize::MAX
        || before.next_display_order == usize::MAX {
        unchanged(before, after)
    } else {
        let pos = new_item_position(before.items@, sel);
        &&& inserted_at(before.items@, after.items@, pos)
        &&& after.items@[pos].text@.len() == 0
        &&& !after.items@[pos].done
        &&& after.items@[pos].id == before.next_id
        &&& after.items@[pos].display_order == before.next_display_order
        &&& after.selected_index == pos
        &&& after.next_id == before.next_id + 1
        &&& after.next_display_order == before.next_display_order + 1
        &&& after.mode == Mode::Edit
        &&& after.edit_buffer@.len() == 0
        &&& after.grabbed_item_id == before.grabbed_item_id
        &&& after.save_requested == before.save_requested
    }
    &&& cmd == Command::EditCurrent && !grabbed ==> {
        &&& after.items == before.items
        &&& after.selected_index == sel
        &&& after.next_id == before.next_id
        &&& after.next_display_order == before.next_display_order
        &&& after.mode == Mode::Edit
        &&& after.edit_buffer@.len() == 0
        &&& after.grabbed_item_id == before.grabbed_item_id
        &&& after.save_requested == before.save_requested
    }
    &&& cmd == Command::DeleteCurrent && !grabbed ==> {
        &&& same_session(before, after)
        &&& after.items@ == before.items@.remove(sel as int)
        &&& after.selected_index == clamped(sel, (before.items@.len() - 1) as nat)
        &&& after.save_requested
    }
}

/// One edit-mode key: what `handle_edit_mode_key` does from `before` to `after`,
/// answering `r`.
pub open spec fn edit_step(before: State, after: State, key: Key, r: KeyOutcome) -> bool {
    let sel = before.selected_index;
    let plain = key.modifiers == Modifiers::Plain;
    let on_item = sel < before.items@.len();
    &&& r == (KeyOutcome { render: edit_key_handled(key), hide: false })
    &&& !edit_key_handled(key) ==> unchanged(before, after)
    &&& plain && key.code == KeyCode::Enter ==> {
        let text = trimmed(before.edit_buffer@);
        &&& after.mode == Mode::Normal
        &&& after.edit_buffer@.len() == 0
        &&& after.next_id == before.next_id
        &&& after.next_display_order == before.next_display_order
        &&& on_item ==> {
            &&& text_committed(before.items@, after.items@, sel, text)
            &&& after.selected_index == if text.len() == 0 {
                clamped(sel, (before.items@.len() - 1) as nat)
            } else {
                sel
            }
            &&& after.save_requested
            &&& after.grabbed_item_id == if text.len() == 0 {
                before.grab_after_removal()
            } else {
                before.grabbed_item_id
            }
        }
        &&& !on_item ==> {
            &&& after.items == before.items
            &&& after.selected_index == sel
            &&& after.save_requested == before.save_requested
            &&& after.grabbed_item_id == before.grabbed_item_id
        }
    }
    &&& plain && key.code == KeyCode::Esc ==> {
        let placeholder = on_item && before.items@[sel as int].text@.len() == 0;
        &&& after.mode == Mode::Normal
        &&& after.edit_buffer@.len() == 0
        &&& after.next_id == before.next_id
        &&& after.next_display_order == before.next_display_order
        &&& after.save_requested == before.save_requested
        &&& placeholder ==> {
            &&& after.items@ == before.items@.remove(sel as int)
            &&& after.selected_index == clamped(sel, (before.items@.len() - 1) as nat)
            &&& after.grabbed_item_id == before.grab_after_removal()
        }
        &&& !placeholder ==> {
            &&& after.items == before.items
            &&& after.selected_index == sel
            &&& after.grabbed_item_id == before.grabbed_item_id
        }
    }
    &&& plain && key.code == KeyCode::Backspace ==> {
        &&& after.items == before.items
        &&& after.selected_index == sel
        &&& after.next_id == before.next_id
        &&& after.next_display_order == before.next_display_order
        &&& after.mode == before.mode
        &&& after.grabbed_item_id == before.grabbed_item_id
        &&& after.save_requested == before.save_requested
        &&& after.edit_buffer@ == if before.edit_buffer@.len() > 0 {
            before.edit_buffer@.drop_last()
        } else {
            before.edit_buffer@
        }
    }
    &&& forall|c: char|
        plain && key.code == KeyCode::Char(c) ==> {
            &&& after.items == before.items
            &&& after.selected_index == sel
            &&& after.next_id == before.next_id
            &&& after.next_display_order == before.next_display_order
            &&& after.mode == before.mode
            &&& after.grabbed_item_id == before.grabbed_item_id
            &&& after.save_requested == before.save_requested
            &&& after.edit_buffer@ == before.edit_buffer@.push(c)
        }
}

impl State {
    /// Applies a key pressed in normal mode.
    pub fn handle_normal_mode_key(&mut self, key: Key) -> (r: KeyOutcome)
        requires
            old(self).wf(),
        ensures
            final(self).wf(),
            normal_step(*old(self), *final(self), key, r),
            old(self).ids_ok() ==> final(self).ids_ok(),
    {
        let empty = self.items.len() == 0;
        let grabbed = self.grabbed_item_id.is_some();
        match normal_command(key, empty) {
            Command::MoveUp => {
                if grabbed {
                    self.move_grabbed_item_up();
                } else if self.selected_index > 0 {
                    self.selected_index = self.selected_index - 1;
                }
                KeyOutcome { render: true, hide: false }
            },
            Command::MoveDown => {
                if grabbed {
                    self.move_grabbed_item_down();
                } else if self.selected_index < self.items.len() - 1 {
                    self.selected_index = self.selected_index + 1;
                }
                KeyOutcome { render: true, hide: false }
            },
            Command::ToggleDone => {
                if grabbed {
                    self.grabbed_item_id = None;
                } else {
                    self.toggle_current_item();
                }
                KeyOutcome { render: true, hide: false }
            },
            Command::ToggleGrab => {
                self.toggle_grab();
                KeyOutcome { render: true, hide: false }
            },
            Command::AddItem => {
                if grabbed && !empty {
                    self.grabbed_item_id = None;
                } else {
                    self.add_new_item();
                }
                KeyOutcome { render: true, hide: false }
            },
            Command::EditCurrent => {
                if grabbed {
                    self.grabbed_item_id = None;
                } else {
                    self.start_editing_current();
                }
                KeyOutcome { render: true, hide: false }
            },
            Command::DeleteCurrent => {
                if grabbed {
                    self.grabbed_item_id = None;
                } else {
                    self.delete_current_item();
                }
                KeyOutcome { render: true, hide: false }
            },
            Command::Cancel => {
                if grabbed {
                    self.grabbed_item_id = None;
                    KeyOutcome { render: true, hide: false }
                } else {
                    KeyOutcome { render: false, hide: true }
                }
            },
            Command::Quit | Command::Close => KeyOutcome { render: false, hide: true },
            Command::Ignore => KeyOutcome { render: false, hide: false },
        }
    }

    /// Applies a key pressed in edit mode: Enter commits, Esc cancels,
    /// Backspace erases the last character and a character is typed.
    pub fn handle_edit_mode_key(&mut self, key: Key) -> (r: KeyOutcome)
        requires
            old(self).wf(),
        ensures
            final(self).wf(),
            edit_step(*old(self), *final(self), key, r),
            old(self).ids_ok() ==> final(self).ids_ok(),
    {
        match key.modifiers {
            Modifiers::Plain => match key.code {
                KeyCode::Enter => {
                    self.save_edit();
                    KeyOutcome { render: true, hide: false }
                },
                KeyCode::Esc => {
                    self.cancel_edit();
                    KeyOutcome { render: true, hide: false }
                },
                KeyCode::Backspace => {
                    pop_char(&mut self.edit_buffer);
                    KeyOutcome { render: true, hide: false }
                },
                KeyCode::Char(c) => {
                    push_char(&mut self.edit_buffer, c);
                    KeyOutcome { render: true, hide: false }
                },
                _ => KeyOutcome { render: false, hide: false },
            },
            _ => KeyOutcome { render: false, hide: false },
        }
    }

    /// Applies a key according to the current mode.
    pub fn handle_key(&mut self, key: Key) -> (r: KeyOutcome)
        requires
            old(self).wf(),
        ensures
            final(self).wf(),
            old(self).mode == Mode::Normal ==> normal_step(*old(self), *final(self), key, r),
            old(self).mode == Mode::Edit ==> edit_step(*old(self), *final(self), key, r),
            old(self).ids_ok() ==> final(self).ids_ok(),
    {
        match self.mode {
            Mode::Normal => self.handle_normal_mode_key(key),
            Mode::Edit => self.handle_edit_mode_key(key),
        }
    }
}

} // verus!
