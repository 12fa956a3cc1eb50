use todo_pane::{
    move_adjacent, normal_command, sort_by_tier, visible_range, Command, Key, KeyCode, Mode,
    Modifiers, State, TodoItem,
};

fn item(id: usize, text: &str, done: bool, key: usize) -> TodoItem {
    TodoItem { text: text.to_string(), done, id, display_order: key }
}

fn plain(code: KeyCode) -> Key {
    Key { code, modifiers: Modifiers::Plain }
}

fn ids(s: &State) -> Vec<usize> {
    s.items.iter().map(|t| t.id).collect()
}

fn loaded(items: Vec<TodoItem>) -> State {
    let mut s = State::new();
    s.load_todos(items);
    s
}

fn type_text(s: &mut State, text: &str) {
    for c in text.chars() {
        s.handle_key(plain(KeyCode::Char(c)));
    }
}

#[test]
fn sort_puts_open_items_first_by_key() {
    let mut v = vec![
        item(0, "a", true, 3),
        item(1, "b", false, 5),
        item(2, "c", true, 1),
        item(3, "d", false, 2),
    ];
    sort_by_tier(&mut v);
    let got: Vec<usize> = v.iter().map(|t| t.id).collect();
    assert_eq!(got, vec![3, 1, 2, 0]);
}

#[test]
fn sort_twice_is_same_as_once() {
    let mut v = vec![
        item(0, "a", true, 2),
        item(1, "b", false, 2),
        item(2, "c", true, 2),
        item(3, "d", false, 1),
        item(4, "e", false, 2),
    ];
    sort_by_tier(&mut v);
    let once: Vec<usize> = v.iter().map(|t| t.id).collect();
    sort_by_tier(&mut v);
    let twice: Vec<usize> = v.iter().map(|t| t.id).collect();
    assert_eq!(once, twice);
    assert_eq!(once, vec![3, 1, 4, 0, 2]);
}

#[test]
fn tiers_hold_after_operations_and_sort() {
    let mut s = loaded(vec![
        item(1, "a", false, 1),
        item(2, "b", false, 2),
        item(3, "c", false, 3),
    ]);
    s.handle_key(plain(KeyCode::Char(' ')));
    s.handle_key(plain(KeyCode::Down));
    s.handle_key(plain(KeyCode::Char(' ')));
    s.sort_items();
    let dones: Vec<bool> = s.items.iter().map(|t| t.done).collect();
    let first_done = dones.iter().position(|d| *d).unwrap_or(dones.len());
    assert!(dones[first_done..].iter().all(|d| *d));
}

#[test]
fn move_down_crosses_finished_block() {
    let mut s = loaded(vec![
        item(0, "A", false, 1),
        item(1, "B", true, 1),
        item(2, "C", true, 2),
        item(3, "D", false, 2),
    ]);
    assert_eq!(ids(&s), vec![0, 3, 1, 2]);
    assert_eq!(s.selected_index, 0);
    s.handle_key(plain(KeyCode::Char('g')));
    assert_eq!(s.grabbed_item_id, Some(0));
    s.handle_key(plain(KeyCode::Down));
    assert_eq!(ids(&s), vec![3, 0, 1, 2]);
    assert_eq!(s.selected_index, 1);
    assert!(s.save_requested);
}

#[test]
fn move_adjacent_single_step_within_tier() {
    let mut v = vec![item(0, "a", false, 0), item(1, "b", false, 1), item(2, "c", false, 2)];
    move_adjacent(&mut v, 2, false);
    let got: Vec<usize> = v.iter().map(|t| t.id).collect();
    assert_eq!(got, vec![0, 2, 1]);
    move_adjacent(&mut v, 2, false);
    let got: Vec<usize> = v.iter().map(|t| t.id).collect();
    assert_eq!(got, vec![2, 0, 1]);
    move_adjacent(&mut v, 2, false);
    let got: Vec<usize> = v.iter().map(|t| t.id).collect();
    assert_eq!(got, vec![2, 0, 1]);
}

#[test]
fn move_adjacent_unknown_id_is_noop() {
    let mut v = vec![item(0, "a", false, 0), item(1, "b", true, 1)];
    move_adjacent(&mut v, 9, true);
    let got: Vec<usize> = v.iter().map(|t| t.id).collect();
    assert_eq!(got, vec![0, 1]);
    assert_eq!(v[0].display_order, 0);
}

#[test]
fn move_only_item_is_noop() {
    let mut v = vec![item(5, "a", false, 4)];
    move_adjacent(&mut v, 5, true);
    assert_eq!(v[0].display_order, 4);
    move_adjacent(&mut v, 5, false);
    assert_eq!(v[0].display_order, 4);
}

#[test]
fn toggle_keeps_cursor_slot() {
    let mut s = loaded(vec![
        item(0, "a", false, 0),
        item(1, "b", false, 1),
        item(2, "c", false, 2),
        item(3, "d", false, 3),
        item(4, "e", false, 4),
    ]);
    s.selected_index = 2;
    s.handle_key(plain(KeyCode::Char(' ')));
    assert_eq!(s.selected_index, 2);
    assert_eq!(ids(&s), vec![0, 1, 3, 4, 2]);
    assert!(s.items[4].done);
}

#[test]
fn whitespace_commit_removes_new_item() {
    let mut s = loaded(vec![item(0, "a", false, 0), item(1, "b", false, 1)]);
    s.handle_key(plain(KeyCode::Char('a')));
    assert_eq!(s.mode, Mode::Edit);
    assert_eq!(s.items.len(), 3);
    type_text(&mut s, "   ");
    s.handle_key(plain(KeyCode::Enter));
    assert_eq!(s.mode, Mode::Normal);
    assert_eq!(s.items.len(), 2);
    assert_eq!(ids(&s), vec![0, 1]);
}

#[test]
fn commit_trims_text() {
    let mut s = State::new();
    s.handle_key(plain(KeyCode::Char('a')));
    type_text(&mut s, "  buy milk ");
    s.handle_key(plain(KeyCode::Enter));
    assert_eq!(s.items.len(), 1);
    assert_eq!(s.items[0].text, "buy milk");
    assert!(s.save_requested);
    assert_eq!(s.edit_buffer, "");
}

#[test]
fn cancel_keeps_previous_text() {
    let mut s = loaded(vec![item(0, "hello", false, 0)]);
    s.handle_key(plain(KeyCode::Enter));
    assert_eq!(s.mode, Mode::Edit);
    type_text(&mut s, "xyz");
    s.handle_key(plain(KeyCode::Backspace));
    assert_eq!(s.edit_buffer, "xy");
    s.handle_key(plain(KeyCode::Esc));
    assert_eq!(s.mode, Mode::Normal);
    assert_eq!(s.items[0].text, "hello");
    assert_eq!(s.edit_buffer, "");
}

#[test]
fn cancel_on_new_item_removes_it() {
    let mut s = loaded(vec![item(0, "x", false, 0)]);
    s.handle_key(plain(KeyCode::Char('a')));
    assert_eq!(s.items.len(), 2);
    s.handle_key(plain(KeyCode::Esc));
    assert_eq!(s.items.len(), 1);
    assert_eq!(s.items[0].text, "x");
}

#[test]
fn grab_follows_item_by_id_across_sort() {
    let mut s = loaded(vec![
        item(10, "a", false, 0),
        item(11, "b", false, 1),
        item(12, "c", true, 2),
    ]);
    s.selected_index = 1;
    s.handle_key(plain(KeyCode::Char('g')));
    assert_eq!(s.grabbed_item_id, Some(11));
    s.handle_key(plain(KeyCode::Up));
    assert_eq!(s.grabbed_item_id, Some(11));
    assert_eq!(ids(&s), vec![11, 10, 12]);
    assert_eq!(s.items[s.selected_index].id, 11);
    s.handle_key(plain(KeyCode::Down));
    assert_eq!(ids(&s), vec![10, 11, 12]);
    assert_eq!(s.items[s.selected_index].id, 11);
    s.handle_key(plain(KeyCode::Char('g')));
    assert_eq!(s.grabbed_item_id, None);
}

#[test]
fn reload_gives_same_sequence() {
    let mut s = loaded(vec![
        item(0, "a", false, 1),
        item(1, "b", true, 2),
        item(2, "c", false, 3),
    ]);
    s.handle_key(plain(KeyCode::Char(' ')));
    let saved: Vec<TodoItem> = s.items.clone();
    let r = loaded(saved.clone());
    assert_eq!(r.items.len(), saved.len());
    for (a, b) in r.items.iter().zip(saved.iter()) {
        assert_eq!(a.id, b.id);
        assert_eq!(a.text, b.text);
        assert_eq!(a.done, b.done);
        assert_eq!(a.display_order, b.display_order);
    }
}

#[test]
fn load_migrates_zero_keys_and_sets_counters() {
    let s = loaded(vec![
        item(4, "a", false, 0),
        item(7, "b", false, 0),
        item(2, "c", false, 0),
    ]);
    let keys: Vec<usize> = s.items.iter().map(|t| t.display_order).collect();
    assert_eq!(keys, vec![0, 1, 2]);
    assert_eq!(s.next_id, 8);
    assert_eq!(s.next_display_order, 3);
}

#[test]
fn load_empty_sets_counters_to_one() {
    let s = loaded(vec![]);
    assert_eq!(s.next_id, 1);
    assert_eq!(s.next_display_order, 1);
    assert!(s.items.is_empty());
}

#[test]
fn empty_list_accepts_only_add_and_quit() {
    let mut s = State::new();
    let out = s.handle_key(plain(KeyCode::Down));
    assert!(!out.render && !out.hide);
    let out = s.handle_key(plain(KeyCode::Char(' ')));
    assert!(!out.render && !out.hide);
    let out = s.handle_key(plain(KeyCode::Char('q')));
    assert!(!out.render && out.hide);
    let out = s.handle_key(plain(KeyCode::Char('a')));
    assert!(out.render && !out.hide);
    assert_eq!(s.mode, Mode::Edit);
    assert_eq!(s.items.len(), 1);
}

#[test]
fn add_on_finished_item_snaps_to_finished_tier_top() {
    let mut s = loaded(vec![
        item(0, "a", false, 0),
        item(1, "b", true, 1),
        item(2, "c", true, 2),
    ]);
    s.selected_index = 2;
    s.handle_key(plain(KeyCode::Char('a')));
    assert_eq!(s.selected_index, 1);
    assert_eq!(s.items[1].id, 3);
    assert_eq!(s.items[1].display_order, 3);
    assert!(!s.items[1].done);
}

#[test]
fn add_on_open_item_goes_above_cursor() {
    let mut s = loaded(vec![item(0, "a", false, 0), item(1, "b", false, 1)]);
    s.selected_index = 1;
    s.handle_key(plain(KeyCode::Char('a')));
    assert_eq!(s.selected_index, 1);
    assert_eq!(ids(&s), vec![0, 2, 1]);
}

#[test]
fn delete_last_item_clamps_cursor() {
    let mut s = loaded(vec![item(0, "a", false, 0), item(1, "b", false, 1)]);
    s.selected_index = 1;
    s.handle_key(plain(KeyCode::Delete));
    assert_eq!(ids(&s), vec![0]);
    assert_eq!(s.selected_index, 0);
    s.handle_key(plain(KeyCode::Backspace));
    assert!(s.items.is_empty());
}

#[test]
fn keys_release_grab_first() {
    let mut s = loaded(vec![item(0, "a", false, 0), item(1, "b", false, 1)]);
    for code in [KeyCode::Char(' '), KeyCode::Char('a'), KeyCode::Enter, KeyCode::Delete, KeyCode::Esc] {
        s.handle_key(plain(KeyCode::Char('g')));
        assert_eq!(s.grabbed_item_id, Some(0));
        let out = s.handle_key(plain(code));
        assert!(out.render && !out.hide);
        assert_eq!(s.grabbed_item_id, None);
        assert_eq!(s.items.len(), 2);
        assert_eq!(s.mode, Mode::Normal);
        assert!(!s.items[0].done);
    }
}

#[test]
fn cursor_moves_are_clamped() {
    let mut s = loaded(vec![item(0, "a", false, 0), item(1, "b", false, 1)]);
    s.handle_key(plain(KeyCode::Char('k')));
    assert_eq!(s.selected_index, 0);
    s.handle_key(plain(KeyCode::Char('j')));
    assert_eq!(s.selected_index, 1);
    s.handle_key(plain(KeyCode::Down));
    assert_eq!(s.selected_index, 1);
}

#[test]
fn escape_and_ctrl_k_hide() {
    let mut s = loaded(vec![item(0, "a", false, 0)]);
    let out = s.handle_key(plain(KeyCode::Esc));
    assert!(out.hide && !out.render);
    let out = s.handle_key(Key { code: KeyCode::Char('k'), modifiers: Modifiers::Ctrl });
    assert!(out.hide && !out.render);
    let out = s.handle_key(Key { code: KeyCode::Char('x'), modifiers: Modifiers::Ctrl });
    assert!(!out.hide && !out.render);
}

#[test]
fn command_decoding() {
    assert_eq!(normal_command(plain(KeyCode::Char('j')), false), Command::MoveDown);
    assert_eq!(normal_command(plain(KeyCode::Char('j')), true), Command::Ignore);
    assert_eq!(normal_command(plain(KeyCode::Char('a')), true), Command::AddItem);
    assert_eq!(
        normal_command(Key { code: KeyCode::Char('a'), modifiers: Modifiers::Other }, false),
        Command::Ignore
    );
    assert_eq!(normal_command(plain(KeyCode::Backspace), false), Command::DeleteCurrent);
}

#[test]
fn edit_mode_ignores_modified_keys() {
    let mut s = State::new();
    s.handle_key(plain(KeyCode::Char('a')));
    let out = s.handle_key(Key { code: KeyCode::Char('z'), modifiers: Modifiers::Ctrl });
    assert!(!out.render);
    assert_eq!(s.edit_buffer, "");
    let out = s.handle_key(plain(KeyCode::Up));
    assert!(!out.render);
}

#[test]
fn visible_window_scrolls_only_when_needed() {
    assert_eq!(visible_range(0, 5, 3), (0, 3));
    assert_eq!(visible_range(4, 5, 10), (0, 5));
    assert_eq!(visible_range(5, 5, 10), (1, 6));
    assert_eq!(visible_range(9, 5, 10), (5, 10));
    assert_eq!(visible_range(2, 0, 4), (2, 2));
}

#[test]
fn sort_keeps_cursor_slot() {
    let mut s = State::new();
    s.load_todos(vec![item(0, "a", false, 0)]);
    s.items = vec![item(0, "done", true, 0), item(1, "open", false, 1)];
    s.selected_index = 0;
    s.sort_items();
    assert_eq!(ids(&s), vec![1, 0]);
    assert_eq!(s.selected_index, 0);
}

#[test]
fn load_puts_cursor_on_first_row() {
    let s = loaded(vec![item(0, "a", true, 0), item(1, "b", false, 1)]);
    assert_eq!(ids(&s), vec![1, 0]);
    assert_eq!(s.selected_index, 0);
}

#[test]
fn deleting_grabbed_item_releases_grab() {
    let mut s = loaded(vec![item(0, "a", false, 0), item(1, "b", false, 1)]);
    s.toggle_grab();
    assert_eq!(s.grabbed_item_id, Some(0));
    s.delete_current_item();
    assert_eq!(s.grabbed_item_id, None);
    assert_eq!(ids(&s), vec![1]);
}

#[test]
fn deleting_other_item_keeps_grab() {
    let mut s = loaded(vec![item(0, "a", false, 0), item(1, "b", false, 1)]);
    s.toggle_grab();
    s.selected_index = 1;
    s.delete_current_item();
    assert_eq!(s.grabbed_item_id, Some(0));
}

#[test]
fn commit_trims_unicode_white_space() {
    let mut s = State::new();
    s.handle_key(plain(KeyCode::Char('a')));
    type_text(&mut s, "\u{3000}\u{a0}\t");
    s.handle_key(plain(KeyCode::Enter));
    assert!(s.items.is_empty());
}

#[test]
fn typing_keeps_cursor() {
    let mut s = loaded(vec![item(0, "a", false, 0), item(1, "b", false, 1)]);
    s.selected_index = 1;
    s.handle_key(plain(KeyCode::Enter));
    type_text(&mut s, "qajk ");
    assert_eq!(s.selected_index, 1);
    assert_eq!(s.edit_buffer, "qajk ");
    assert_eq!(s.mode, Mode::Edit);
}
