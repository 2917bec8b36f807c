use todo_tui::dispatch::{add_new_hander, handle_key, key_handler, screen_for, Screen};
use todo_tui::state::{AppState, FormAction, Key, TodoItem};

fn type_text(state: &mut AppState, text: &str) {
    for c in text.chars() {
        let quit = handle_key(state, Key::Char(c));
        assert!(!quit);
    }
}

fn add_item(state: &mut AppState, text: &str) {
    assert!(!handle_key(state, Key::Char('A')));
    type_text(state, text);
    assert!(!handle_key(state, Key::Enter));
}

#[test]
fn first_item_gets_ordinal_one() {
    let mut state = AppState::new();
    add_item(&mut state, "buy milk");
    assert_eq!(state.items.len(), 1);
    assert_eq!(state.items[0].description, "1. buy milk");
    assert!(!state.items[0].is_done);
    assert_eq!(state.selection, Some(0));
    assert!(!state.is_add_new);
}

#[test]
fn second_item_gets_ordinal_two() {
    let mut state = AppState::new();
    add_item(&mut state, "buy milk");
    add_item(&mut state, "call mom");
    assert_eq!(state.items.len(), 2);
    assert_eq!(state.items[1].description, "2. call mom");
    assert_eq!(state.selection, Some(1));
}

#[test]
fn delete_middle_keeps_index_and_shifts() {
    let mut state = AppState::new();
    add_item(&mut state, "one");
    add_item(&mut state, "two");
    add_item(&mut state, "three");
    // selection sits on index 2; move it to index 1
    assert!(!handle_key(&mut state, Key::Up));
    assert_eq!(state.selection, Some(1));
    assert!(!handle_key(&mut state, Key::Char('D')));
    assert_eq!(state.items.len(), 2);
    assert_eq!(state.selection, Some(1));
    assert_eq!(state.items[0].description, "1. one");
    assert_eq!(state.items[1].description, "3. three");
}

#[test]
fn delete_only_item_clears_selection() {
    let mut state = AppState::new();
    add_item(&mut state, "one");
    assert_eq!(state.selection, Some(0));
    assert!(!handle_key(&mut state, Key::Char('D')));
    assert_eq!(state.items.len(), 0);
    assert_eq!(state.selection, None);
}

#[test]
fn delete_last_row_moves_selection_up() {
    let mut state = AppState::new();
    add_item(&mut state, "one");
    add_item(&mut state, "two");
    assert_eq!(state.selection, Some(1));
    assert!(!handle_key(&mut state, Key::Char('D')));
    assert_eq!(state.items.len(), 1);
    assert_eq!(state.selection, Some(0));
}

#[test]
fn cancel_discards_draft_and_items_stay() {
    let mut state = AppState::new();
    add_item(&mut state, "one");
    assert!(!handle_key(&mut state, Key::Char('A')));
    type_text(&mut state, "abc");
    assert!(state.is_add_new);
    assert!(!handle_key(&mut state, Key::Esc));
    assert!(!state.is_add_new);
    assert_eq!(state.input_value, "");
    assert_eq!(state.items.len(), 1);
    assert_eq!(state.items[0].description, "1. one");
}

#[test]
fn move_down_on_empty_list_is_noop() {
    let mut state = AppState::new();
    assert!(!handle_key(&mut state, Key::Down));
    assert_eq!(state.selection, None);
    assert_eq!(state.items.len(), 0);
}

#[test]
fn move_up_on_empty_list_is_noop() {
    let mut state = AppState::new();
    assert!(!handle_key(&mut state, Key::Up));
    assert_eq!(state.selection, None);
}

#[test]
fn toggle_sets_and_second_toggle_restores() {
    let mut state = AppState::new();
    add_item(&mut state, "one");
    assert!(!state.items[0].is_done);
    assert!(!handle_key(&mut state, Key::Enter));
    assert!(state.items[0].is_done);
    assert!(!handle_key(&mut state, Key::Enter));
    assert!(!state.items[0].is_done);
    assert_eq!(state.items[0].description, "1. one");
}

#[test]
fn toggle_on_empty_list_is_noop() {
    let mut state = AppState::new();
    assert!(!handle_key(&mut state, Key::Enter));
    assert_eq!(state.items.len(), 0);
    assert_eq!(state.selection, None);
}

#[test]
fn delete_preserves_order_of_survivors() {
    let mut state = AppState::new();
    add_item(&mut state, "one");
    add_item(&mut state, "two");
    add_item(&mut state, "three");
    assert!(!handle_key(&mut state, Key::Up));
    assert!(!handle_key(&mut state, Key::Up));
    assert_eq!(state.selection, Some(0));
    assert!(!handle_key(&mut state, Key::Char('D')));
    assert_eq!(state.items.len(), 2);
    assert_eq!(state.items[0].description, "2. two");
    assert_eq!(state.items[1].description, "3. three");
}

#[test]
fn selection_absent_exactly_on_empty_list() {
    let mut state = AppState::new();
    assert!(state.selection.is_none());
    add_item(&mut state, "one");
    assert!(state.selection.is_some());
    add_item(&mut state, "two");
    assert!(state.selection.is_some());
    assert!(!handle_key(&mut state, Key::Char('D')));
    assert!(state.selection.is_some());
    assert!(!handle_key(&mut state, Key::Char('D')));
    assert!(state.selection.is_none());
    assert_eq!(state.items.len(), 0);
}

#[test]
fn movement_clamps_at_both_ends() {
    let mut state = AppState::new();
    add_item(&mut state, "one");
    add_item(&mut state, "two");
    add_item(&mut state, "three");
    for _ in 0..5 {
        assert!(!handle_key(&mut state, Key::Down));
    }
    assert_eq!(state.selection, Some(2));
    for _ in 0..5 {
        assert!(!handle_key(&mut state, Key::Up));
    }
    assert_eq!(state.selection, Some(0));
}

#[test]
fn quit_keys_in_browsing() {
    let mut state = AppState::new();
    assert!(handle_key(&mut state, Key::Esc));
    let mut state = AppState::new();
    assert!(handle_key(&mut state, Key::Char('q')));
}

#[test]
fn escape_in_entry_mode_does_not_quit() {
    let mut state = AppState::new();
    assert!(!handle_key(&mut state, Key::Char('A')));
    assert!(!handle_key(&mut state, Key::Esc));
    assert!(!state.is_add_new);
}

#[test]
fn unbound_key_is_noop_in_browsing() {
    let mut state = AppState::new();
    add_item(&mut state, "one");
    assert!(!handle_key(&mut state, Key::Char('x')));
    assert_eq!(state.items.len(), 1);
    assert_eq!(state.selection, Some(0));
    assert!(!state.is_add_new);
}

#[test]
fn backspace_shortens_draft() {
    let mut state = AppState::new();
    assert!(!handle_key(&mut state, Key::Char('A')));
    type_text(&mut state, "ab");
    assert_eq!(state.input_value, "ab");
    assert!(!handle_key(&mut state, Key::Backspace));
    assert_eq!(state.input_value, "a");
    assert!(!handle_key(&mut state, Key::Delete));
    assert_eq!(state.input_value, "");
    assert!(!handle_key(&mut state, Key::Backspace));
    assert_eq!(state.input_value, "");
    assert!(state.is_add_new);
}

#[test]
fn malformed_prefix_falls_back_to_count() {
    let mut state = AppState {
        items: vec![
            TodoItem { is_done: false, description: String::from("one") },
            TodoItem { is_done: true, description: String::from("two") },
        ],
        selection: Some(0),
        is_add_new: false,
        input_value: String::new(),
    };
    add_item(&mut state, "new");
    assert_eq!(state.items[2].description, "3. new");
}

#[test]
fn ordinal_continues_from_last_item() {
    let mut state = AppState {
        items: vec![TodoItem { is_done: false, description: String::from("7. a") }],
        selection: Some(0),
        is_add_new: false,
        input_value: String::new(),
    };
    add_item(&mut state, "b");
    assert_eq!(state.items[1].description, "8. b");
    assert_eq!(state.selection, Some(1));
}

#[test]
fn screen_follows_mode() {
    let mut state = AppState::new();
    assert_eq!(screen_for(&state), Screen::TaskList);
    assert!(!handle_key(&mut state, Key::Char('A')));
    assert_eq!(screen_for(&state), Screen::InputForm);
    assert!(!handle_key(&mut state, Key::Esc));
    assert_eq!(screen_for(&state), Screen::TaskList);
}

#[test]
fn default_state_is_empty_and_browsing() {
    let state = AppState::default();
    assert_eq!(state.items.len(), 0);
    assert_eq!(state.selection, None);
    assert!(!state.is_add_new);
    assert_eq!(state.input_value, "");
}

#[test]
fn key_handler_reports_quit_only_for_quit_keys() {
    let mut state = AppState::new();
    assert!(key_handler(Key::Esc, &mut state));
    assert!(key_handler(Key::Char('q'), &mut state));
    assert!(!key_handler(Key::Down, &mut state));
    assert!(!key_handler(Key::Char('z'), &mut state));
}

#[test]
fn form_handler_reports_submit_and_escape() {
    let mut state = AppState::new();
    assert!(!handle_key(&mut state, Key::Char('A')));
    assert_eq!(add_new_hander(Key::Enter, &mut state), FormAction::Submit);
    assert_eq!(add_new_hander(Key::Esc, &mut state), FormAction::Escape);
    assert_eq!(add_new_hander(Key::Char('h'), &mut state), FormAction::Stay);
    assert_eq!(state.input_value, "h");
    assert_eq!(add_new_hander(Key::Up, &mut state), FormAction::Stay);
    assert_eq!(state.input_value, "h");
}

#[test]
fn next_ordinal_reads_last_item() {
    let empty = AppState::new();
    assert_eq!(empty.indicator_reminder(), 1);
    let state = AppState {
        items: vec![
            TodoItem { is_done: false, description: String::from("3. a") },
            TodoItem { is_done: false, description: String::from("9. b") },
        ],
        selection: Some(1),
        is_add_new: false,
        input_value: String::new(),
    };
    assert_eq!(state.indicator_reminder(), 10);
}
