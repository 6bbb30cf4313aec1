use envfetch::interactive::{InteractiveMode, KeyCode, KeyEvent, Mode};
use envfetch::store::Store;

fn sample_store() -> Store {
    let mut pairs: Vec<(String, String)> = Vec::new();
    let mut i = 0;
    while i < 12 {
        pairs.push((format!("VAR{}", i), format!("value{}", i)));
        i += 1;
    }
    Store::from_pairs(&pairs)
}

fn create_key_event(code: KeyCode, ctrl: bool) -> KeyEvent {
    KeyEvent { code, ctrl }
}

// Initialization and default tests
#[test]
fn test_mode_default() {
    assert!(matches!(Mode::default(), Mode::List));
}

#[test]
fn test_interactive_mode_default() {
    let mode = InteractiveMode::init(sample_store());
    assert!(!mode.exit);
    assert_eq!(mode.current_index, 0);
    assert_eq!(mode.scroll_offset, 0);
    assert_eq!(mode.value_scroll_offset, 0);
    assert_eq!(mode.visible_options, 30);
    assert_eq!(mode.truncation_len, 30);
    assert!(!mode.entries.is_empty());
}

// Navigation tests
#[test]
fn test_navigation_down() {
    let mut mode = InteractiveMode::init(sample_store());
    let initial_index = mode.current_index;
    mode.down();
    assert_eq!(mode.current_index, initial_index + 1);
    assert_eq!(mode.value_scroll_offset, 0);
}

#[test]
fn test_navigation_up() {
    let mut mode = InteractiveMode::init(sample_store());
    mode.down(); // Move down first
    let initial_index = mode.current_index;
    mode.up();
    assert_eq!(mode.current_index, initial_index - 1);
    assert_eq!(mode.value_scroll_offset, 0);
}

#[test]
fn test_navigation_up_at_top() {
    let mut mode = InteractiveMode::init(sample_store());
    mode.up(); // Try moving up at index 0
    assert_eq!(mode.current_index, 0);
}

#[test]
fn test_navigation_down_at_bottom() {
    let mut mode = InteractiveMode::init(sample_store());
    let max_index = mode.entries.len() - 1;

    // Move to bottom
    for _ in 0..max_index + 10 {
        mode.down();
    }

    assert_eq!(mode.current_index, max_index);
}

// Scrolling tests
#[test]
fn test_scroll_offset_down() {
    let mut mode = InteractiveMode::init(sample_store());
    mode.visible_options = 5; // Small window to test scrolling

    // Move down enough to trigger scroll
    for _ in 0..10 {
        mode.down();
    }

    assert!(mode.scroll_offset > 0);
}

#[test]
fn test_scroll_offset_up() {
    let mut mode = InteractiveMode::init(sample_store());
    mode.visible_options = 5;

    // Move down then up to test scroll
    for _ in 0..10 {
        mode.down();
    }
    let scroll_offset = mode.scroll_offset;

    for _ in 0..5 {
        mode.up();
    }

    assert!(mode.scroll_offset < scroll_offset);
}

// Value scrolling tests
#[test]
fn test_value_scroll() {
    let mut mode = InteractiveMode::init(sample_store());
    mode.entries.push(("TEST".to_string(), "a".repeat(100)));
    mode.current_index = mode.entries.len() - 1;

    mode.scroll_value_right();
    assert!(mode.value_scroll_offset > 0);

    mode.scroll_value_left();
    assert_eq!(mode.value_scroll_offset, 0);
}

#[test]
fn test_value_scroll_boundaries() {
    let mut mode = InteractiveMode::init(sample_store());
    mode.entries.push(("TEST".to_string(), "short".to_string()));
    mode.current_index = mode.entries.len() - 1;

    // Test right boundary
    for _ in 0..10 {
        mode.scroll_value_right();
    }
    assert!(mode.value_scroll_offset <= 5); // "short".len()

    // Test left boundary
    for _ in 0..10 {
        mode.scroll_value_left();
    }
    assert_eq!(mode.value_scroll_offset, 0);
}

// Key event handling tests
#[test]
fn test_key_events() {
    let mut mode = InteractiveMode::init(sample_store());

    // Test all key combinations
    let test_keys = vec![
        (KeyCode::Down, false),
        (KeyCode::Up, false),
        (KeyCode::Left, false),
        (KeyCode::Right, false),
        (KeyCode::Char('q'), true),
        (KeyCode::Char('r'), true),
        (KeyCode::Char('x'), false), // Invalid key
    ];

    for (code, ctrl) in test_keys {
        mode.handle_key_event(create_key_event(code, ctrl));
    }
}

// Reload functionality tests
#[test]
fn test_reload() {
    let mut mode = InteractiveMode::init(sample_store());
    mode.current_index = 1;
    mode.scroll_offset = 1;
    mode.value_scroll_offset = 1;

    mode.reload();

    assert_eq!(mode.current_index, 0);
    assert_eq!(mode.scroll_offset, 0);
    assert_eq!(mode.value_scroll_offset, 0);
    assert!(!mode.entries.is_empty());
}

// Edge cases
#[test]
fn test_empty_entries() {
    let mut mode = InteractiveMode::init(sample_store());
    mode.entries.clear();

    mode.down();
    assert_eq!(mode.current_index, 0);

    mode.up();
    assert_eq!(mode.current_index, 0);
}

#[test]
fn test_interactive_mode_init() {
    let mode = InteractiveMode::init(sample_store());
    assert!(!mode.entries.is_empty());
    assert_eq!(mode.current_index, 0);
    assert_eq!(mode.scroll_offset, 0);
}

#[test]
fn test_handle_events_quit() {
    let mut mode = InteractiveMode::init(sample_store());
    let event = create_key_event(KeyCode::Char('q'), true);
    mode.handle_key_event(event);
    assert!(mode.exit);
}

#[test]
fn test_handle_events_navigation() {
    let mut mode = InteractiveMode::init(sample_store());
    let initial_index = mode.current_index;

    // Test down arrow
    mode.handle_key_event(create_key_event(KeyCode::Down, false));
    assert_eq!(mode.current_index, initial_index + 1);

    // Test up arrow
    mode.handle_key_event(create_key_event(KeyCode::Up, false));
    assert_eq!(mode.current_index, initial_index);
}

#[test]
fn test_string_list_filter() {
    let entries = vec![
        ("TEST1".to_string(), "value1".to_string()),
        ("TEST2".to_string(), "value2".to_string()),
        ("OTHER".to_string(), "value3".to_string()),
    ];

    let mode = InteractiveMode {
        entries,
        ..Default::default()
    };

    assert!(!mode.entries.is_empty());
    assert_eq!(mode.entries.len(), 3);
}

// Editing flows
#[test]
fn test_edit_value_commit() {
    let store = Store::from_pairs(&vec![("ALPHA".to_string(), "one".to_string())]);
    let mut mode = InteractiveMode::init(store);
    mode.handle_key_event(create_key_event(KeyCode::Char('v'), false));
    assert!(matches!(mode.mode, Mode::EditValue));
    assert_eq!(mode.input_buffer, "one");
    for c in " two ".chars() {
        mode.handle_key_event(create_key_event(KeyCode::Char(c), false));
    }
    mode.handle_key_event(create_key_event(KeyCode::Enter, false));
    assert!(matches!(mode.mode, Mode::List));
    assert_eq!(mode.store.get_value("ALPHA").unwrap(), "one two");
    assert_eq!(mode.entries[0].1, "one two");
}

#[test]
fn test_edit_key_commit_renames() {
    let store = Store::from_pairs(&vec![("OLDNAME".to_string(), "kept".to_string())]);
    let mut mode = InteractiveMode::init(store);
    mode.handle_key_event(create_key_event(KeyCode::Char('e'), false));
    assert!(matches!(mode.mode, Mode::EditKey));
    assert_eq!(mode.input_buffer, "OLDNAME");
    for _ in 0..7 {
        mode.handle_key_event(create_key_event(KeyCode::Backspace, false));
    }
    for c in "NEWNAME".chars() {
        mode.handle_key_event(create_key_event(KeyCode::Char(c), false));
    }
    mode.handle_key_event(create_key_event(KeyCode::Enter, false));
    assert!(matches!(mode.mode, Mode::List));
    assert!(mode.store.get_value("OLDNAME").is_none());
    assert_eq!(mode.store.get_value("NEWNAME").unwrap(), "kept");
}

#[test]
fn test_edit_key_empty_buffer_ignored() {
    let store = Store::from_pairs(&vec![("ALPHA".to_string(), "one".to_string())]);
    let mut mode = InteractiveMode::init(store);
    mode.handle_key_event(create_key_event(KeyCode::Char('e'), false));
    for _ in 0..10 {
        mode.handle_key_event(create_key_event(KeyCode::Backspace, false));
    }
    mode.handle_key_event(create_key_event(KeyCode::Enter, false));
    // An empty buffer commits nothing and stays in the edit pane.
    assert!(matches!(mode.mode, Mode::EditKey));
    assert_eq!(mode.store.get_value("ALPHA").unwrap(), "one");
}

#[test]
fn test_create_new_commit() {
    let store = Store::from_pairs(&vec![("ALPHA".to_string(), "one".to_string())]);
    let mut mode = InteractiveMode::init(store);
    mode.handle_key_event(create_key_event(KeyCode::Char('n'), false));
    assert!(matches!(mode.mode, Mode::CreateNew));
    assert_eq!(mode.input_buffer, "");
    for c in "FRESH = brand new ".chars() {
        mode.handle_key_event(create_key_event(KeyCode::Char(c), false));
    }
    mode.handle_key_event(create_key_event(KeyCode::Enter, false));
    assert!(matches!(mode.mode, Mode::List));
    assert_eq!(mode.store.get_value("FRESH").unwrap(), "brand new");
    assert_eq!(mode.entries.len(), 2);
}

#[test]
fn test_create_new_without_separator_ignored() {
    let store = Store::from_pairs(&vec![("ALPHA".to_string(), "one".to_string())]);
    let mut mode = InteractiveMode::init(store);
    mode.handle_key_event(create_key_event(KeyCode::Char('n'), false));
    for c in "NOSEPARATOR".chars() {
        mode.handle_key_event(create_key_event(KeyCode::Char(c), false));
    }
    mode.handle_key_event(create_key_event(KeyCode::Enter, false));
    assert!(matches!(mode.mode, Mode::CreateNew));
    assert_eq!(mode.entries.len(), 1);
}

#[test]
fn test_delete_selected_entry() {
    let store = Store::from_pairs(&vec![
        ("ALPHA".to_string(), "one".to_string()),
        ("BETA".to_string(), "two".to_string()),
    ]);
    let mut mode = InteractiveMode::init(store);
    mode.handle_key_event(create_key_event(KeyCode::Down, false));
    mode.handle_key_event(create_key_event(KeyCode::Char('d'), false));
    assert!(mode.store.get_value("BETA").is_none());
    assert_eq!(mode.entries.len(), 1);
    assert_eq!(mode.current_index, 0);
    assert!(mode.error_message.is_none());
}

#[test]
fn test_escape_cancels_edit() {
    let store = Store::from_pairs(&vec![("ALPHA".to_string(), "one".to_string())]);
    let mut mode = InteractiveMode::init(store);
    mode.handle_key_event(create_key_event(KeyCode::Char('v'), false));
    for c in "ignored".chars() {
        mode.handle_key_event(create_key_event(KeyCode::Char(c), false));
    }
    mode.handle_key_event(create_key_event(KeyCode::Esc, false));
    assert!(matches!(mode.mode, Mode::List));
    assert_eq!(mode.store.get_value("ALPHA").unwrap(), "one");
}

#[test]
fn test_selected_value_window() {
    let store = Store::from_pairs(&vec![("ALPHA".to_string(), "abcdefghij".to_string())]);
    let mut mode = InteractiveMode::init(store);
    mode.truncation_len = 4;
    assert_eq!(mode.selected_value_view(), "abcd");
    mode.scroll_value_right();
    mode.scroll_value_right();
    assert_eq!(mode.selected_value_view(), "cdef");
    let (start, end) = mode.visible_window();
    assert_eq!((start, end), (0, 1));
}
