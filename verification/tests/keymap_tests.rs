use slingshot::{
    handle_key, handle_key_code_insert, handle_key_modifier, AppMode, AppState, FileData, Key,
    KeyAction, KeybindMode, Modifier,
};

fn gen_test_file_data(names: Vec<&str>) -> Vec<FileData> {
    let mut out: Vec<FileData> = Vec::new();
    for name in names {
        out.push(FileData {
            shortname: name.to_owned(),
            absolute: format!("/Test/test_dir/{}", name),
            icon: "".to_owned(),
            extension: "".to_owned(),
            marked_for_deletion: false,
        });
    }
    out
}

fn test_state(names: Vec<&str>) -> AppState {
    let files = gen_test_file_data(names);
    AppState {
        app_mode: AppMode::FileExplorer,
        keybind_mode: KeybindMode::Normal,
        curr_absolute_path: "/Test/test_dir".to_owned(),
        inner_paths: files.clone(),
        displayed_paths: files,
        selected_index: 0,
        user_input: "".to_owned(),
        message: "".to_owned(),
        command_mode: false,
    }
}

#[test]
fn test_i_and_a_enter_insert_mode() {
    for c in ['i', 'a'] {
        let mut state = test_state(vec!["a"]);
        let action = handle_key(Key::Char(c), &mut state);
        assert!(matches!(action, KeyAction::Done));
        assert_eq!(state.keybind_mode, KeybindMode::Insert);
    }
}

#[test]
fn test_j_and_k_move_cursor() {
    let mut state = test_state(vec!["a", "b", "c"]);
    handle_key(Key::Char('j'), &mut state);
    assert_eq!(state.selected_index, 1);
    handle_key(Key::Char('k'), &mut state);
    assert_eq!(state.selected_index, 0);
    handle_key(Key::Char('k'), &mut state);
    assert_eq!(state.selected_index, 2);
}

#[test]
fn test_h_asks_for_parent_navigation() {
    let mut state = test_state(vec!["a"]);
    match handle_key(Key::Char('h'), &mut state) {
        KeyAction::NavigateTo { path } => assert_eq!(path, "/Test"),
        _ => panic!("expected a navigation request"),
    }
}

#[test]
fn test_y_asks_to_delete_marked() {
    let mut state = test_state(vec!["a", "b"]);
    handle_key(Key::Char('d'), &mut state);
    match handle_key(Key::Char('y'), &mut state) {
        KeyAction::Delete { paths } => {
            assert_eq!(paths, vec!["/Test/test_dir/a".to_owned()]);
        }
        _ => panic!("expected a delete request"),
    }
}

#[test]
fn test_unknown_key_reports_unsupported() {
    let mut state = test_state(vec!["a"]);
    let action = handle_key(Key::Char('q'), &mut state);
    assert!(matches!(action, KeyAction::Done));
    assert_eq!(state.message, "Unsupported input.");
}

#[test]
fn test_insert_mode_typing_filters() {
    let mut state = test_state(vec!["alpha", "beta", "abel"]);
    handle_key(Key::Char('i'), &mut state);
    handle_key(Key::Char('b'), &mut state);
    assert_eq!(state.user_input, "b");
    let names: Vec<&str> = state
        .displayed_paths
        .iter()
        .map(|fd| fd.shortname.as_str())
        .collect();
    // "beta" matches at position zero, "abel" at position one.
    assert_eq!(names, vec!["beta", "abel"]);
}

#[test]
fn test_escape_restores_overfiltered_view() {
    let mut state = test_state(vec!["alpha", "beta"]);
    handle_key(Key::Char('i'), &mut state);
    for c in ['z', 'z'] {
        handle_key(Key::Char(c), &mut state);
    }
    assert_eq!(state.displayed_paths.len(), 0);
    handle_key(Key::Esc, &mut state);
    assert_eq!(state.keybind_mode, KeybindMode::Normal);
    assert_eq!(state.user_input, "");
    assert_eq!(state.displayed_paths.len(), 2);
}

#[test]
fn test_escape_with_results_only_leaves_insert() {
    let mut state = test_state(vec!["alpha", "beta"]);
    handle_key(Key::Char('i'), &mut state);
    handle_key(Key::Char('a'), &mut state);
    handle_key(Key::Esc, &mut state);
    assert_eq!(state.keybind_mode, KeybindMode::Normal);
    assert_eq!(state.user_input, "a");
}

#[test]
fn test_control_n_toggles_command_panel() {
    let mut state = test_state(vec!["a"]);
    let action = handle_key_modifier(Key::Char('n'), Modifier::Control, &mut state);
    assert!(matches!(action, KeyAction::Refresh));
    assert_eq!(state.app_mode, AppMode::Command);
    assert_eq!(state.keybind_mode, KeybindMode::Insert);
    let action = handle_key_modifier(Key::Char('n'), Modifier::Control, &mut state);
    assert!(matches!(action, KeyAction::Refresh));
    assert_eq!(state.app_mode, AppMode::FileExplorer);
}

#[test]
fn test_control_c_quits() {
    let mut state = test_state(vec!["a"]);
    let action = handle_key_modifier(Key::Char('c'), Modifier::Control, &mut state);
    assert!(matches!(action, KeyAction::Quit));
}

#[test]
fn test_command_enter_through_keymap() {
    let mut state = test_state(vec![]);
    state.app_mode = AppMode::Command;
    state.keybind_mode = KeybindMode::Insert;
    for c in ['e', 'c', 'h', 'o', ' ', 't', 'e', 's', 't'] {
        handle_key_code_insert(Key::Char(c), &mut state);
    }
    match handle_key_code_insert(Key::Enter, &mut state) {
        KeyAction::RunCommand { tokens } => {
            assert_eq!(tokens, vec!["echo".to_owned(), "test".to_owned()]);
        }
        _ => panic!("expected a command"),
    }
    assert_eq!(state.user_input, "");
    // The surroundings ran it and handed the output back.
    state.apply_command_output("test\n", "");
    assert_eq!(state.message, "test");
}

#[test]
fn test_other_modifier_is_ignored() {
    let mut state = test_state(vec!["a"]);
    let before = state.message.clone();
    let action = handle_key_modifier(Key::Char('x'), Modifier::Other, &mut state);
    assert!(matches!(action, KeyAction::Done));
    assert_eq!(state.message, before);
}
