use slingshot::{AppMode, AppState, CreateKind, CursorMove, EnterOutcome, FileData, KeybindMode};

fn gen_test_file_data(names: Vec<&str>) -> Vec<FileData> {
    let mut test_file_data: Vec<FileData> = Vec::new();
    for name in names {
        let fd = FileData {
            shortname: name.to_owned(),
            absolute: "".to_owned(),
            icon: "".to_owned(),
            extension: "".to_owned(),
            marked_for_deletion: false,
        };
        test_file_data.push(fd);
    }
    test_file_data
}

fn test_state(names: Vec<&str>, user_input: &str) -> AppState {
    let test_file_data = gen_test_file_data(names);
    AppState {
        app_mode: AppMode::FileExplorer,
        keybind_mode: KeybindMode::Normal,
        curr_absolute_path: "/Test/test_dir/".to_owned(),
        inner_paths: test_file_data.clone(),
        displayed_paths: test_file_data,
        selected_index: 0,
        user_input: user_input.to_owned(),
        message: "".to_owned(),
        command_mode: false,
    }
}

fn shortnames(files: &Vec<FileData>) -> Vec<String> {
    files.iter().map(|fd| fd.shortname.clone()).collect()
}

#[test]
fn test_handle_user_input_change() {
    let test_file_names: Vec<&str> = vec!["test.txt", "aaaatea.txt", "tomb.txt", "wow", "damn"];

    let test_file_data = gen_test_file_data(test_file_names);

    let mut app_state = AppState {
        app_mode: AppMode::FileExplorer,
        keybind_mode: KeybindMode::Normal,
        curr_absolute_path: "/Test/test_dir/".to_owned(),
        inner_paths: test_file_data.clone(),
        displayed_paths: test_file_data,
        selected_index: 0,
        user_input: "".to_owned(),
        message: "".to_owned(),
        command_mode: false,
    };

    struct TestCase {
        input_char: char,
        expected_user_input: &'static str,
        expected_file_names: Vec<&'static str>,
    }

    let test_cases: Vec<TestCase> = vec![
        TestCase {
            input_char: 't',
            expected_user_input: "t",
            expected_file_names: vec!["test.txt", "tomb.txt", "aaaatea.txt"],
        },
        TestCase {
            input_char: 'e',
            expected_user_input: "te",
            expected_file_names: vec!["test.txt", "aaaatea.txt"],
        },
        TestCase {
            input_char: '.',
            expected_user_input: "te.",
            expected_file_names: vec![],
        },
    ];

    for (i, test_case) in test_cases.iter().enumerate() {
        app_state.handle_user_input_change(test_case.input_char);
        println!("{} {}", i, app_state.user_input);
        assert_eq!(
            test_case.expected_user_input.to_owned(),
            app_state.user_input
        );
        let file_names: Vec<&str> = app_state
            .displayed_paths
            .iter()
            .map(|fd| fd.shortname.as_str())
            .collect();
        assert_eq!(test_case.expected_file_names, file_names)
    }
}

#[test]
fn test_handle_backspace() {
    let test_file_names: Vec<&str> = vec!["test.txt", "aaaatea.txt", "tomb.txt", "wow", "damn"];
    let test_file_data = gen_test_file_data(test_file_names);

    let mut app_state = AppState {
        app_mode: AppMode::FileExplorer,
        keybind_mode: KeybindMode::Normal,
        curr_absolute_path: "/Test/test_dir/".to_owned(),
        inner_paths: test_file_data.clone(),
        displayed_paths: test_file_data,
        selected_index: 0,
        user_input: "test".to_owned(),
        message: "".to_owned(),
        command_mode: false,
    };

    struct TestCase {
        expected_term: &'static str,
        expected_file_names: Vec<&'static str>,
    }

    let test_cases: Vec<TestCase> = vec![
        TestCase {
            expected_term: "tes",
            expected_file_names: vec!["test.txt"],
        },
        TestCase {
            expected_term: "te",
            expected_file_names: vec!["test.txt", "aaaatea.txt"],
        },
        TestCase {
            expected_term: "t",
            expected_file_names: vec!["test.txt", "tomb.txt", "aaaatea.txt"],
        },
    ];

    for test_case in test_cases {
        app_state.handle_backspace();
        let file_names: Vec<&str> = app_state
            .displayed_paths
            .iter()
            .map(|fd| fd.shortname.as_str())
            .collect();
        assert_eq!(test_case.expected_term, app_state.user_input);
        assert_eq!(test_case.expected_file_names, file_names);
    }
}

#[test]
fn test_input_round_trip_restores_view() {
    let mut state = test_state(vec!["test.txt", "aaaatea.txt", "tomb.txt", "wow", "damn"], "");
    // Establish the derived view for the empty term first.
    state.displayed_paths = slingshot::filter_file_data(&state.inner_paths, "");
    let before_input = state.user_input.clone();
    let before_names = shortnames(&state.displayed_paths);

    for c in ['a', 'b', 'c'] {
        state.handle_user_input_change(c);
    }
    for _ in 0..3 {
        state.handle_backspace();
    }

    assert_eq!(state.user_input, before_input);
    assert_eq!(shortnames(&state.displayed_paths), before_names);
}

#[test]
fn test_cursor_wraps_around() {
    let mut state = test_state(vec!["a", "b", "c"], "");
    state.selected_index = 2;
    state.update_selected_index(CursorMove::Down);
    assert_eq!(state.selected_index, 0);
    state.update_selected_index(CursorMove::Up);
    assert_eq!(state.selected_index, 2);
    state.update_selected_index(CursorMove::Down);
    assert_eq!(state.selected_index, 0);
    state.update_selected_index(CursorMove::Up);
    assert_eq!(state.selected_index, 2);
    state.update_selected_index(CursorMove::Up);
    assert_eq!(state.selected_index, 1);
}

#[test]
fn test_cursor_on_empty_list_stays() {
    let mut state = test_state(vec![], "");
    state.update_selected_index(CursorMove::Down);
    assert_eq!(state.selected_index, 0);
    state.update_selected_index(CursorMove::Up);
    assert_eq!(state.selected_index, 0);
}

#[test]
fn test_navigation_round_trip() {
    let mut state = test_state(vec!["dir1", "file.txt"], "");
    state.curr_absolute_path = "/Test/test_dir".to_owned();
    let original_path = state.curr_absolute_path.clone();
    let original_names = shortnames(&state.inner_paths);

    // Enter the child directory: the surroundings list it and complete the
    // move.
    let child_listing = gen_test_file_data(vec!["inner.txt"]);
    state.update_post_move("/Test/test_dir/dir1", Ok(child_listing));
    assert_eq!(state.curr_absolute_path, "/Test/test_dir/dir1");
    assert_eq!(shortnames(&state.inner_paths), vec!["inner.txt"]);
    assert_eq!(state.selected_index, 0);
    assert_eq!(state.user_input, "");

    // Go back: the parent path is computed from the current one, and the
    // old directory's listing restores the old entry set.
    let parent = state.parent_path();
    assert_eq!(parent, original_path);
    let old_listing = gen_test_file_data(vec!["dir1", "file.txt"]);
    state.update_post_move(&parent, Ok(old_listing));
    assert_eq!(state.curr_absolute_path, original_path);
    assert_eq!(shortnames(&state.inner_paths), original_names);
}

#[test]
fn test_create_confirmation() {
    let mut state = test_state(vec![], "");
    state.user_input = "testing.py".to_owned();
    let refreshed = gen_test_file_data(vec!["testing.py"]);
    state.handle_create(None, Ok(refreshed));
    assert!(shortnames(&state.inner_paths).contains(&"testing.py".to_owned()));
    assert_eq!(state.message, "File successfully created");
    assert_eq!(state.user_input, "");
}

#[test]
fn test_create_error_only_sets_message() {
    let mut state = test_state(vec!["a"], "");
    state.handle_create(Some("Permission denied".to_owned()), Ok(vec![]));
    assert_eq!(state.message, "Permission denied");
    assert_eq!(shortnames(&state.inner_paths), vec!["a"]);
}

#[test]
fn test_create_kind_heuristic() {
    assert_eq!(slingshot::state::create_kind("subdir/"), CreateKind::Directory);
    assert_eq!(slingshot::state::create_kind("a/b"), CreateKind::Directory);
    assert_eq!(slingshot::state::create_kind("testing.py"), CreateKind::File);
    // A name with neither slash nor dot creates nothing.
    assert_eq!(slingshot::state::create_kind("plainname"), CreateKind::Nothing);
    assert_eq!(slingshot::state::create_kind(""), CreateKind::Nothing);
}

#[test]
fn test_mark_and_confirm_delete() {
    let mut state = test_state(vec!["doomed.txt", "keeper.txt"], "");
    state.selected_index = 0;
    state.handle_mark_delete();
    assert!(state.displayed_paths[0].marked_for_deletion);
    assert_eq!(
        state.message,
        "Press Ctrl + Y to confirm deletion of files: [\"doomed.txt\"]"
    );
    let marked = state.marked_absolutes();
    assert_eq!(marked.len(), 1);

    // The surroundings removed the file and listed the directory again.
    let fresh = gen_test_file_data(vec!["keeper.txt"]);
    state.handle_confirm_delete(None, Ok(fresh));
    assert_eq!(state.message, "Files successfully removed");
    assert!(!shortnames(&state.displayed_paths).contains(&"doomed.txt".to_owned()));
    assert!(!shortnames(&state.inner_paths).contains(&"doomed.txt".to_owned()));
}

#[test]
fn test_mark_twice_unmarks() {
    let mut state = test_state(vec!["a.txt"], "");
    state.handle_mark_delete();
    assert!(state.displayed_paths[0].marked_for_deletion);
    state.handle_mark_delete();
    assert!(!state.displayed_paths[0].marked_for_deletion);
    assert_eq!(
        state.message,
        "Press Ctrl + Y to confirm deletion of files: []"
    );
}

#[test]
fn test_confirm_delete_error_keeps_entries() {
    let mut state = test_state(vec!["a.txt"], "");
    state.handle_mark_delete();
    state.handle_confirm_delete(Some("Read-only file system".to_owned()), Ok(vec![]));
    assert_eq!(state.message, "Read-only file system");
    assert_eq!(shortnames(&state.inner_paths), vec!["a.txt"]);
}

#[test]
fn test_update_paths_error_becomes_message() {
    let mut state = test_state(vec!["a"], "keep");
    state.update_paths(Err("No such directory".to_owned()));
    assert_eq!(state.message, "No such directory");
    assert_eq!(state.user_input, "keep");
    assert_eq!(shortnames(&state.inner_paths), vec!["a"]);
}

#[test]
fn test_toggle_command_mode_switches_panels() {
    let mut state = test_state(vec!["a"], "leftover");
    state.message = "old message".to_owned();
    state.toggle_command_mode();
    assert_eq!(state.app_mode, AppMode::Command);
    assert_eq!(state.user_input, "");
    assert_eq!(state.message, "");
    state.toggle_command_mode();
    assert_eq!(state.app_mode, AppMode::FileExplorer);
}

#[test]
fn test_unsupported_input_message() {
    let mut state = test_state(vec![], "");
    state.handle_unsupported_input();
    assert_eq!(state.message, "Unsupported input.");
}

#[test]
fn test_enter_in_command_mode_splits_tokens() {
    let mut state = test_state(vec![], "");
    state.app_mode = AppMode::Command;
    state.user_input = "echo test".to_owned();
    match state.handle_enter() {
        EnterOutcome::RunCommand { tokens } => {
            assert_eq!(tokens, vec!["echo".to_owned(), "test".to_owned()]);
        }
        _ => panic!("expected a command"),
    }
    assert_eq!(state.user_input, "");
}

#[test]
fn test_enter_on_empty_view_asks_to_create() {
    let mut state = test_state(vec![], "");
    state.user_input = "testing.py".to_owned();
    match state.handle_enter() {
        EnterOutcome::Create { kind, name } => {
            assert_eq!(kind, CreateKind::File);
            assert_eq!(name, "testing.py");
        }
        _ => panic!("expected a create request"),
    }
}

#[test]
fn test_enter_activates_selection() {
    let mut state = test_state(vec!["a", "b"], "");
    state.selected_index = 1;
    match state.handle_enter() {
        EnterOutcome::Activate { index } => assert_eq!(index, 1),
        _ => panic!("expected an activation"),
    }
}

#[test]
fn test_command_output_prefers_stdout() {
    let mut state = test_state(vec![], "");
    state.apply_command_output("  out \n", "err");
    assert_eq!(state.message, "out");
    state.apply_command_output("", "  some error\t");
    assert_eq!(state.message, "some error");
}

#[test]
fn test_parent_path_of_root_like_path() {
    let mut state = test_state(vec![], "");
    state.curr_absolute_path = "noslash".to_owned();
    assert_eq!(state.parent_path(), "");
    state.curr_absolute_path = "/only".to_owned();
    assert_eq!(state.parent_path(), "");
}
