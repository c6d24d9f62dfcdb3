//! The keymap: how one key event, with the current edit and panel mode,
//! becomes a state transition. Everything the state machine can do by itself
//! happens right here; whatever needs the filesystem, a terminal or another
//! process is handed back to the caller as a [`KeyAction`] to perform, whose
//! outcome returns through the completion methods on
//! [`crate::state::AppState`].

use vstd::prelude::*;

use crate::entry::views;
use crate::state::{
    backspace_rel, cursor_rel, enter_rel, esc_rel, input_change_rel, mark_rel, marked_paths,
    message_rel, toggle_rel, AppState, CreateKind, CursorMove, EnterOutcome, KeybindMode,
};
use crate::text::{parent_of, str_views};

verus! {

/// One key event, stripped to what the keymap reads. Every key the keymap
/// does not know folds into `Other`.
#[derive(Clone, Copy, Debug, PartialEq, Eq, Structural)]
pub enum Key {
    Char(char),
    Enter,
    Backspace,
    Esc,
    Up,
    Down,
    Left,
    Other,
}

/// A modifier chord held with a key. Every chord but control folds into
/// `Other`.
#[derive(Clone, Copy, Debug, PartialEq, Eq, Structural)]
pub enum Modifier {
    Control,
    Other,
}

/// What the caller must do after a key was handled: nothing, or one outside
/// effect whose outcome comes back through a completion method.
pub enum KeyAction {
    /// The state transition is complete.
    Done,
    /// Leave the application.
    Quit,
    /// List the working directory again and hand the result to
    /// [`AppState::update_paths`].
    Refresh,
    /// Enter `path`: change into it, list it, and hand the result to
    /// [`AppState::update_post_move`].
    NavigateTo { path: String },
    /// Create the named entry as the kind says, then refresh and report
    /// through [`AppState::handle_create`].
    Create { kind: CreateKind, name: String },
    /// Open or enter the displayed entry at `index`: a regular file goes to
    /// the editor, a directory is entered as with `NavigateTo`.
    Activate { index: usize },
    /// Run the first token as a program with the rest as arguments and hand
    /// the captured output to [`AppState::apply_command_output`].
    RunCommand { tokens: Vec<String> },
    /// Remove the listed paths, stopping at the first failure, then report
    /// through [`AppState::handle_confirm_delete`].
    Delete { paths: Vec<String> },
}

/// The returned action asks the caller to move up one directory; nothing
/// changed yet.
pub open spec fn navigate_action_rel(o: AppState, n: AppState, r: KeyAction) -> bool {
    match r {
        KeyAction::NavigateTo { path } => {
            &&& path@ == parent_of(o.curr_absolute_path@)
            &&& n == o
        },
        _ => false,
    }
}

/// The returned action carries what Enter decided.
pub open spec fn enter_action_rel(o: AppState, n: AppState, r: KeyAction) -> bool {
    match r {
        KeyAction::Create { kind, name } => enter_rel(o, n, EnterOutcome::Create { kind, name }),
        KeyAction::Activate { index } => enter_rel(o, n, EnterOutcome::Activate { index }),
        KeyAction::RunCommand { tokens } => enter_rel(o, n, EnterOutcome::RunCommand { tokens }),
        _ => false,
    }
}

/// The returned action asks the caller to delete every marked entry;
/// nothing changed yet.
pub open spec fn delete_action_rel(o: AppState, n: AppState, r: KeyAction) -> bool {
    match r {
        KeyAction::Delete { paths } => {
            &&& str_views(paths@) == marked_paths(views(o.displayed_paths@))
            &&& n == o
        },
        _ => false,
    }
}

/// The unknown-key outcome: only the message changes.
pub open spec fn unsupported_rel(o: AppState, n: AppState) -> bool {
    message_rel(o, n, "Unsupported input."@)
}

/// The whole Normal-mode keymap: `i`/`a` enter Insert mode, `h` goes up one
/// directory, `j`/`k` move the cursor with wrap-around, `l` and Enter
/// activate, `d` marks, `y` asks for the confirmed deletion, `n` switches
/// panels, anything else reports an unsupported key.
pub open spec fn normal_rel(o: AppState, n: AppState, key: Key, r: KeyAction) -> bool {
    match key {
        Key::Char(c) => {
            if c == 'i' || c == 'a' {
                &&& n == AppState { keybind_mode: KeybindMode::Insert, ..o }
                &&& r is Done
            } else if c == 'h' {
                navigate_action_rel(o, n, r)
            } else if c == 'j' {
                &&& cursor_rel(o, n, CursorMove::Down)
                &&& r is Done
            } else if c == 'k' {
                &&& cursor_rel(o, n, CursorMove::Up)
                &&& r is Done
            } else if c == 'l' {
                enter_action_rel(o, n, r)
            } else if c == 'd' {
                &&& mark_rel(o, n)
                &&& r is Done
            } else if c == 'y' {
                delete_action_rel(o, n, r)
            } else if c == 'n' {
                &&& toggle_rel(o, n)
                &&& r is Refresh
            } else {
                &&& unsupported_rel(o, n)
                &&& r is Done
            }
        },
        Key::Enter => enter_action_rel(o, n, r),
        _ => {
            &&& unsupported_rel(o, n)
            &&& r is Done
        },
    }
}

/// The whole Insert-mode keymap: characters and Backspace edit the input
/// buffer and refilter, Enter commits, the arrows move the cursor, Left
/// goes up one directory, Escape returns to Normal mode, anything else is
/// ignored.
pub open spec fn insert_rel(o: AppState, n: AppState, key: Key, r: KeyAction) -> bool {
    match key {
        Key::Char(c) => {
            &&& input_change_rel(o, n, c)
            &&& r is Done
        },
        Key::Backspace => {
            &&& backspace_rel(o, n)
            &&& r is Done
        },
        Key::Enter => enter_action_rel(o, n, r),
        Key::Up => {
            &&& cursor_rel(o, n, CursorMove::Up)
            &&& r is Done
        },
        Key::Down => {
            &&& cursor_rel(o, n, CursorMove::Down)
            &&& r is Done
        },
        Key::Left => navigate_action_rel(o, n, r),
        Key::Esc => {
            &&& esc_rel(o, n)
            &&& r is Done
        },
        Key::Other => {
            &&& n == o
            &&& r is Done
        },
    }
}

/// The modifier keymap: control-c leaves, control-n enters the command
/// panel in Insert mode, any other control chord reports an unsupported
/// key, and chords the keymap does not know do nothing.
pub open spec fn modifier_rel(
    o: AppState,
    n: AppState,
    key: Key,
    modifier: Modifier,
    r: KeyAction,
) -> bool {
    match modifier {
        Modifier::Control => match key {
            Key::Char(c) => {
                if c == 'c' {
                    &&& n == o
                    &&& r is Quit
                } else if c == 'n' {
                    &&& toggle_rel(AppState { keybind_mode: KeybindMode::Insert, ..o }, n)
                    &&& r is Refresh
                } else {
                    &&& unsupported_rel(o, n)
                    &&& r is Done
                }
            },
            _ => {
                &&& unsupported_rel(o, n)
                &&& r is Done
            },
        },
        Modifier::Other => {
            &&& n == o
            &&& r is Done
        },
    }
}

/// Dispatches one unmodified key event by the current edit mode.
pub fn handle_key(key: Key, app_state: &mut AppState) -> (r: KeyAction)
    ensures
        match old(app_state).keybind_mode {
            KeybindMode::Normal => normal_rel(*old(app_state), *final(app_state), key, r),
            KeybindMode::Insert => insert_rel(*old(app_state), *final(app_state), key, r),
        },
{
    match app_state.keybind_mode {
        KeybindMode::Normal => handle_normal_mode(key, app_state),
        KeybindMode::Insert => handle_key_code_insert(key, app_state),
    }
}

/// The Normal-mode keymap.
fn handle_normal_mode(key: Key, app_state: &mut AppState) -> (r: KeyAction)
    ensures
        normal_rel(*old(app_state), *final(app_state), key, r),
{
    match key {
        Key::Char(c) => match c {
            'i' | 'a' => {
                app_state.keybind_mode = KeybindMode::Insert;
                KeyAction::Done
            },
            'h' => KeyAction::NavigateTo { path: app_state.parent_path() },
            'j' => {
                app_state.update_selected_index(CursorMove::Down);
                KeyAction::Done
            },
            'k' => {
                app_state.update_selected_index(CursorMove::Up);
                KeyAction::Done
            },
            'l' => enter_action(app_state),
            'd' => {
                app_state.handle_mark_delete();
                KeyAction::Done
            },
            'y' => KeyAction::Delete { paths: app_state.marked_absolutes() },
            'n' => {
                app_state.toggle_command_mode();
                KeyAction::Refresh
            },
            _ => {
                app_state.handle_unsupported_input();
                KeyAction::Done
            },
        },
        Key::Enter => enter_action(app_state),
        _ => {
            app_state.handle_unsupported_input();
            KeyAction::Done
        },
    }
}

/// The Insert-mode keymap.
pub fn handle_key_code_insert(key: Key, app_state: &mut AppState) -> (r: KeyAction)
    ensures
        insert_rel(*old(app_state), *final(app_state), key, r),
{
    match key {
        Key::Char(c) => {
            app_state.handle_user_input_change(c);
            KeyAction::Done
        },
        Key::Backspace => {
            app_state.handle_backspace();
            KeyAction::Done
        },
        Key::Enter => enter_action(app_state),
        Key::Up => {
            app_state.update_selected_index(CursorMove::Up);
            KeyAction::Done
        },
        Key::Down => {
            app_state.update_selected_index(CursorMove::Down);
            KeyAction::Done
        },
        Key::Left => KeyAction::NavigateTo { path: app_state.parent_path() },
        Key::Esc => {
            app_state.handle_escape();
            KeyAction::Done
        },
        Key::Other => KeyAction::Done,
    }
}

/// Dispatches one key event that came with a modifier chord.
pub fn handle_key_modifier(key: Key, modifier: Modifier, app_state: &mut AppState) -> (r:
    KeyAction)
    ensures
        modifier_rel(*old(app_state), *final(app_state), key, modifier, r),
{
    match modifier {
        Modifier::Control => match key {
            Key::Char(c) => match c {
                'c' => KeyAction::Quit,
                'n' => {
                    app_state.keybind_mode = KeybindMode::Insert;
                    app_state.toggle_command_mode();
                    KeyAction::Refresh
                },
                _ => {
                    app_state.handle_unsupported_input();
                    KeyAction::Done
                },
            },
            _ => {
                app_state.handle_unsupported_input();
                KeyAction::Done
            },
        },
        Modifier::Other => KeyAction::Done,
    }
}

/// Runs Enter and wraps its decision as the action to perform.
fn enter_action(app_state: &mut AppState) -> (r: KeyAction)
    ensures
        enter_action_rel(*old(app_state), *final(app_state), r),
{
    match app_state.handle_enter() {
        EnterOutcome::Create { kind, name } => KeyAction::Create { kind, name },
        EnterOutcome::Activate { index } => KeyAction::Activate { index },
        EnterOutcome::RunCommand { tokens } => KeyAction::RunCommand { tokens },
    }
}

} // verus!
