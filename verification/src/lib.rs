//! Core of a keyboard-driven terminal file browser.
//!
//! The crate owns the application state: the current directory's catalog of
//! entries, the filtered view derived from the user's search term, the
//! selection cursor, and the mode/keymap transition logic. Everything that
//! touches the terminal, the filesystem or another process lives outside and
//! exchanges plain values with this library.

pub mod entry;
pub mod filter;
pub mod keymap;
pub mod preview;
pub mod state;
pub mod text;

pub use entry::{make_entry, FileData};
pub use filter::filter_file_data;
pub use keymap::{
    handle_key, handle_key_code_insert, handle_key_modifier, Key, KeyAction, Modifier,
};
pub use state::{AppMode, AppState, CreateKind, CursorMove, EnterOutcome, KeybindMode};
pub use state::initial_app_state;
