//! The application state and its transitions: which panel and edit mode are
//! active, the current directory's catalog, the filtered view derived from
//! the input buffer, the selection cursor and the status message.
//!
//! Every filesystem or process effect stays outside: the methods here either
//! are pure state transitions, or take the outcome of such an effect (a fresh
//! listing, an error text) as a plain value and fold it into the state.

use vstd::prelude::*;

use crate::entry::{copy_entry, views, FileData, FileView};
use crate::filter::{filter_file_data, filter_sorted};
use crate::text::{
    contains_char, parent_of, parent_str, push_char, split_spaces, split_tokens, str_views,
    trim_str, trimmed,
};
use vstd::string::StringExecFns;

verus! {

/// Edit mode: single-key commands or text entry.
#[derive(Clone, Debug, PartialEq, Eq, Structural)]
pub enum KeybindMode {
    Normal,
    Insert,
}

/// Panel mode: which subsystem owns the input buffer and Enter.
#[derive(Clone, Debug, PartialEq, Eq, Structural)]
pub enum AppMode {
    FileExplorer,
    Command,
}

/// A cursor movement direction.
#[derive(Clone, Copy, Debug, PartialEq, Eq, Structural)]
pub enum CursorMove {
    Up,
    Down,
}

/// What the create heuristic decides from a name: a slash means a directory,
/// otherwise a dot means a file, otherwise nothing is created.
#[derive(Clone, Copy, Debug, PartialEq, Eq, Structural)]
pub enum CreateKind {
    Directory,
    File,
    Nothing,
}

/// The aggregate state of the browser.
#[derive(Clone)]
pub struct AppState {
    pub app_mode: AppMode,
    pub keybind_mode: KeybindMode,
    pub curr_absolute_path: String,
    pub inner_paths: Vec<FileData>,
    pub displayed_paths: Vec<FileData>,
    pub selected_index: usize,
    pub user_input: String,
    pub message: String,
    pub command_mode: bool,
}

// ---------------------------------------------------------------------------
// Spec vocabulary for the transitions
// ---------------------------------------------------------------------------
/// The displayed list is exactly the filter engine's output for the current
/// catalog and input buffer. Every transition that touches either
/// re-establishes this.
pub open spec fn displayed_is_filtered(s: AppState) -> bool {
    views(s.displayed_paths@) == filter_sorted(views(s.inner_paths@), s.user_input@)
}

/// The cursor points at a displayed entry, or at zero when nothing is
/// displayed.
pub open spec fn cursor_in_range(s: AppState) -> bool {
    if s.displayed_paths@.len() == 0 {
        s.selected_index == 0
    } else {
        s.selected_index < s.displayed_paths@.len()
    }
}

/// A cursor kept where it is while still valid, and put back at the top
/// otherwise.
pub open spec fn clamped(idx: int, len: int) -> int {
    if 0 <= idx < len {
        idx
    } else {
        0
    }
}

/// Where the cursor lands: wrap-around past either end, no move on an empty
/// list, and a recovery to a valid index from an invalid one.
pub open spec fn cursor_after(idx: int, len: int, direction: CursorMove) -> int {
    if len == 0 {
        idx
    } else {
        match direction {
            CursorMove::Down => if idx + 1 >= len {
                0
            } else {
                idx + 1
            },
            CursorMove::Up => if idx == 0 || idx >= len {
                len - 1
            } else {
                idx - 1
            },
        }
    }
}

/// The fields that editing the input buffer never touches.
pub open spec fn same_but_input_and_view(o: AppState, n: AppState) -> bool {
    &&& n.app_mode == o.app_mode
    &&& n.keybind_mode == o.keybind_mode
    &&& n.curr_absolute_path == o.curr_absolute_path
    &&& n.inner_paths == o.inner_paths
    &&& n.message == o.message
    &&& n.command_mode == o.command_mode
}

/// One character appended to the input buffer, the view refiltered for the
/// new term, the cursor clamped back into range.
pub open spec fn input_change_rel(o: AppState, n: AppState, c: char) -> bool {
    &&& n.user_input@ == o.user_input@.push(c)
    &&& views(n.displayed_paths@) == filter_sorted(views(o.inner_paths@), n.user_input@)
    &&& n.selected_index == clamped(o.selected_index as int, n.displayed_paths@.len() as int)
    &&& same_but_input_and_view(o, n)
}

/// The last character removed from the input buffer (nothing removed from an
/// empty one), the view refiltered, the cursor clamped back into range.
pub open spec fn backspace_rel(o: AppState, n: AppState) -> bool {
    &&& n.user_input@ == if o.user_input@.len() == 0 {
        o.user_input@
    } else {
        o.user_input@.drop_last()
    }
    &&& views(n.displayed_paths@) == filter_sorted(views(o.inner_paths@), n.user_input@)
    &&& n.selected_index == clamped(o.selected_index as int, n.displayed_paths@.len() as int)
    &&& same_but_input_and_view(o, n)
}

/// Only the cursor moves.
pub open spec fn cursor_rel(o: AppState, n: AppState, direction: CursorMove) -> bool {
    &&& n.selected_index == cursor_after(
        o.selected_index as int,
        o.displayed_paths@.len() as int,
        direction,
    )
    &&& n == AppState { selected_index: n.selected_index, ..o }
}

/// Only the status message changes, to the given text.
pub open spec fn message_rel(o: AppState, n: AppState, message: Seq<char>) -> bool {
    &&& n.message@ == message
    &&& n == AppState { message: n.message, ..o }
}

/// What the create heuristic decides for `name`.
pub open spec fn create_kind_of(name: Seq<char>) -> CreateKind {
    if name.contains('/') {
        CreateKind::Directory
    } else if name.contains('.') {
        CreateKind::File
    } else {
        CreateKind::Nothing
    }
}

/// The marked entries of a view, in order.
pub open spec fn marked(s: Seq<FileView>) -> Seq<FileView> {
    s.filter(|e: FileView| e.marked_for_deletion)
}

/// The display names of the marked entries, in order.
pub open spec fn marked_names(s: Seq<FileView>) -> Seq<Seq<char>> {
    marked(s).map_values(|e: FileView| e.shortname)
}

/// The absolute paths of the marked entries, in order.
pub open spec fn marked_paths(s: Seq<FileView>) -> Seq<Seq<char>> {
    marked(s).map_values(|e: FileView| e.absolute)
}

/// A name in double quotes.
pub open spec fn quoted(n: Seq<char>) -> Seq<char> {
    seq!['"'] + n + seq!['"']
}

/// The names, each quoted, joined with comma and space.
pub open spec fn quoted_join(names: Seq<Seq<char>>) -> Seq<char>
    decreases names.len(),
{
    if names.len() == 0 {
        Seq::empty()
    } else if names.len() == 1 {
        quoted(names[0])
    } else {
        quoted_join(names.drop_last()) + seq![',', ' '] + quoted(names.last())
    }
}

/// The message shown after a mark: the quoted display names of every marked
/// entry of the view, bracketed, behind a fixed prompt.
pub open spec fn mark_message(s: Seq<FileView>) -> Seq<char> {
    "Press Ctrl + Y to confirm deletion of files: ["@ + quoted_join(marked_names(s)) + seq![']']
}

/// The same entry with its deletion mark flipped.
pub open spec fn flip_mark(v: FileView) -> FileView {
    FileView { marked_for_deletion: !v.marked_for_deletion, ..v }
}

/// The deletion mark of the selected entry flipped and the message listing
/// every marked name; with nothing displayed, nothing happens.
pub open spec fn mark_rel(o: AppState, n: AppState) -> bool {
    if o.selected_index < o.displayed_paths@.len() {
        &&& views(n.displayed_paths@) == views(o.displayed_paths@).update(
            o.selected_index as int,
            flip_mark(views(o.displayed_paths@)[o.selected_index as int]),
        )
        &&& n.message@ == mark_message(views(n.displayed_paths@))
        &&& n.app_mode == o.app_mode
        &&& n.keybind_mode == o.keybind_mode
        &&& n.curr_absolute_path == o.curr_absolute_path
        &&& n.inner_paths == o.inner_paths
        &&& n.selected_index == o.selected_index
        &&& n.user_input == o.user_input
        &&& n.command_mode == o.command_mode
    } else {
        n == o
    }
}

/// A fresh catalog folded into the state: the input buffer cleared, both
/// lists replaced, the cursor clamped back into range. The message is left
/// to the caller's clause. On a failed listing only the message changes.
pub open spec fn refreshed_rel(o: AppState, n: AppState, listing: Result<
    Vec<FileData>,
    String,
>) -> bool {
    match listing {
        Ok(v) => {
            &&& n.user_input@ == Seq::<char>::empty()
            &&& n.inner_paths == v
            &&& views(n.displayed_paths@) == filter_sorted(views(v@), Seq::<char>::empty())
            &&& n.selected_index == clamped(
                o.selected_index as int,
                n.displayed_paths@.len() as int,
            )
            &&& n.app_mode == o.app_mode
            &&& n.keybind_mode == o.keybind_mode
            &&& n.curr_absolute_path == o.curr_absolute_path
            &&& n.command_mode == o.command_mode
        },
        Err(_) => n == AppState { message: n.message, ..o },
    }
}

/// The outcome of a catalog refresh alone: on success the message stays, on
/// failure it carries the listing error.
pub open spec fn update_paths_rel(o: AppState, n: AppState, listing: Result<
    Vec<FileData>,
    String,
>) -> bool {
    &&& refreshed_rel(o, n, listing)
    &&& match listing {
        Ok(_) => n.message == o.message,
        Err(e) => n.message@ == e@,
    }
}

/// A completed move into `path`: the working directory recorded, the catalog
/// replaced, cursor, input buffer and message reset. On a failed listing
/// only the message changes.
pub open spec fn post_move_rel(
    o: AppState,
    n: AppState,
    path: Seq<char>,
    listing: Result<Vec<FileData>, String>,
) -> bool {
    match listing {
        Ok(v) => {
            &&& n.curr_absolute_path@ == path
            &&& n.user_input@ == Seq::<char>::empty()
            &&& n.message@ == Seq::<char>::empty()
            &&& n.inner_paths == v
            &&& views(n.displayed_paths@) == filter_sorted(views(v@), Seq::<char>::empty())
            &&& n.selected_index == 0
            &&& n.app_mode == o.app_mode
            &&& n.keybind_mode == o.keybind_mode
            &&& n.command_mode == o.command_mode
        },
        Err(e) => message_rel(o, n, e@),
    }
}

/// A mutation that ends in a catalog refresh and a fixed confirmation: when
/// the filesystem step failed its error becomes the message and nothing else
/// moves; otherwise the catalog is refreshed and the confirmation is set,
/// whether or not the refresh itself could list the directory.
pub open spec fn mutation_rel(
    o: AppState,
    n: AppState,
    fs_error: Option<String>,
    listing: Result<Vec<FileData>, String>,
    confirmation: Seq<char>,
) -> bool {
    match fs_error {
        Some(e) => message_rel(o, n, e@),
        None => {
            &&& refreshed_rel(o, n, listing)
            &&& n.message@ == confirmation
        },
    }
}

/// Typing a character three times over and backspacing as often is a round
/// trip: the input buffer returns to its old value, and with it the
/// filtered view the engine derives from it.
pub proof fn lemma_append_backspace_round_trip(
    inner: Seq<FileView>,
    input: Seq<char>,
    a: char,
    b: char,
    c: char,
)
    ensures
        ({
            let pushed = input.push(a).push(b).push(c);
            let restored = pushed.drop_last().drop_last().drop_last();
            &&& pushed.len() > 0
            &&& pushed.drop_last().len() > 0
            &&& pushed.drop_last().drop_last().len() > 0
            &&& restored == input
            &&& filter_sorted(inner, restored) == filter_sorted(inner, input)
        }),
{
    let pushed = input.push(a).push(b).push(c);
    assert(pushed.drop_last() =~= input.push(a).push(b));
    assert(input.push(a).push(b).drop_last() =~= input.push(a));
    assert(input.push(a).drop_last() =~= input);
}

/// The derived-view invariant: after any transition that edits the input
/// buffer, clears it, or folds a fresh listing in, the displayed list is
/// exactly the filter engine's output for the catalog and the term then in
/// the buffer.
pub proof fn lemma_transitions_keep_view_derived(
    o: AppState,
    n: AppState,
    c: char,
    listing: Result<Vec<FileData>, String>,
)
    requires
        ({
            ||| input_change_rel(o, n, c)
            ||| backspace_rel(o, n)
            ||| toggle_rel(o, n)
            ||| (esc_rel(o, n) && displayed_is_filtered(o))
            ||| (refreshed_rel(o, n, listing) && listing is Ok)
            ||| (post_move_rel(o, n, n.curr_absolute_path@, listing) && listing is Ok)
        }),
    ensures
        displayed_is_filtered(n),
{
}

/// The cursor invariant: every transition leaves the cursor on a displayed
/// entry, or at zero when nothing is displayed. Cursor movement itself
/// needs a valid cursor to start from; the transitions that rebuild the
/// view clamp it back on their own.
pub proof fn lemma_transitions_keep_cursor_in_range(
    o: AppState,
    n: AppState,
    c: char,
    direction: CursorMove,
    listing: Result<Vec<FileData>, String>,
)
    requires
        ({
            ||| input_change_rel(o, n, c)
            ||| backspace_rel(o, n)
            ||| toggle_rel(o, n)
            ||| (cursor_rel(o, n, direction) && cursor_in_range(o))
            ||| (esc_rel(o, n) && cursor_in_range(o))
            ||| (refreshed_rel(o, n, listing) && listing is Ok)
            ||| (post_move_rel(o, n, n.curr_absolute_path@, listing) && listing is Ok)
        }),
    ensures
        cursor_in_range(n),
{
}

/// What pressing Enter asks the surroundings to do. The state machine only
/// decides; the filesystem and process work happens outside and its outcome
/// comes back through [`AppState::handle_create`],
/// [`AppState::update_post_move`], [`AppState::apply_command_output`] or
/// [`AppState::set_status`].
pub enum EnterOutcome {
    /// The explorer shows nothing: create what the input buffer names.
    Create { kind: CreateKind, name: String },
    /// Act on the selected entry: open a file in the editor, or enter a
    /// directory.
    Activate { index: usize },
    /// Run the first token as a program with the rest as its arguments.
    RunCommand { tokens: Vec<String> },
}

/// What Enter means in each panel mode, and what it changes: in the
/// explorer nothing moves yet; in the command panel the input buffer is
/// consumed into the tokens to run.
pub open spec fn enter_rel(o: AppState, n: AppState, r: EnterOutcome) -> bool {
    match r {
        EnterOutcome::Create { kind, name } => {
            &&& o.app_mode == AppMode::FileExplorer
            &&& o.displayed_paths@.len() == 0
            &&& kind == create_kind_of(o.user_input@)
            &&& name@ == o.user_input@
            &&& n == o
        },
        EnterOutcome::Activate { index } => {
            &&& o.app_mode == AppMode::FileExplorer
            &&& o.displayed_paths@.len() > 0
            &&& index == o.selected_index
            &&& n == o
        },
        EnterOutcome::RunCommand { tokens } => {
            &&& o.app_mode == AppMode::Command
            &&& str_views(tokens@) == split_spaces(o.user_input@)
            &&& n.user_input@ == Seq::<char>::empty()
            &&& n == AppState { user_input: n.user_input, ..o }
        },
    }
}

/// The panel switch: input buffer and message cleared, the view restored to
/// the whole catalog, the cursor clamped, the panel mode flipped.
pub open spec fn toggle_rel(o: AppState, n: AppState) -> bool {
    &&& n.app_mode == (match o.app_mode {
        AppMode::FileExplorer => AppMode::Command,
        AppMode::Command => AppMode::FileExplorer,
    })
    &&& n.user_input@ == Seq::<char>::empty()
    &&& n.message@ == Seq::<char>::empty()
    &&& views(n.displayed_paths@) == filter_sorted(views(o.inner_paths@), Seq::<char>::empty())
    &&& n.inner_paths == o.inner_paths
    &&& n.selected_index == clamped(o.selected_index as int, n.displayed_paths@.len() as int)
    &&& n.keybind_mode == o.keybind_mode
    &&& n.curr_absolute_path == o.curr_absolute_path
    &&& n.command_mode == o.command_mode
}

/// Escape leaves Insert mode; when the view had been filtered down to
/// nothing it also clears the term and restores the whole catalog.
pub open spec fn esc_rel(o: AppState, n: AppState) -> bool {
    if o.displayed_paths@.len() == 0 {
        &&& n.user_input@ == Seq::<char>::empty()
        &&& views(n.displayed_paths@) == filter_sorted(
            views(o.inner_paths@),
            Seq::<char>::empty(),
        )
        &&& n.selected_index == clamped(o.selected_index as int, n.displayed_paths@.len() as int)
        &&& n.keybind_mode == KeybindMode::Normal
        &&& n.app_mode == o.app_mode
        &&& n.curr_absolute_path == o.curr_absolute_path
        &&& n.inner_paths == o.inner_paths
        &&& n.message == o.message
        &&& n.command_mode == o.command_mode
    } else {
        n == AppState { keybind_mode: KeybindMode::Normal, ..o }
    }
}

impl AppState {
    /// Appends one character to the input buffer and re-runs the filter
    /// engine on the catalog with the new term.
    pub fn handle_user_input_change(&mut self, to_push: char)
        ensures
            input_change_rel(*old(self), *final(self), to_push),
    {
        push_char(&mut self.user_input, to_push);
        self.displayed_paths = filter_file_data(&self.inner_paths, self.user_input.as_str());
        if self.selected_index >= self.displayed_paths.len() {
            self.selected_index = 0;
        }
    }

    /// Removes the last character of the input buffer, if any, and re-runs
    /// the filter engine on the catalog with the shortened term.
    pub fn handle_backspace(&mut self)
        ensures
            backspace_rel(*old(self), *final(self)),
    {
        let n = self.user_input.as_str().unicode_len();
        if n > 0 {
            let shorter = self.user_input.as_str().substring_char(0, n - 1).to_owned();
            proof {
                assert(shorter@ =~= old(self).user_input@.drop_last());
            }
            self.user_input = shorter;
        }
        self.displayed_paths = filter_file_data(&self.inner_paths, self.user_input.as_str());
        if self.selected_index >= self.displayed_paths.len() {
            self.selected_index = 0;
        }
    }

    /// Moves the cursor one entry up or down with wrap-around: past the last
    /// displayed entry it returns to the top, before the first it goes to
    /// the bottom. On an empty list nothing moves.
    pub fn update_selected_index(&mut self, direction: CursorMove)
        ensures
            cursor_rel(*old(self), *final(self), direction),
    {
        let len = self.displayed_paths.len();
        if len == 0 {
            return ;
        }
        match direction {
            CursorMove::Down => {
                if self.selected_index >= len - 1 {
                    self.selected_index = 0;
                } else {
                    self.selected_index = self.selected_index + 1;
                }
            },
            CursorMove::Up => {
                if self.selected_index == 0 || self.selected_index >= len {
                    self.selected_index = len - 1;
                } else {
                    self.selected_index = self.selected_index - 1;
                }
            },
        }
    }

    /// Reports a key that maps to no action.
    pub fn handle_unsupported_input(&mut self)
        ensures
            message_rel(*old(self), *final(self), "Unsupported input."@),
    {
        self.message = String::from_str("Unsupported input.");
    }

    /// Replaces the status message; everything else stays. This is how an
    /// error from a filesystem or process call is surfaced.
    pub fn set_status(&mut self, message: String)
        ensures
            message_rel(*old(self), *final(self), message@),
    {
        self.message = message;
    }

    /// Folds a fresh listing of the current directory into the state: clears
    /// the input buffer and replaces catalog and view. A listing error only
    /// becomes the message.
    pub fn update_paths(&mut self, listing: Result<Vec<FileData>, String>)
        ensures
            update_paths_rel(*old(self), *final(self), listing),
    {
        match listing {
            Ok(value) => {
                proof {
                    reveal_strlit("");
                    assert(""@ =~= Seq::<char>::empty());
                }
                self.user_input = String::new();
                self.displayed_paths = filter_file_data(&value, "");
                self.inner_paths = value;
                if self.selected_index >= self.displayed_paths.len() {
                    self.selected_index = 0;
                }
            },
            Err(e) => {
                self.message = e;
            },
        }
    }

    /// Completes a move into `absolute_path`: records it as the working
    /// directory and resets catalog, view, cursor, input buffer and message.
    /// A listing error only becomes the message.
    pub fn update_post_move(&mut self, absolute_path: &str, listing: Result<Vec<FileData>, String>)
        ensures
            post_move_rel(*old(self), *final(self), absolute_path@, listing),
    {
        match listing {
            Ok(value) => {
                proof {
                    reveal_strlit("");
                    assert(""@ =~= Seq::<char>::empty());
                }
                self.curr_absolute_path = absolute_path.to_owned();
                self.displayed_paths = filter_file_data(&value, "");
                self.inner_paths = value;
                self.selected_index = 0;
                self.user_input = String::new();
                self.message = String::new();
            },
            Err(e) => {
                self.message = e;
            },
        }
    }

    /// Finishes a create request: a creation error becomes the message and
    /// nothing else happens; otherwise the catalog is refreshed from the
    /// given listing and the fixed confirmation is set.
    pub fn handle_create(&mut self, fs_error: Option<String>, listing: Result<Vec<FileData>, String>)
        ensures
            mutation_rel(
                *old(self),
                *final(self),
                fs_error,
                listing,
                "File successfully created"@,
            ),
    {
        match fs_error {
            Some(e) => {
                self.message = e;
            },
            None => {
                self.update_paths(listing);
                self.message = String::from_str("File successfully created");
            },
        }
    }

    /// Finishes a confirmed deletion: a removal error becomes the message
    /// and nothing else happens; otherwise the catalog is refreshed from the
    /// given listing and the fixed confirmation is set.
    pub fn handle_confirm_delete(
        &mut self,
        remove_error: Option<String>,
        listing: Result<Vec<FileData>, String>,
    )
        ensures
            mutation_rel(
                *old(self),
                *final(self),
                remove_error,
                listing,
                "Files successfully removed"@,
            ),
    {
        match remove_error {
            Some(e) => {
                self.message = e;
            },
            None => {
                self.update_paths(listing);
                self.message = String::from_str("Files successfully removed");
            },
        }
    }

    /// Switches between the file explorer and the command panel, clearing
    /// the input buffer and the message and restoring the unfiltered view.
    pub fn toggle_command_mode(&mut self)
        ensures
            toggle_rel(*old(self), *final(self)),
    {
        proof {
            reveal_strlit("");
            assert(""@ =~= Seq::<char>::empty());
        }
        self.user_input = String::new();
        self.message = String::new();
        self.displayed_paths = filter_file_data(&self.inner_paths, "");
        if self.selected_index >= self.displayed_paths.len() {
            self.selected_index = 0;
        }
        match self.app_mode {
            AppMode::FileExplorer => self.app_mode = AppMode::Command,
            AppMode::Command => self.app_mode = AppMode::FileExplorer,
        }
    }

    /// Leaves Insert mode. When the filter had left nothing to show, also
    /// clears the term and restores the whole catalog, so the browser never
    /// dead-ends in an over-filtered view.
    pub fn handle_escape(&mut self)
        ensures
            esc_rel(*old(self), *final(self)),
    {
        if self.displayed_paths.len() == 0 {
            proof {
                reveal_strlit("");
                assert(""@ =~= Seq::<char>::empty());
            }
            self.user_input = String::new();
            self.displayed_paths = filter_file_data(&self.inner_paths, "");
            if self.selected_index >= self.displayed_paths.len() {
                self.selected_index = 0;
            }
        }
        self.keybind_mode = KeybindMode::Normal;
    }

    /// Decides what Enter does in the current mode. In the explorer an empty
    /// view turns the input buffer into a create request and a non-empty
    /// view activates the selected entry; in the command panel the input
    /// buffer is split into tokens to run and cleared.
    pub fn handle_enter(&mut self) -> (r: EnterOutcome)
        ensures
            enter_rel(*old(self), *final(self), r),
    {
        match self.app_mode {
            AppMode::FileExplorer => {
                if self.displayed_paths.len() == 0 {
                    let kind = create_kind(self.user_input.as_str());
                    let name = self.user_input.clone();
                    EnterOutcome::Create { kind, name }
                } else {
                    EnterOutcome::Activate { index: self.selected_index }
                }
            },
            AppMode::Command => {
                let tokens = split_tokens(self.user_input.as_str());
                self.user_input = String::new();
                EnterOutcome::RunCommand { tokens }
            },
        }
    }

    /// Folds a finished command's captured output into the status message:
    /// the trimmed standard output when there is any, else the trimmed
    /// standard error.
    pub fn apply_command_output(&mut self, stdout_text: &str, stderr_text: &str)
        ensures
            message_rel(
                *old(self),
                *final(self),
                if stdout_text@.len() == 0 {
                    trimmed(stderr_text@)
                } else {
                    trimmed(stdout_text@)
                },
            ),
    {
        if stdout_text.unicode_len() == 0 {
            self.message = trim_str(stderr_text);
        } else {
            self.message = trim_str(stdout_text);
        }
    }

    /// The path one directory up from the working directory: everything
    /// before the last slash, whitespace removed. Where the surroundings can
    /// enter it, [`AppState::update_post_move`] completes the move.
    pub fn parent_path(&self) -> (p: String)
        ensures
            p@ == parent_of(self.curr_absolute_path@),
    {
        parent_str(self.curr_absolute_path.as_str())
    }

    /// Flips the deletion mark of the selected entry and lists every marked
    /// display name in the status message. With nothing displayed, nothing
    /// happens.
    pub fn handle_mark_delete(&mut self)
        ensures
            mark_rel(*old(self), *final(self)),
    {
        if self.selected_index >= self.displayed_paths.len() {
            return ;
        }
        let idx = self.selected_index;
        let mut e = copy_entry(&self.displayed_paths[idx]);
        e.toggle_mark_for_deletion();
        self.displayed_paths.set(idx, e);
        proof {
            assert(views(self.displayed_paths@) =~= views(old(self).displayed_paths@).update(
                idx as int,
                flip_mark(views(old(self).displayed_paths@)[idx as int]),
            ));
        }
        let mut msg = String::from_str("Press Ctrl + Y to confirm deletion of files: [");
        let ghost dv = views(self.displayed_paths@);
        let n = self.displayed_paths.len();
        proof {
            reveal(Seq::filter);
            assert(dv.take(0) =~= Seq::<FileView>::empty());
            assert(msg@ =~= "Press Ctrl + Y to confirm deletion of files: ["@ + quoted_join(
                marked_names(dv.take(0)),
            ));
        }
        let mut first = true;
        for i in 0..n
            invariant
                n == self.displayed_paths.len(),
                dv == views(self.displayed_paths@),
                msg@ == "Press Ctrl + Y to confirm deletion of files: ["@ + quoted_join(
                    marked_names(dv.take(i as int)),
                ),
                first == (marked_names(dv.take(i as int)).len() == 0),
        {
            let ghost pre = dv.take(i as int);
            let ghost v = dv[i as int];
            proof {
                reveal(Seq::filter);
                assert(dv.take(i + 1) =~= pre.push(v));
                assert(pre.push(v).drop_last() =~= pre);
                assert(marked(pre.push(v)) == if v.marked_for_deletion {
                    marked(pre).push(v)
                } else {
                    marked(pre)
                });
            }
            if self.displayed_paths[i].marked_for_deletion {
                if !first {
                    msg.append(", ");
                }
                msg.append("\"");
                msg.append(self.displayed_paths[i].shortname.as_str());
                msg.append("\"");
                proof {
                    reveal_strlit(", ");
                    reveal_strlit("\"");
                    assert(", "@ =~= seq![',', ' ']);
                    assert("\""@ =~= seq!['"']);
                    assert(marked_names(pre.push(v)) =~= marked_names(pre).push(v.shortname));
                    if first {
                        assert(quoted_join(marked_names(pre.push(v))) =~= quoted(v.shortname));
                    } else {
                        assert(marked_names(pre.push(v)).drop_last() =~= marked_names(pre));
                        assert(quoted_join(marked_names(pre.push(v))) =~= quoted_join(
                            marked_names(pre),
                        ) + seq![',', ' '] + quoted(v.shortname));
                    }
                    assert(msg@ =~= "Press Ctrl + Y to confirm deletion of files: ["@
                        + quoted_join(marked_names(dv.take(i + 1))));
                }
                first = false;
            } else {
                proof {
                    assert(marked_names(pre.push(v)) =~= marked_names(pre));
                }
            }
        }
        msg.append("]");
        proof {
            reveal_strlit("]");
            assert("]"@ =~= seq![']']);
            assert(dv.take(n as int) =~= dv);
            assert(msg@ =~= mark_message(dv));
        }
        self.message = msg;
    }

    /// The absolute paths of the entries marked for deletion, in display
    /// order: what a confirmed deletion will remove.
    pub fn marked_absolutes(&self) -> (r: Vec<String>)
        ensures
            str_views(r@) == marked_paths(views(self.displayed_paths@)),
    {
        let mut r: Vec<String> = Vec::new();
        let n = self.displayed_paths.len();
        proof {
            reveal(Seq::filter);
            assert(views(self.displayed_paths@.take(0)) =~= Seq::<crate::entry::FileView>::empty());
            assert(str_views(r@) =~= marked_paths(views(self.displayed_paths@.take(0))));
        }
        for i in 0..n
            invariant
                n == self.displayed_paths.len(),
                str_views(r@) == marked_paths(views(self.displayed_paths@.take(i as int))),
        {
            let ghost pre = views(self.displayed_paths@.take(i as int));
            let ghost v = self.displayed_paths@[i as int]@;
            proof {
                reveal(Seq::filter);
                assert(views(self.displayed_paths@.take(i + 1)) =~= pre.push(v));
                assert(pre.push(v).drop_last() =~= pre);
                assert(marked(pre.push(v)) == if v.marked_for_deletion {
                    marked(pre).push(v)
                } else {
                    marked(pre)
                });
            }
            if self.displayed_paths[i].marked_for_deletion {
                r.push(self.displayed_paths[i].absolute.clone());
                proof {
                    assert(marked_paths(pre.push(v)) =~= marked_paths(pre).push(v.absolute));
                    assert(str_views(r@) =~= marked_paths(pre).push(v.absolute));
                }
            } else {
                proof {
                    assert(marked_paths(pre.push(v)) =~= marked_paths(pre));
                }
            }
        }
        proof {
            assert(self.displayed_paths@.take(n as int) =~= self.displayed_paths@);
        }
        r
    }
}

/// The state the browser starts in: the explorer panel in Normal mode, the
/// given directory and its listing, everything else empty. The view shows
/// the whole catalog through the filter engine.
pub fn initial_app_state(cwd: String, listing: Vec<FileData>) -> (s: AppState)
    ensures
        s.app_mode == AppMode::FileExplorer,
        s.keybind_mode == KeybindMode::Normal,
        s.curr_absolute_path == cwd,
        s.inner_paths == listing,
        views(s.displayed_paths@) == filter_sorted(views(listing@), Seq::<char>::empty()),
        s.selected_index == 0,
        s.user_input@ == Seq::<char>::empty(),
        s.message@ == Seq::<char>::empty(),
        displayed_is_filtered(s),
{
    proof {
        reveal_strlit("");
        assert(""@ =~= Seq::<char>::empty());
    }
    let displayed = filter_file_data(&listing, "");
    AppState {
        app_mode: AppMode::FileExplorer,
        keybind_mode: KeybindMode::Normal,
        curr_absolute_path: cwd,
        inner_paths: listing,
        displayed_paths: displayed,
        selected_index: 0,
        user_input: String::new(),
        message: String::new(),
        command_mode: false,
    }
}

/// Decides what creating `name` would do: a name with a slash makes a
/// directory, otherwise a name with a dot makes a file, any other name makes
/// nothing.
pub fn create_kind(name: &str) -> (k: CreateKind)
    ensures
        k == create_kind_of(name@),
{
    if contains_char(name, '/') {
        CreateKind::Directory
    } else if contains_char(name, '.') {
        CreateKind::File
    } else {
        CreateKind::Nothing
    }
}

} // verus!
