//! The input dispatcher: what each key does in each mode.
//!
//! A key changes the state at once, or asks for a call of the tool by
//! returning a `Command`. The caller runs the command and hands the outcome
//! to the function that finishes it (`diff_loaded`, `files_loaded`,
//! `action_done`, `stash_created`, `reload_done`). No function of this module
//! waits or calls out. Each is stated as a step of the mathematical state
//! `AppView`.

use crate::app::{branch_or_empty, App, AppView, ConfirmAction, Mode, ModeView};
use crate::git::{stash_views, GatewayError, Stash, StashView};
use crate::text::{lines_of, trim, trimmed};
use vstd::prelude::*;
use vstd::string::StringExecFns;

verus! {

/// A key press, as far as the dispatcher tells keys apart.
#[derive(Debug, PartialEq, Eq, Clone, Copy)]
pub enum Key {
    /// A printable character.
    Char(char),
    Enter,
    Esc,
    Backspace,
    Tab,
    Delete,
    Up,
    Down,
    PageUp,
    PageDown,
    /// Any other key.
    Other,
}

/// What the caller has to do after a step.
#[derive(Debug, PartialEq, Eq, Clone)]
pub enum Command {
    /// Nothing: draw the state and wait for the next key.
    Idle,
    /// End the program.
    Quit,
    /// Fetch the diff of the named stash, then call `diff_loaded`.
    LoadDiff(String),
    /// Fetch the file list of the named stash, then call `files_loaded`.
    LoadFiles(String),
    /// Apply, pop or drop the named stash, then call `action_done`.
    Run(ConfirmAction, String),
    /// Create a stash with this message, with the untracked files if the
    /// flag is set, then call `stash_created`.
    Create(String, bool),
    /// Fetch the stash list and the branch name, then call `reload_done`
    /// with this text, which is shown once the list is in.
    Reload(String),
}

/// The mathematical value of a `Command`.
pub enum CommandView {
    Idle,
    Quit,
    LoadDiff(Seq<char>),
    LoadFiles(Seq<char>),
    Run(ConfirmAction, Seq<char>),
    Create(Seq<char>, bool),
    Reload(Seq<char>),
}

impl View for Command {
    type V = CommandView;

    open spec fn view(&self) -> CommandView {
        match self {
            Command::Idle => CommandView::Idle,
            Command::Quit => CommandView::Quit,
            Command::LoadDiff(name) => CommandView::LoadDiff(name@),
            Command::LoadFiles(name) => CommandView::LoadFiles(name@),
            Command::Run(action, name) => CommandView::Run(*action, name@),
            Command::Create(message, untracked) => CommandView::Create(message@, *untracked),
            Command::Reload(text) => CommandView::Reload(text@),
        }
    }
}

/// The message that reports a failure of the tool.
pub open spec fn error_text(description: Seq<char>) -> Seq<char> {
    "Error: "@ + description
}

/// The message that reports that an action went through.
pub open spec fn success_text(action: ConfirmAction) -> Seq<char> {
    match action {
        ConfirmAction::Apply => "Stash applied successfully."@,
        ConfirmAction::Pop => "Stash popped successfully."@,
        ConfirmAction::Drop => "Stash dropped."@,
    }
}

/// The message that reports a new stash.
pub open spec fn created_text(message: Seq<char>) -> Seq<char> {
    "Stash '"@ + message + "' created."@
}

/// A text without its last character; an empty text stays empty.
pub open spec fn without_last(text: Seq<char>) -> Seq<char> {
    if text.len() > 0 {
        text.drop_last()
    } else {
        text
    }
}

/// The handle of the selected stash, if one is selected.
pub open spec fn selected_name(s: AppView) -> Option<Seq<char>> {
    match s.selected_record() {
        Some(record) => Some(record.name),
        None => None,
    }
}

/// The state in the given mode.
pub open spec fn in_mode(s: AppView, mode: ModeView) -> AppView {
    AppView { mode, ..s }
}

/// The state with the message that reports a failure.
pub open spec fn failed(s: AppView, description: Seq<char>) -> AppView {
    in_mode(s, ModeView::Message(error_text(description)))
}

/// A key while the search query is being typed: `Esc` gives the search up,
/// `Enter` keeps the query as the filter, `Backspace` and characters edit
/// the query. Every change of the query selects the first stash.
pub open spec fn search_key(s: AppView, key: Key) -> AppView {
    match key {
        Key::Esc => AppView { searching: false, search_query: Seq::empty(), selected: 0, ..s },
        Key::Enter => AppView { searching: false, ..s },
        Key::Backspace => AppView { search_query: without_last(s.search_query), selected: 0, ..s },
        Key::Char(c) => AppView { search_query: s.search_query.push(c), selected: 0, ..s },
        _ => s,
    }
}

/// The step that opens a confirmation dialog, which needs a selected stash.
pub open spec fn ask(s: AppView, action: ConfirmAction) -> AppView {
    if s.selected_record() is Some {
        in_mode(s, ModeView::Confirm(action))
    } else {
        s
    }
}

/// A key on the stash list while no query is being typed.
pub open spec fn list_key(s: AppView, key: Key) -> (AppView, CommandView) {
    match key {
        Key::Char('q') | Key::Esc => (s, CommandView::Quit),
        Key::Up | Key::Char('k') => (s.move_selection(-1), CommandView::Idle),
        Key::Down | Key::Char('j') => (s.move_selection(1), CommandView::Idle),
        Key::Enter | Key::Char('d') => match selected_name(s) {
            Some(name) => (s, CommandView::LoadDiff(name)),
            None => (s, CommandView::Idle),
        },
        Key::Char('f') => match selected_name(s) {
            Some(name) => (s, CommandView::LoadFiles(name)),
            None => (s, CommandView::Idle),
        },
        Key::Char('a') => (ask(s, ConfirmAction::Apply), CommandView::Idle),
        Key::Char('p') => (ask(s, ConfirmAction::Pop), CommandView::Idle),
        Key::Char('x') | Key::Delete => (ask(s, ConfirmAction::Drop), CommandView::Idle),
        Key::Char('n') => (
            AppView {
                new_stash_input: Seq::empty(),
                new_stash_untracked: false,
                mode: ModeView::NewStash,
                ..s
            },
            CommandView::Idle,
        ),
        Key::Char('/') => (
            AppView { search_query: Seq::empty(), searching: true, selected: 0, ..s },
            CommandView::Idle,
        ),
        Key::Char('c') => (
            AppView { search_query: Seq::empty(), selected: 0, ..s },
            CommandView::Idle,
        ),
        _ => (s, CommandView::Idle),
    }
}

/// A key in normal mode: it edits the query while one is being typed, and
/// acts on the list otherwise.
pub open spec fn normal_key(s: AppView, key: Key) -> (AppView, CommandView) {
    if s.searching {
        (search_key(s, key), CommandView::Idle)
    } else {
        list_key(s, key)
    }
}

/// A key while a diff or a file list is shown.
pub open spec fn scroll_key(s: AppView, key: Key) -> AppView {
    match key {
        Key::Esc | Key::Char('q') => in_mode(s, ModeView::Normal),
        Key::Up | Key::Char('k') => s.scroll_content(-1),
        Key::Down | Key::Char('j') => s.scroll_content(1),
        Key::PageUp => s.scroll_content(-20),
        Key::PageDown => s.scroll_content(20),
        _ => s,
    }
}

/// The step that confirms an action: with a selected stash the action is
/// asked for, and nothing changes until its outcome is in.
pub open spec fn confirm(s: AppView, action: ConfirmAction) -> (AppView, CommandView) {
    match selected_name(s) {
        Some(name) => (s, CommandView::Run(action, name)),
        None => (s, CommandView::Idle),
    }
}

/// A key in a confirmation dialog.
pub open spec fn confirm_key(s: AppView, action: ConfirmAction, key: Key) -> (
    AppView,
    CommandView,
) {
    match key {
        Key::Char('y') | Key::Enter => confirm(s, action),
        Key::Char('n') | Key::Esc => (in_mode(s, ModeView::Normal), CommandView::Idle),
        _ => (s, CommandView::Idle),
    }
}

/// The state with the flag for untracked files turned over.
pub open spec fn toggled(s: AppView) -> AppView {
    AppView { new_stash_untracked: !s.new_stash_untracked, ..s }
}

/// A key in the form for a new stash. `Enter` asks for the stash if the
/// trimmed input is not empty; `u` turns the flag over only while the input
/// is empty, and is a character of the input otherwise.
pub open spec fn form_key(s: AppView, key: Key) -> (AppView, CommandView) {
    match key {
        Key::Esc => (in_mode(s, ModeView::Normal), CommandView::Idle),
        Key::Enter => {
            let message = trimmed(s.new_stash_input);
            if message.len() > 0 {
                (s, CommandView::Create(message, s.new_stash_untracked))
            } else {
                (s, CommandView::Idle)
            }
        },
        Key::Backspace => (
            AppView { new_stash_input: without_last(s.new_stash_input), ..s },
            CommandView::Idle,
        ),
        Key::Tab => (toggled(s), CommandView::Idle),
        Key::Char(c) => if c == 'u' && s.new_stash_input.len() == 0 {
            (toggled(s), CommandView::Idle)
        } else {
            (AppView { new_stash_input: s.new_stash_input.push(c), ..s }, CommandView::Idle)
        },
        _ => (s, CommandView::Idle),
    }
}

/// What a key does, by the mode of the state.
pub open spec fn key_step(s: AppView, key: Key) -> (AppView, CommandView) {
    match s.mode {
        ModeView::Normal => normal_key(s, key),
        ModeView::Diff => (scroll_key(s, key), CommandView::Idle),
        ModeView::Files => (scroll_key(s, key), CommandView::Idle),
        ModeView::Confirm(action) => confirm_key(s, action, key),
        ModeView::NewStash => form_key(s, key),
        ModeView::Message(_) => (in_mode(s, ModeView::Normal), CommandView::Idle),
    }
}

/// The step after a diff or a file list was asked for. With a selected
/// stash, the text fills the buffer and its view opens, and a failure shows
/// as a message. Without one nothing changes.
pub open spec fn content_step(
    s: AppView,
    mode: ModeView,
    raw: Result<Seq<char>, Seq<char>>,
) -> AppView {
    if s.selected_record() is Some {
        match raw {
            Ok(text) => in_mode(s.with_content(text), mode),
            Err(description) => failed(s, description),
        }
    } else {
        s
    }
}

/// The step after an action or the creation of a stash was asked for: a
/// success asks for the fresh list and hands on the text to show after it,
/// a failure shows as a message.
pub open spec fn done_step(s: AppView, text: Seq<char>, result: Result<(), Seq<char>>) -> (
    AppView,
    CommandView,
) {
    match result {
        Ok(_) => (s, CommandView::Reload(text)),
        Err(description) => (failed(s, description), CommandView::Idle),
    }
}

/// The step after the fresh list was asked for: the list is taken over and
/// the text is shown, or the failure shows as a message and the list stays.
pub open spec fn reload_step(
    s: AppView,
    text: Seq<char>,
    listing: Result<Seq<StashView>, Seq<char>>,
    branch: Seq<char>,
) -> AppView {
    match listing {
        Ok(stashes) => in_mode(s.reloaded(stashes, branch), ModeView::Message(text)),
        Err(description) => failed(s, description),
    }
}

/// The outcome of a call that returns a text, as mathematical values.
pub open spec fn text_view(raw: Result<String, GatewayError>) -> Result<Seq<char>, Seq<char>> {
    match raw {
        Ok(text) => Ok(text@),
        Err(e) => Err(e@),
    }
}

/// The outcome of a call that returns nothing, as mathematical values.
pub open spec fn unit_view(result: Result<(), GatewayError>) -> Result<(), Seq<char>> {
    match result {
        Ok(_) => Ok(()),
        Err(e) => Err(e@),
    }
}

/// The outcome of a listing, as mathematical values.
pub open spec fn listing_view(listing: Result<Vec<Stash>, GatewayError>) -> Result<
    Seq<StashView>,
    Seq<char>,
> {
    match listing {
        Ok(stashes) => Ok(stash_views(stashes@)),
        Err(e) => Err(e@),
    }
}

/// No step takes the scroll offset out of the content buffer: a state whose
/// offset lies inside the buffer (0 for an empty buffer) is followed by
/// such a state, after a key and after each outcome of a call of the tool.
pub proof fn lemma_steps_keep_scroll_in_buffer(s: AppView)
    requires
        s.scroll_in_bounds(),
    ensures
        forall|key: Key| (#[trigger] key_step(s, key)).0.scroll_in_bounds(),
        forall|mode: ModeView, raw: Result<Seq<char>, Seq<char>>| #[trigger]
            content_step(s, mode, raw).scroll_in_bounds(),
        forall|text: Seq<char>, result: Result<(), Seq<char>>|
            (#[trigger] done_step(s, text, result)).0.scroll_in_bounds(),
        forall|
            text: Seq<char>,
            listing: Result<Seq<StashView>, Seq<char>>,
            branch: Seq<char>,
        | #[trigger]
            reload_step(s, text, listing, branch).scroll_in_bounds(),
{
}

/// No key takes the selection out of the filtered view, and neither does an
/// outcome of a call of the tool that leaves the collection as it is. A
/// fresh collection keeps the selection in view while no filter is set;
/// under a filter the selection is only brought back inside the collection,
/// and where it then lies outside the filtered view no stash is selected.
pub proof fn lemma_steps_keep_selection_in_view(s: AppView)
    requires
        s.selection_in_view(),
    ensures
        forall|key: Key| (#[trigger] key_step(s, key)).0.selection_in_view(),
        forall|mode: ModeView, raw: Result<Seq<char>, Seq<char>>| #[trigger]
            content_step(s, mode, raw).selection_in_view(),
        forall|text: Seq<char>, result: Result<(), Seq<char>>|
            (#[trigger] done_step(s, text, result)).0.selection_in_view(),
        forall|text: Seq<char>, description: Seq<char>, branch: Seq<char>| #[trigger]
            reload_step(s, text, Err(description), branch).selection_in_view(),
        forall|text: Seq<char>, stashes: Seq<StashView>, branch: Seq<char>|
            s.search_query.len() == 0 ==> (#[trigger] reload_step(
                s,
                text,
                Ok(stashes),
                branch,
            )).selection_in_view(),
{
    assert forall|key: Key| (#[trigger] key_step(s, key)).0.selection_in_view() by {
        let next = key_step(s, key).0;
        if next.search_query == s.search_query && next.stashes == s.stashes {
            assert(next.filtered() == s.filtered());
        }
    }
}

/// A failure of the tool changes nothing but the mode, which shows the
/// failure: the collection, the selection, the buffer and the texts stay as
/// they were.
pub proof fn lemma_failure_only_shows_message(s: AppView, description: Seq<char>)
    ensures
        failed(s, description) == in_mode(s, ModeView::Message(error_text(description))),
        in_mode(failed(s, description), s.mode) == s,
        forall|text: Seq<char>|
            done_step(s, text, Err(description)) == (failed(s, description), CommandView::Idle),
        forall|text: Seq<char>, branch: Seq<char>|
            reload_step(s, text, Err(description), branch) == failed(s, description),
        forall|mode: ModeView|
            s.selected_record() is Some ==> content_step(s, mode, Err(description)) == failed(
                s,
                description,
            ),
{
}

/// A confirmed action runs through its steps to a message. `y` or `Enter`
/// asks for the action on the selected stash and changes nothing. If the
/// action fails, the failure is shown and the rest of the state stays. If it
/// goes through, the fresh list is asked for; with the list the collection
/// is reloaded and the report of the action is shown, and without it the
/// failure is shown and the collection stays.
pub proof fn lemma_confirmed_action_ends_in_a_message(
    s: AppView,
    action: ConfirmAction,
    key: Key,
    result: Result<(), Seq<char>>,
    listing: Result<Seq<StashView>, Seq<char>>,
    branch: Seq<char>,
)
    requires
        s.mode == ModeView::Confirm(action),
        s.selected_record() is Some,
        key == Key::Char('y') || key == Key::Enter,
    ensures
        key_step(s, key) == (s, CommandView::Run(action, s.selected_record()->Some_0.name)),
        result matches Err(description) ==> done_step(s, success_text(action), result) == (
            in_mode(s, ModeView::Message(error_text(description))),
            CommandView::Idle,
        ),
        result is Ok ==> done_step(s, success_text(action), result) == (
            s,
            CommandView::Reload(success_text(action)),
        ),
        listing matches Ok(stashes) ==> reload_step(s, success_text(action), listing, branch)
            == in_mode(s.reloaded(stashes, branch), ModeView::Message(success_text(action))),
        listing matches Err(description) ==> reload_step(s, success_text(action), listing, branch)
            == in_mode(s, ModeView::Message(error_text(description))),
{
}

/// A new stash runs through its steps to a message. `Enter` in the form asks
/// for a stash with the trimmed input, if that is not empty, and changes
/// nothing; an input that is blank leaves the form as it is. A failure is
/// shown; after a success the fresh list is asked for, and with it the
/// collection is reloaded and the new stash is reported by its message.
pub proof fn lemma_new_stash_ends_in_a_message(
    s: AppView,
    result: Result<(), Seq<char>>,
    stashes: Seq<StashView>,
    branch: Seq<char>,
)
    requires
        s.mode == ModeView::NewStash,
    ensures
        trimmed(s.new_stash_input).len() == 0 ==> key_step(s, Key::Enter) == (s, CommandView::Idle),
        trimmed(s.new_stash_input).len() > 0 ==> key_step(s, Key::Enter) == (
            s,
            CommandView::Create(trimmed(s.new_stash_input), s.new_stash_untracked),
        ),
        result matches Err(description) ==> done_step(
            s,
            created_text(trimmed(s.new_stash_input)),
            result,
        ) == (in_mode(s, ModeView::Message(error_text(description))), CommandView::Idle),
        result is Ok ==> done_step(s, created_text(trimmed(s.new_stash_input)), result) == (
            s,
            CommandView::Reload(created_text(trimmed(s.new_stash_input))),
        ),
        reload_step(s, created_text(trimmed(s.new_stash_input)), Ok(stashes), branch) == in_mode(
            s.reloaded(stashes, branch),
            ModeView::Message(created_text(trimmed(s.new_stash_input))),
        ),
{
}

/// A diff or a file list opens in two steps. With a selected stash, the key
/// asks for the text and changes nothing; the text then fills the buffer,
/// the offset is 0 and the view is open, or the failure is shown and the
/// buffer stays.
pub proof fn lemma_content_opens_with_its_text(
    s: AppView,
    key: Key,
    raw: Result<Seq<char>, Seq<char>>,
)
    requires
        s.mode == ModeView::Normal,
        !s.searching,
        s.selected_record() is Some,
        key == Key::Enter || key == Key::Char('d') || key == Key::Char('f'),
    ensures
        key_step(s, key) == (
            s,
            if key == Key::Char('f') {
                CommandView::LoadFiles(s.selected_record()->Some_0.name)
            } else {
                CommandView::LoadDiff(s.selected_record()->Some_0.name)
            },
        ),
        raw matches Ok(text) ==> content_step(s, ModeView::Diff, raw) == (AppView {
            mode: ModeView::Diff,
            diff_content: lines_of(text),
            diff_scroll: 0,
            ..s
        }),
        raw matches Ok(text) ==> content_step(s, ModeView::Files, raw) == (AppView {
            mode: ModeView::Files,
            diff_content: lines_of(text),
            diff_scroll: 0,
            ..s
        }),
        raw matches Err(description) ==> content_step(s, ModeView::Diff, raw) == in_mode(
            s,
            ModeView::Message(error_text(description)),
        ) && content_step(s, ModeView::Files, raw) == content_step(s, ModeView::Diff, raw),
{
}

/// While no stash is selected, the keys that act on a stash do nothing in
/// normal mode: the state stays as it is and nothing is asked of the tool.
pub proof fn lemma_keys_need_a_selected_stash(s: AppView, key: Key)
    requires
        s.selected_record() is None,
        !s.searching,
        key == Key::Enter || key == Key::Delete || key == Key::Char('d') || key == Key::Char('f')
            || key == Key::Char('a') || key == Key::Char('p') || key == Key::Char('x'),
    ensures
        normal_key(s, key) == (s, CommandView::Idle),
{
}

fn error_message(e: &GatewayError) -> (r: String)
    ensures
        r@ == error_text(e@),
{
    let mut text = String::from_str("Error: ");
    text.append(e.description.as_str());
    text
}

fn success_message(action: ConfirmAction) -> (r: String)
    ensures
        r@ == success_text(action),
{
    match action {
        ConfirmAction::Apply => String::from_str("Stash applied successfully."),
        ConfirmAction::Pop => String::from_str("Stash popped successfully."),
        ConfirmAction::Drop => String::from_str("Stash dropped."),
    }
}

fn name_of_selected(app: &App) -> (r: Option<String>)
    ensures
        match r {
            Some(name) => selected_name(app@) == Some(name@),
            None => selected_name(app@) is None,
        },
{
    match app.selected_stash() {
        Some(stash) => Some(stash.name.clone()),
        None => None,
    }
}

fn open_confirm(app: &mut App, action: ConfirmAction)
    ensures
        final(app)@ == ask(old(app)@, action),
{
    if app.selected_stash().is_some() {
        app.mode = Mode::Confirm(action);
    }
}

fn load_request(app: &App, files: bool) -> (r: Command)
    ensures
        r@ == match selected_name(app@) {
            Some(name) => if files {
                CommandView::LoadFiles(name)
            } else {
                CommandView::LoadDiff(name)
            },
            None => CommandView::Idle,
        },
{
    match name_of_selected(app) {
        Some(name) => if files {
            Command::LoadFiles(name)
        } else {
            Command::LoadDiff(name)
        },
        None => Command::Idle,
    }
}

/// Handles a key in normal mode. While the query is being typed the key
/// edits it; otherwise it moves the selection, opens a dialog or the form,
/// starts or clears a search, asks for a diff or a file list, or quits.
pub fn handle_normal(app: &mut App, key: Key) -> (r: Command)
    ensures
        (final(app)@, r@) == normal_key(old(app)@, key),
{
    if app.searching {
        match key {
            Key::Esc => {
                app.searching = false;
                app.search_query = String::new();
                app.selected = 0;
            },
            Key::Enter => {
                app.searching = false;
            },
            Key::Backspace => {
                app.search_query.pop();
                app.selected = 0;
            },
            Key::Char(c) => {
                app.search_query.push(c);
                app.selected = 0;
            },
            _ => {},
        }
        return Command::Idle;
    }
    match key {
        Key::Char('q') | Key::Esc => {
            return Command::Quit;
        },
        Key::Up | Key::Char('k') => app.move_up(),
        Key::Down | Key::Char('j') => app.move_down(),
        Key::Enter | Key::Char('d') => {
            return load_request(app, false);
        },
        Key::Char('f') => {
            return load_request(app, true);
        },
        Key::Char('a') => open_confirm(app, ConfirmAction::Apply),
        Key::Char('p') => open_confirm(app, ConfirmAction::Pop),
        Key::Char('x') | Key::Delete => open_confirm(app, ConfirmAction::Drop),
        Key::Char('n') => {
            app.new_stash_input = String::new();
            app.new_stash_untracked = false;
            app.mode = Mode::NewStash;
        },
        Key::Char('/') => {
            app.search_query = String::new();
            app.searching = true;
            app.selected = 0;
        },
        Key::Char('c') => {
            app.search_query = String::new();
            app.selected = 0;
        },
        _ => {},
    }
    Command::Idle
}

/// Handles a key while a diff or a file list is shown: it scrolls by a line
/// or by a page of 20 lines, or goes back to the list.
pub fn handle_scroll(app: &mut App, key: Key) -> (r: Command)
    ensures
        final(app)@ == scroll_key(old(app)@, key),
        r@ == CommandView::Idle,
{
    match key {
        Key::Esc | Key::Char('q') => {
            app.mode = Mode::Normal;
        },
        Key::Up | Key::Char('k') => app.scroll_diff_up(),
        Key::Down | Key::Char('j') => app.scroll_diff_down(),
        Key::PageUp => app.scroll_content(-20),
        Key::PageDown => app.scroll_content(20),
        _ => {},
    }
    Command::Idle
}

/// Handles a key in a confirmation dialog: `y` or `Enter` asks for the
/// action on the selected stash, `n` or `Esc` closes the dialog.
pub fn handle_confirm(app: &mut App, key: Key, action: ConfirmAction) -> (r: Command)
    ensures
        (final(app)@, r@) == confirm_key(old(app)@, action, key),
{
    match key {
        Key::Char('y') | Key::Enter => match name_of_selected(app) {
            Some(name) => Command::Run(action, name),
            None => Command::Idle,
        },
        Key::Char('n') | Key::Esc => {
            app.mode = Mode::Normal;
            Command::Idle
        },
        _ => Command::Idle,
    }
}

/// Handles a key in the form for a new stash.
pub fn handle_new_stash(app: &mut App, key: Key) -> (r: Command)
    ensures
        (final(app)@, r@) == form_key(old(app)@, key),
{
    match key {
        Key::Esc => {
            app.mode = Mode::Normal;
            Command::Idle
        },
        Key::Enter => {
            let message = trim(app.new_stash_input.as_str());
            if !message.as_str().is_empty() {
                Command::Create(message, app.new_stash_untracked)
            } else {
                Command::Idle
            }
        },
        Key::Backspace => {
            app.new_stash_input.pop();
            Command::Idle
        },
        Key::Tab => {
            app.new_stash_untracked = !app.new_stash_untracked;
            Command::Idle
        },
        Key::Char(c) => {
            if c == 'u' && app.new_stash_input.as_str().is_empty() {
                app.new_stash_untracked = !app.new_stash_untracked;
            } else {
                app.new_stash_input.push(c);
            }
            Command::Idle
        },
        _ => Command::Idle,
    }
}

/// Handles a key in the mode that the state is in, and says what the caller
/// has to do next. A message is dismissed by any key.
pub fn handle_events(app: &mut App, key: Key) -> (r: Command)
    ensures
        (final(app)@, r@) == key_step(old(app)@, key),
{
    match &app.mode {
        Mode::Normal => handle_normal(app, key),
        Mode::Diff | Mode::Files => handle_scroll(app, key),
        Mode::Confirm(action) => {
            let action = *action;
            handle_confirm(app, key, action)
        },
        Mode::NewStash => handle_new_stash(app, key),
        Mode::Message(_) => {
            app.mode = Mode::Normal;
            Command::Idle
        },
    }
}

fn content_loaded(app: &mut App, files: bool, raw: Result<String, GatewayError>)
    ensures
        final(app)@ == content_step(
            old(app)@,
            if files {
                ModeView::Files
            } else {
                ModeView::Diff
            },
            text_view(raw),
        ),
{
    if app.selected_stash().is_none() {
        return ;
    }
    let loaded = if files {
        app.load_files(raw)
    } else {
        app.load_diff(raw)
    };
    match loaded {
        Ok(_) => {
            app.mode = if files {
                Mode::Files
            } else {
                Mode::Diff
            };
        },
        Err(e) => {
            app.mode = Mode::Message(error_message(&e));
        },
    }
}

/// Finishes `Command::LoadDiff` with what the tool gave. With a selected
/// stash, a diff fills the buffer and the diff view opens, and a failure
/// shows as an error message with the rest of the state as it was. Without
/// a selected stash nothing changes.
pub fn diff_loaded(app: &mut App, raw: Result<String, GatewayError>)
    ensures
        final(app)@ == content_step(old(app)@, ModeView::Diff, text_view(raw)),
{
    content_loaded(app, false, raw)
}

/// Finishes `Command::LoadFiles` with what the tool gave. With a selected
/// stash, a file list fills the buffer and the file view opens, and a
/// failure shows as an error message with the rest of the state as it was.
/// Without a selected stash nothing changes.
pub fn files_loaded(app: &mut App, raw: Result<String, GatewayError>)
    ensures
        final(app)@ == content_step(old(app)@, ModeView::Files, text_view(raw)),
{
    content_loaded(app, true, raw)
}

fn mutation_done(app: &mut App, text: String, result: Result<(), GatewayError>) -> (r: Command)
    ensures
        (final(app)@, r@) == done_step(old(app)@, text@, unit_view(result)),
{
    match result {
        Ok(_) => Command::Reload(text),
        Err(e) => {
            app.mode = Mode::Message(error_message(&e));
            Command::Idle
        },
    }
}

/// Finishes `Command::Run` with how the tool ended. A success asks for the
/// fresh list, with the text that reports the action; a failure shows as an
/// error message and leaves the rest of the state as it was.
pub fn action_done(app: &mut App, action: ConfirmAction, result: Result<(), GatewayError>) -> (r:
    Command)
    ensures
        (final(app)@, r@) == done_step(old(app)@, success_text(action), unit_view(result)),
{
    mutation_done(app, success_message(action), result)
}

/// Finishes `Command::Create` with how the tool ended. A success asks for
/// the fresh list, with the text that reports the new stash by its message;
/// a failure shows as an error message and leaves the rest of the state as
/// it was.
pub fn stash_created(app: &mut App, message: &str, result: Result<(), GatewayError>) -> (r:
    Command)
    ensures
        (final(app)@, r@) == done_step(old(app)@, created_text(message@), unit_view(result)),
{
    let mut text = String::from_str("Stash '");
    text.append(message);
    text.append("' created.");
    mutation_done(app, text, result)
}

/// Finishes `Command::Reload` with what the tool gave. A listing is taken
/// over, with the branch name (empty where its lookup failed), and the text
/// is shown; a failed listing shows as an error message and leaves the
/// collection as it was.
pub fn reload_done(
    app: &mut App,
    text: String,
    listing: Result<Vec<Stash>, GatewayError>,
    branch: Result<String, GatewayError>,
)
    ensures
        final(app)@ == reload_step(
            old(app)@,
            text@,
            listing_view(listing),
            branch_or_empty(branch),
        ),
{
    match app.reload(listing, branch) {
        Ok(_) => {
            app.mode = Mode::Message(text);
        },
        Err(e) => {
            app.mode = Mode::Message(error_message(&e));
        },
    }
}

} // verus!
