//! The decisions of the interactive UI as a state machine: keys, pastes and
//! mouse events change the state and may ask the app for an action on the
//! session (pause, resume, remove, delete, add); the app performs it and
//! reports the outcome back.
use vstd::prelude::*;

use crate::library::{
    delete_target_name, DeleteTarget, LibraryMap, PendingStatus, PendingTorrent, SessionRow,
};
use crate::popup::{ContextMenu, Layout};
use crate::text::{chars_of, extend_str, starts_with_chars, starts_with_spec, string_of, trim_chars, trim_spec};
use vstd::arithmetic::div_mod::{
    lemma_add_mod_noop, lemma_mod_add_multiples_vanish, lemma_small_mod, lemma_sub_mod_noop,
};
use crate::ui::{
    lemma_byte_len_concat, lemma_byte_len_take,
    backspace_char_at, byte_len, byte_offset, char_index_of, char_width, context_menu_options,
    context_menu_options_spec, context_option_at, context_option_at_spec, cycle_context_selection,
    filter_commands, filter_commands_spec, help_notice, home_action_for_key, home_action_for_key_spec, insert_char_at,
    is_boundary, pairs_view, parse_add_command, parse_add_command_spec, should_open_command_menu,
    should_open_command_menu_spec, string_lit,
    table_row_to_index, table_row_to_index_spec, utf8_width, ContextAction, HomeAction, Key, UiView,
};

verus! {

/// What the app must do on the session after an event.
#[derive(Clone, Debug)]
pub enum UiAction {
    Nothing,
    /// Pause torrent `id`, then report with `row_action_done`.
    Pause { id: usize, name: String },
    /// Resume torrent `id`, then report with `row_action_done`.
    Resume { id: usize, name: String },
    /// Remove torrent `id` from the queue (files stay), then report.
    Remove { id: usize, name: String },
    /// Delete torrent `id` and its files, then report with `delete_done`.
    DeleteTorrent { id: usize, name: String },
    /// Check that `source` can be added (magnet, torrent file or URL), then
    /// report with `submit_checked`; `restore` is the prompt text to put
    /// back when it cannot.
    CheckSource { source: String, restore: Option<String> },
}

/// Kind of a session action on a row.
#[derive(Clone, Copy, PartialEq, Eq, Debug, Structural)]
pub enum RowOp {
    Pause,
    Resume,
    Remove,
}

/// Mouse events the UI reacts to.
#[derive(Clone, Copy, PartialEq, Eq, Debug, Structural)]
pub enum MouseKind {
    LeftDown,
    RightDown,
    ScrollUp,
    ScrollDown,
    Other,
}

/// The state of the interactive UI.
pub struct UiState {
    pub view: UiView,
    /// Text of the prompt.
    pub input: String,
    /// Highlighted entry of the palette.
    pub menu_index: usize,
    /// Selected entry of the library (torrents, then pending sources).
    pub row_index: usize,
    /// Cursor of the prompt, as a byte offset into `input`.
    pub prompt_cursor: usize,
    /// The prompt asks for a source to add.
    pub prompt_add_mode: bool,
    /// Transient notice.
    pub notice: Option<String>,
    /// Deletion waiting for a yes/no answer.
    pub confirming_delete: Option<DeleteTarget>,
    /// Open context menu.
    pub context_menu: Option<ContextMenu>,
    /// Rectangle of the context menu drawn last.
    pub context_rect: Option<(u16, u16, u16, u16)>,
    /// Click layout of the listed block drawn last.
    pub layout: Option<Layout>,
    /// Screen lines of the library card drawn last.
    pub library_map: Option<LibraryMap>,
    pub library_scroll: usize,
    pub library_region: Option<(u16, u16)>,
    pub history_scroll: usize,
    pub history_region: Option<(u16, u16)>,
    /// Sources being added in the background.
    pub pending: Vec<PendingTorrent>,
    pub running: bool,
}

/// The action that pauses the selected entry: the selected torrent's, or
/// none when a pending source is selected.
pub open spec fn pause_act(before: UiState, rows: Seq<SessionRow>, act: UiAction) -> bool {
    &&& before.row_index < rows.len() ==> act == (UiAction::Pause {
        id: rows[before.row_index as int].id,
        name: rows[before.row_index as int].name,
    })
    &&& before.row_index >= rows.len() ==> act is Nothing
}

/// The action that resumes the selected entry.
pub open spec fn resume_act(before: UiState, rows: Seq<SessionRow>, act: UiAction) -> bool {
    &&& before.row_index < rows.len() ==> act == (UiAction::Resume {
        id: rows[before.row_index as int].id,
        name: rows[before.row_index as int].name,
    })
    &&& before.row_index >= rows.len() ==> act is Nothing
}

/// Deleting entry `entry` asks for confirmation: of the torrent, or of the
/// pending source, at that place of the library.
pub open spec fn delete_asked(before: UiState, after: UiState, rows: Seq<SessionRow>, entry: int) -> bool {
    &&& 0 <= entry < rows.len() ==> after.confirming_delete == Some(
        DeleteTarget::Torrent { id: rows[entry].id, name: rows[entry].name },
    )
    &&& rows.len() <= entry < rows.len() + before.pending@.len() ==> after.confirming_delete == Some(
        DeleteTarget::Pending { name: before.pending@[entry - rows.len()].source },
    )
}

/// What running the palette command `cmd` does: `/add` opens the add mode
/// with an empty prompt, `/pause` and `/resume` act on the selected entry,
/// `/delete` asks to confirm deleting it, `/help` shows the help, `/exit`
/// quits, anything else is reported unknown; the pending sources stay.
pub open spec fn command_post(
    before: UiState,
    after: UiState,
    cmd: Seq<char>,
    rows: Seq<SessionRow>,
    act: UiAction,
) -> bool {
    &&& cmd == "/add"@ ==> after.prompt_add_mode && after.input@ == Seq::<char>::empty() && after.view
        == UiView::Home && after.notice is None && act is Nothing
    &&& cmd == "/pause"@ ==> pause_act(before, rows, act)
    &&& cmd == "/resume"@ ==> resume_act(before, rows, act)
    &&& cmd == "/delete"@ ==> after.view == UiView::Home && act is Nothing && delete_asked(
        before,
        after,
        rows,
        before.row_index as int,
    )
    &&& cmd == "/help"@ ==> opt_str(after.notice) == Some(crate::ui::help_notice_spec()) && act is Nothing
    &&& cmd == "/exit"@ ==> !after.running && act is Nothing
    &&& cmd != "/add"@ && cmd != "/pause"@ && cmd != "/resume"@ && cmd != "/delete"@ && cmd != "/help"@
        && cmd != "/exit"@ ==> opt_str(after.notice) == Some("comando desconhecido: "@ + cmd) && act is Nothing
    &&& after.pending == before.pending
}

/// The entry the open context menu is about.
pub open spec fn context_entry(s: UiState) -> int {
    match s.context_menu {
        Some(cm) => cm.entry_index as int,
        None => 0,
    }
}

/// What running the context option `action` does: the menu closes and the
/// option acts on the entry the menu was opened for (pause, resume, remove,
/// or a request to confirm its deletion).
pub open spec fn context_action_post(
    before: UiState,
    after: UiState,
    action: ContextAction,
    rows: Seq<SessionRow>,
    act: UiAction,
) -> bool {
    let e = context_entry(before);
    &&& after.context_menu is None
    &&& action == ContextAction::Pause ==> (e < rows.len() ==> act == (UiAction::Pause {
        id: rows[e].id,
        name: rows[e].name,
    })) && (e >= rows.len() ==> act is Nothing)
    &&& action == ContextAction::Resume ==> (e < rows.len() ==> act == (UiAction::Resume {
        id: rows[e].id,
        name: rows[e].name,
    })) && (e >= rows.len() ==> act is Nothing)
    &&& action == ContextAction::Stop ==> (e < rows.len() ==> act == (UiAction::Remove {
        id: rows[e].id,
        name: rows[e].name,
    })) && (e >= rows.len() ==> act is Nothing && (e - rows.len() < before.pending@.len()
        ==> after.pending@ == before.pending@.remove(e - rows.len())))
    &&& action == ContextAction::Delete ==> act is Nothing && delete_asked(before, after, rows, e)
}

/// The option of the open context menu under a click at `(column, row)`,
/// within the menu drawn last.
pub open spec fn context_click(before: UiState, column: u16, row: u16, rows: Seq<SessionRow>) -> Option<int> {
    let n = context_menu_options_spec(context_entry(before), rows.len() as int).len() as int;
    match before.context_rect {
        Some(rect) => if rect.0 <= column < rect.0 + rect.2 && rect.1 + rect.3 <= 0xffff {
            context_option_at_spec(row as int, rect.1 as int, rect.3 as int, n)
        } else {
            None
        },
        None => None,
    }
}

/// The prompt after a backspace: the character before the cursor is gone
/// and the cursor stands where it began; at the start nothing changes.
pub open spec fn backspaced(before: UiState, after: UiState) -> bool {
    if before.prompt_cursor == 0 {
        after.input@ == before.input@ && after.prompt_cursor == 0
    } else {
        let k = char_index_of(before.input@, before.prompt_cursor as int);
        &&& after.input@ == before.input@.take(k - 1) + before.input@.skip(k)
        &&& after.prompt_cursor == byte_offset(before.input@, k - 1)
    }
}

/// The prompt after typing `c`: the character goes in at the cursor, which
/// moves past it.
pub open spec fn typed_at_cursor(before: UiState, after: UiState, c: char) -> bool {
    &&& after.input@ == typed(before.input@, before.prompt_cursor as int, c)
    &&& after.prompt_cursor == before.prompt_cursor + utf8_width(c)
}

/// What a key does in the add mode: a typed character goes in at the
/// cursor, Backspace deletes the one before it, Enter asks the app to check
/// the source typed (or asks for one when the prompt is blank), Esc leaves
/// the mode with an empty prompt, Ctrl+C quits; other keys do nothing.
pub open spec fn add_key_post(before: UiState, after: UiState, key: Key, ctrl: bool, act: UiAction) -> bool {
    &&& key == Key::Esc ==> !after.prompt_add_mode && after.input@ == Seq::<char>::empty()
        && after.notice is None && act is Nothing
    &&& (key matches Key::Char(c) && !ctrl && before.prompt_cursor + 4 <= usize::MAX) ==> (key matches Key::Char(
        c,
    ) && typed_at_cursor(before, after, c) && after.notice is None && act is Nothing)
    &&& key == Key::Char('c') && ctrl ==> !after.running && act is Nothing
    &&& key == Key::Backspace ==> backspaced(before, after) && act is Nothing
    &&& key == Key::Enter ==> ({
        &&& trim_spec(before.input@).len() > 0 ==> (act matches UiAction::CheckSource {
            source: s,
            restore: r,
        } && s@ == trim_spec(before.input@) && r is None) && after.input == before.input
        &&& trim_spec(before.input@).len() == 0 ==> act is Nothing && opt_str(after.notice) == Some(
            "informe uma origem (magnet, .torrent ou URL)"@,
        ) && after.input == before.input
    })
    &&& !(key is Esc || key is Char || key is Backspace || key is Enter) ==> act is Nothing
        && after.input == before.input
}

/// What a key does with the context menu open: ↑/↓ move its highlight with
/// wrap-around, Enter runs the highlighted option, Esc closes it; other
/// keys do nothing.
pub open spec fn context_key_post(
    before: UiState,
    after: UiState,
    key: Key,
    rows: Seq<SessionRow>,
    act: UiAction,
) -> bool {
    &&& key == Key::Esc ==> after.context_menu is None && act is Nothing
    &&& (key == Key::Up || key == Key::Down) ==> act is Nothing && after.row_index == before.row_index && (
    before.context_menu matches Some(cm) ==> ({
        let len = context_menu_options_spec(cm.entry_index as int, rows.len() as int).len() as int;
        after.context_menu == Some(
            ContextMenu {
                selected: crate::ui::cycle_context_selection_spec(
                    cm.selected as int % len,
                    len,
                    if key == Key::Up {
                        -1
                    } else {
                        1
                    },
                ) as usize,
                ..cm
            },
        )
    }))
    &&& key == Key::Enter ==> match before.context_menu {
        Some(cm) => {
            let opts = context_menu_options_spec(cm.entry_index as int, rows.len() as int);
            if cm.selected < opts.len() {
                context_action_post(before, after, opts[cm.selected as int], rows, act)
            } else {
                act is Nothing
            }
        },
        None => act is Nothing,
    }
    &&& !(key is Esc || key is Up || key is Down || key is Enter) ==> act is Nothing
        && after.context_menu == before.context_menu
}

/// What a key does in the command palette: Esc closes it with an empty
/// prompt, ↑/↓ (k/j) move the highlight with wrap-around, Tab puts the
/// highlighted command in the prompt and goes home, Enter runs the
/// highlighted command, Ctrl+C quits; the pending sources stay.
pub open spec fn menu_key_post(
    before: UiState,
    after: UiState,
    key: Key,
    ctrl: bool,
    rows: Seq<SessionRow>,
    act: UiAction,
) -> bool {
    &&& (key == Key::Esc ==> after.view == UiView::Home && after.input@ == Seq::<char>::empty()
        && act is Nothing)
    &&& ((key == Key::Up || key == Key::Char('k') || key == Key::Down || key == Key::Char('j'))
        ==> act is Nothing && after.input == before.input && ({
        let n = filter_commands_spec(before.input@).len() as int;
        after.menu_index == if n == 0 {
            before.menu_index as int
        } else if key == Key::Up || key == Key::Char('k') {
            (before.menu_index as int % n + n - 1) % n
        } else {
            (before.menu_index as int % n + 1) % n
        }
    }))
    &&& (key == Key::Tab && before.menu_index < filter_commands_spec(before.input@).len()
        ==> after.input@ == filter_commands_spec(before.input@)[before.menu_index as int].0
        && after.view == UiView::Home)
    &&& (key == Key::Enter ==> if before.menu_index < filter_commands_spec(before.input@).len() {
        command_post(before, after, filter_commands_spec(before.input@)[before.menu_index as int].0, rows, act)
    } else {
        act is Nothing
    })
    &&& (key == Key::Char('c') && ctrl ==> !after.running)
    &&& after.pending == before.pending
}

/// What a key does on the home screen.
/// - A pending delete confirmation takes Y/S (delete: the torrent's
///   deletion is asked of the app, a pending source is dropped), N/Esc
///   (cancel, with its notice) and Ctrl+C, and keeps the prompt.
/// - Otherwise, outside the add mode and the context menu: Ctrl+P opens the
///   palette; with an empty prompt p/r/x act on the selected entry (pause,
///   resume, remove) and Delete asks to confirm its deletion; `/` opens the
///   palette with `/`; a typed character goes in at the cursor and
///   Backspace deletes the one before it (either reopens the palette when
///   the prompt then calls for it); Enter runs
///   what was typed (`/add <source>` adds it, `/add` opens the add mode, a
///   `/` command runs, other text is dropped); Esc clears the prompt; ↑/↓
///   move the selection with wrap-around.
/// - In the add mode the keys edit the source and Enter submits it; with
///   the context menu open the keys drive it.
pub open spec fn home_key_post(
    before: UiState,
    after: UiState,
    key: Key,
    ctrl: bool,
    rows: Seq<SessionRow>,
    act: UiAction,
) -> bool {
    let ctrl_p = (key == Key::Char('p') || key == Key::Char('P')) && ctrl;
    let action = home_action_for_key_spec(key, before.input@.len() == 0, false, false);
    &&& (before.confirming_delete is Some ==> ({
        &&& (key == Key::Char('n') || key == Key::Char('N') || key == Key::Esc)
            ==> after.confirming_delete is None && opt_str(after.notice) == Some(
            "exclusão cancelada"@,
        ) && act is Nothing
        &&& (key == Key::Char('y') || key == Key::Char('Y') || key == Key::Char('s') || key
            == Key::Char('S')) ==> after.confirming_delete is None && (before.confirming_delete matches Some(
            DeleteTarget::Torrent { id, name },
        ) ==> act == (UiAction::DeleteTorrent { id, name })) && (before.confirming_delete matches Some(
            DeleteTarget::Pending { name },
        ) ==> act is Nothing && after.pending@ == without_source(before.pending@, name@))
        &&& key == Key::Char('c') && ctrl ==> !after.running
        &&& after.input == before.input
    }))
    &&& (before.confirming_delete is None && !before.prompt_add_mode && before.context_menu is None
        ==> ({
        &&& ctrl_p ==> after.view == UiView::Menu && after.input@ == Seq::<char>::empty()
            && after.menu_index == 0 && act is Nothing
        &&& !ctrl_p && action == Some(HomeAction::Pause) ==> pause_act(before, rows, act)
        &&& !ctrl_p && action == Some(HomeAction::Resume) ==> resume_act(before, rows, act)
        &&& !ctrl_p && action == Some(HomeAction::Remove) ==> ({
            &&& before.row_index < rows.len() ==> act == (UiAction::Remove {
                id: rows[before.row_index as int].id,
                name: rows[before.row_index as int].name,
            })
            &&& before.row_index >= rows.len() ==> act is Nothing && (before.row_index - rows.len()
                < before.pending@.len() ==> after.pending@ == before.pending@.remove(
                before.row_index - rows.len(),
            ))
        })
        &&& !ctrl_p && action == Some(HomeAction::Delete) ==> act is Nothing && delete_asked(
            before,
            after,
            rows,
            before.row_index as int,
        )
        &&& !ctrl_p && action is None ==> ({
            &&& key == Key::Char('/') ==> after.view == UiView::Menu && after.input@ == "/"@
                && act is Nothing
            &&& (key matches Key::Char(c) && c != '/' && !ctrl && before.prompt_cursor + 4
                <= usize::MAX) ==> (key matches Key::Char(c) && typed_at_cursor(before, after, c)
                && after.notice is None && act is Nothing && (should_open_command_menu_spec(
                after.input@,
            ) ==> after.view == UiView::Menu && after.menu_index == 0))
            &&& key == Key::Backspace ==> backspaced(before, after) && act is Nothing && (
            should_open_command_menu_spec(after.input@) ==> after.view == UiView::Menu
                && after.menu_index == 0)
            &&& key == Key::Char('c') && ctrl ==> !after.running && act is Nothing
            &&& key == Key::Enter ==> enter_post(before, after, trim_spec(before.input@), rows, act)
            &&& key == Key::Esc ==> after.input@ == Seq::<char>::empty() && act is Nothing
            &&& (key == Key::Up || key == Key::Down) ==> act is Nothing && after.row_index == (
            if rows.len() + before.pending@.len() == 0 {
                0
            } else {
                (before.row_index + (if key == Key::Down {
                    1int
                } else {
                    -1int
                })) % ((rows.len() + before.pending@.len()) as int)
            })
        })
    }))
    &&& (before.confirming_delete is None && before.prompt_add_mode ==> add_key_post(
        before,
        after,
        key,
        ctrl,
        act,
    ))
    &&& (before.confirming_delete is None && !before.prompt_add_mode && before.context_menu is Some
        ==> context_key_post(before, after, key, rows, act))
}

/// What Enter does with the typed command `cmd` (the prompt, trimmed):
/// `/add <source>` asks the app to check the source (keeping the command to
/// restore), or asks for one when it is blank; `/add` alone opens the add
/// mode; another `/` command runs; other text is dropped.
pub open spec fn enter_post(
    before: UiState,
    after: UiState,
    cmd: Seq<char>,
    rows: Seq<SessionRow>,
    act: UiAction,
) -> bool {
    match parse_add_command_spec(cmd) {
        Some(src) => {
            &&& trim_spec(src).len() > 0 ==> (act matches UiAction::CheckSource { source: s, restore: r }
                && s@ == trim_spec(src) && (r matches Some(rr) && rr@ == cmd))
            &&& trim_spec(src).len() == 0 ==> act is Nothing && opt_str(after.notice) == Some(
                "informe uma origem (magnet, .torrent ou URL)"@,
            ) && after.input@ == cmd
        },
        None => if cmd == "/add"@ {
            after.prompt_add_mode && after.notice is None && act is Nothing
        } else if starts_with_spec(cmd, "/"@) {
            command_post(before, after, cmd, rows, act)
        } else {
            act is Nothing && after.input@ == Seq::<char>::empty()
        },
    }
}

/// The message of the last finished entry, if any.
pub open spec fn last_done_message(pending: Seq<PendingTorrent>) -> Option<String>
    decreases pending.len(),
{
    if pending.len() == 0 {
        None
    } else {
        match pending.last().status {
            PendingStatus::Done(m) => Some(m),
            _ => last_done_message(pending.drop_last()),
        }
    }
}

/// Entry `j` is the first pending entry whose source is `source`.
pub open spec fn first_pending_with(pending: Seq<PendingTorrent>, source: Seq<char>, j: int) -> bool {
    &&& pending[j].source@ == source
    &&& forall|k: int| 0 <= k < j ==> pending[k].source@ != source
}

/// The prompt cursor stands on a character boundary of the prompt.
pub open spec fn ui_wf(s: UiState) -> bool {
    is_boundary(s.input@, s.prompt_cursor as int)
}

pub open spec fn opt_str(s: Option<String>) -> Option<Seq<char>> {
    match s {
        Some(t) => Some(t@),
        None => None,
    }
}

/// Number of library entries: torrents and pending sources.
pub open spec fn entry_count(s: UiState, rows_len: int) -> int {
    rows_len + s.pending@.len()
}


/// A byte offset at the end of `s` (its byte length, when that fits in a
/// `usize`, which it always does for a string in memory).
pub fn end_cursor(s: &str) -> (n: usize)
    ensures
        is_boundary(s@, n as int),
        byte_len(s@) <= usize::MAX ==> n == byte_len(s@),
{
    let v = chars_of(s);
    let mut n: usize = 0;
    let mut i: usize = 0;
    while i < v.len()
        invariant
            i <= v.len(),
            v@ == s@,
            n == byte_offset(v@, i as int),
        decreases v.len() - i,
    {
        let w = char_width(v[i]);
        if n > usize::MAX - w {
            proof {
                crate::ui::lemma_byte_offset_mono(v@, i + 1, v@.len() as int);
            }
            assert(byte_offset(v@, 0) == 0);
            return 0;
        }
        n = n + w;
        i = i + 1;
    }
    n
}

/// `s` with the sources equal to `name` left out.
pub open spec fn without_source(s: Seq<PendingTorrent>, name: Seq<char>) -> Seq<PendingTorrent> {
    s.filter(|p: PendingTorrent| p.source@ != name)
}

/// The selection kept inside the `total` entries.
pub open spec fn clamped_row(row: int, total: int) -> int {
    if total == 0 {
        0
    } else if row >= total {
        total - 1
    } else {
        row
    }
}

/// Notice of a source that cannot be resolved yet.
pub open spec fn initializing_notice() -> Seq<char> {
    "torrent em inicialização — aguarde a resolução"@
}

impl UiState {
    /// The state of a fresh UI: home screen, empty prompt, nothing pending.
    pub fn new() -> (s: UiState)
        ensures
            ui_wf(s),
            s.view == UiView::Home,
            s.input@ == Seq::<char>::empty(),
            s.prompt_cursor == 0,
            s.row_index == 0,
            s.menu_index == 0,
            !s.prompt_add_mode,
            s.notice is None,
            s.confirming_delete is None,
            s.context_menu is None,
            s.pending@.len() == 0,
            s.running,
    {
        let s = UiState {
            view: UiView::Home,
            input: String::new(),
            menu_index: 0,
            row_index: 0,
            prompt_cursor: 0,
            prompt_add_mode: false,
            notice: None,
            confirming_delete: None,
            context_menu: None,
            context_rect: None,
            layout: None,
            library_map: None,
            library_scroll: 0,
            library_region: None,
            history_scroll: 0,
            history_region: None,
            pending: Vec::new(),
            running: true,
        };
        assert(byte_offset(s.input@, 0) == 0);
        s
    }

    /// Clears the prompt.
    fn clear_prompt(&mut self)
        ensures
            final(self).input@ == Seq::<char>::empty(),
            final(self).prompt_cursor == 0,
            ui_wf(*final(self)),
            final(self).view == old(self).view,
            final(self).row_index == old(self).row_index,
            final(self).pending == old(self).pending,
            final(self).notice == old(self).notice,
            final(self).prompt_add_mode == old(self).prompt_add_mode,
            final(self).confirming_delete == old(self).confirming_delete,
            final(self).context_menu == old(self).context_menu,
            final(self).running == old(self).running,
    {
        self.input = String::new();
        self.prompt_cursor = 0;
        assert(byte_offset(self.input@, 0) == 0);
    }

    /// Keeps the selection inside the entries (torrents and pending sources)
    /// after some were removed.
    pub fn clamp_row_index(&mut self, rows_len: usize)
        requires
            rows_len + old(self).pending@.len() <= usize::MAX,
        ensures
            final(self).row_index == clamped_row(
                old(self).row_index as int,
                (rows_len + old(self).pending@.len()) as int,
            ),
            final(self).confirming_delete == old(self).confirming_delete,
            final(self).context_menu == old(self).context_menu,
            final(self).prompt_add_mode == old(self).prompt_add_mode,
            final(self).input == old(self).input,
            final(self).prompt_cursor == old(self).prompt_cursor,
            final(self).pending == old(self).pending,
            final(self).notice == old(self).notice,
            final(self).view == old(self).view,
            final(self).running == old(self).running,
    {
        let remaining = rows_len + self.pending.len();
        if remaining == 0 {
            self.row_index = 0;
        } else if self.row_index >= remaining {
            self.row_index = remaining - 1;
        }
    }

    /// Moves the selection by `delta` entries, wrapping around.
    pub fn move_row(&mut self, delta: isize, rows_len: usize)
        requires
            rows_len + old(self).pending@.len() <= isize::MAX,
            old(self).row_index <= isize::MAX,
            isize::MIN <= old(self).row_index + delta <= isize::MAX,
        ensures
            final(self).row_index == (if rows_len + old(self).pending@.len() == 0 {
                0
            } else {
                (old(self).row_index + delta) % (rows_len + old(self).pending@.len())
            }),
            final(self).input == old(self).input,
            final(self).prompt_cursor == old(self).prompt_cursor,
            final(self).pending == old(self).pending,
            final(self).notice == old(self).notice,
            final(self).view == old(self).view,
            final(self).running == old(self).running,
    {
        let total = rows_len + self.pending.len();
        if total == 0 {
            self.row_index = 0;
            return ;
        }
        self.row_index = cycle_context_selection(self.row_index, total, delta);
    }

    /// Asks to confirm the deletion of entry `entry_index`: a torrent of the
    /// session or a pending source; nothing for an index past both.
    pub fn request_delete(&mut self, entry_index: usize, rows: &Vec<SessionRow>)
        ensures
            entry_index < rows@.len() ==> final(self).confirming_delete == Some(
                DeleteTarget::Torrent {
                    id: rows@[entry_index as int].id,
                    name: rows@[entry_index as int].name,
                },
            ) && final(self).notice is None,
            rows@.len() <= entry_index < rows@.len() + old(self).pending@.len() ==> final(self).confirming_delete == Some(
                DeleteTarget::Pending { name: old(self).pending@[entry_index - rows@.len()].source },
            ) && final(self).notice is None,
            entry_index >= rows@.len() + old(self).pending@.len() ==> final(self).confirming_delete
                == old(self).confirming_delete && final(self).notice == old(self).notice,
            final(self).input == old(self).input,
            final(self).prompt_cursor == old(self).prompt_cursor,
            final(self).pending == old(self).pending,
            final(self).row_index == old(self).row_index,
            final(self).view == old(self).view,
            final(self).running == old(self).running,
            final(self).context_menu == old(self).context_menu,
            final(self).prompt_add_mode == old(self).prompt_add_mode,
    {
        let target = if entry_index < rows.len() {
            DeleteTarget::Torrent { id: rows[entry_index].id, name: rows[entry_index].name.clone() }
        } else {
            let rel = entry_index - rows.len();
            if rel >= self.pending.len() {
                return ;
            }
            DeleteTarget::Pending { name: self.pending[rel].source.clone() }
        };
        self.confirming_delete = Some(target);
        self.notice = None;
    }

    /// Leaves out the pending sources equal to `name`; whether any was.
    fn discard_pending(&mut self, name: &str) -> (found: bool)
        ensures
            final(self).pending@ == without_source(old(self).pending@, name@),
            found == (final(self).pending@.len() != old(self).pending@.len()),
            final(self).input == old(self).input,
            final(self).prompt_cursor == old(self).prompt_cursor,
            final(self).row_index == old(self).row_index,
            final(self).notice == old(self).notice,
            final(self).confirming_delete == old(self).confirming_delete,
            final(self).view == old(self).view,
            final(self).running == old(self).running,
    {
        let ghost pred = |p: PendingTorrent| p.source@ != name@;
        let ghost orig = self.pending@;
        let mut src: Vec<PendingTorrent> = Vec::new();
        std::mem::swap(&mut src, &mut self.pending);
        let mut kept: Vec<PendingTorrent> = Vec::new();
        let n = src.len();
        let mut i: usize = 0;
        assert(orig.skip(0) =~= orig);
        while src.len() > 0
            invariant
                i <= n,
                n == orig.len(),
                src@ == orig.skip(i as int),
                self.pending@.len() == 0,
                self.input == old(self).input,
                self.prompt_cursor == old(self).prompt_cursor,
                self.row_index == old(self).row_index,
                self.notice == old(self).notice,
                self.confirming_delete == old(self).confirming_delete,
                self.view == old(self).view,
                self.running == old(self).running,
                orig == old(self).pending@,
                pred == (|p: PendingTorrent| p.source@ != name@),
                kept@ == orig.take(i as int).filter(pred),
            decreases src.len(),
        {
            let p = src.remove(0);
            proof {
                reveal_with_fuel(Seq::filter, 2);
                let t = orig.take(i + 1);
                assert(t.drop_last() =~= orig.take(i as int));
                assert(t.last() == p);
                assert(src@ =~= orig.skip(i + 1));
            }
            if !crate::library::chars_equal(p.source.as_str(), name) {
                kept.push(p);
                assert(kept@ =~= orig.take(i + 1).filter(pred));
            }
            i = i + 1;
        }
        assert(orig.take(n as int) =~= orig);
        let found = kept.len() != n;
        self.pending = kept;
        found
    }

    /// Answers yes to the pending delete confirmation: a torrent asks the app
    /// to delete it (report with `delete_done`); a pending source is dropped
    /// here. Nothing without a pending confirmation.
    pub fn confirm_delete(&mut self, rows_len: usize) -> (act: UiAction)
        requires
            rows_len + old(self).pending@.len() <= usize::MAX,
        ensures
            final(self).confirming_delete is None,
            old(self).confirming_delete is None ==> act is Nothing,
            old(self).confirming_delete matches Some(DeleteTarget::Torrent { id, name }) ==> act
                == (UiAction::DeleteTorrent { id, name }),
            old(self).confirming_delete matches Some(DeleteTarget::Pending { name }) ==> {
                &&& act is Nothing
                &&& final(self).pending@ == without_source(old(self).pending@, name@)
                &&& opt_str(final(self).notice) == Some(
                    if final(self).pending@.len() == old(self).pending@.len() {
                        name@ + " já não está pendente"@
                    } else {
                        "excluído: "@ + name@ + " (pendente descartado)"@
                    },
                )
                &&& final(self).row_index == clamped_row(
                    old(self).row_index as int,
                    (rows_len + final(self).pending@.len()) as int,
                )
            },
            final(self).input == old(self).input,
            final(self).prompt_cursor == old(self).prompt_cursor,
            final(self).view == old(self).view,
            final(self).running == old(self).running,
    {
        let mut target: Option<DeleteTarget> = None;
        std::mem::swap(&mut target, &mut self.confirming_delete);
        self.confirming_delete = None;
        match target {
            None => UiAction::Nothing,
            Some(DeleteTarget::Torrent { id, name }) => UiAction::DeleteTorrent { id, name },
            Some(DeleteTarget::Pending { name }) => {
                let found = self.discard_pending(name.as_str());
                let mut v: Vec<char> = Vec::new();
                if !found {
                    extend_str(&mut v, name.as_str());
                    extend_str(&mut v, " já não está pendente");
                } else {
                    extend_str(&mut v, "excluído: ");
                    extend_str(&mut v, name.as_str());
                    extend_str(&mut v, " (pendente descartado)");
                }
                self.notice = Some(string_of(&v));
                self.clamp_row_index(rows_len);
                UiAction::Nothing
            },
        }
    }

    /// Reports the deletion of torrent `name`: a notice either way and, on
    /// success, the selection kept inside the `rows_len` torrents left.
    pub fn delete_done(&mut self, name: &str, result: Result<(), String>, rows_len: usize)
        requires
            rows_len + old(self).pending@.len() <= usize::MAX,
        ensures
            result is Ok ==> opt_str(final(self).notice) == Some(
                "excluído: "@ + name@ + " (arquivos removidos)"@,
            ) && final(self).row_index == clamped_row(
                old(self).row_index as int,
                (rows_len + old(self).pending@.len()) as int,
            ),
            result matches Err(e) ==> opt_str(final(self).notice) == Some(
                "falha ao excluir: "@ + e@,
            ) && final(self).row_index == old(self).row_index,
            final(self).input == old(self).input,
            final(self).prompt_cursor == old(self).prompt_cursor,
            final(self).pending == old(self).pending,
            final(self).view == old(self).view,
            final(self).running == old(self).running,
    {
        let mut v: Vec<char> = Vec::new();
        match result {
            Ok(()) => {
                extend_str(&mut v, "excluído: ");
                extend_str(&mut v, name);
                extend_str(&mut v, " (arquivos removidos)");
                self.notice = Some(string_of(&v));
                self.clamp_row_index(rows_len);
            },
            Err(e) => {
                extend_str(&mut v, "falha ao excluir: ");
                extend_str(&mut v, e.as_str());
                self.notice = Some(string_of(&v));
            },
        }
    }

    /// Pauses the selected torrent (the app reports with `row_action_done`);
    /// a pending source cannot be paused yet.
    pub fn pause_row(&mut self, rows: &Vec<SessionRow>) -> (act: UiAction)
        ensures
            old(self).row_index < rows@.len() ==> act == (UiAction::Pause {
                id: rows@[old(self).row_index as int].id,
                name: rows@[old(self).row_index as int].name,
            }) && final(self).notice == old(self).notice,
            old(self).row_index >= rows@.len() ==> act is Nothing && opt_str(final(self).notice)
                == Some(initializing_notice()),
            final(self).input == old(self).input,
            final(self).prompt_cursor == old(self).prompt_cursor,
            final(self).pending == old(self).pending,
            final(self).row_index == old(self).row_index,
            final(self).view == old(self).view,
            final(self).running == old(self).running,
            final(self).context_menu == old(self).context_menu,
            final(self).prompt_add_mode == old(self).prompt_add_mode,
            final(self).confirming_delete == old(self).confirming_delete,
    {
        if self.row_index < rows.len() {
            UiAction::Pause { id: rows[self.row_index].id, name: rows[self.row_index].name.clone() }
        } else {
            self.notice = Some(string_lit("torrent em inicialização — aguarde a resolução"));
            UiAction::Nothing
        }
    }

    /// Resumes the selected torrent (the app reports with `row_action_done`).
    pub fn resume_row(&mut self, rows: &Vec<SessionRow>) -> (act: UiAction)
        ensures
            old(self).row_index < rows@.len() ==> act == (UiAction::Resume {
                id: rows@[old(self).row_index as int].id,
                name: rows@[old(self).row_index as int].name,
            }) && final(self).notice == old(self).notice,
            old(self).row_index >= rows@.len() ==> act is Nothing && opt_str(final(self).notice)
                == Some(initializing_notice()),
            final(self).input == old(self).input,
            final(self).prompt_cursor == old(self).prompt_cursor,
            final(self).pending == old(self).pending,
            final(self).row_index == old(self).row_index,
            final(self).view == old(self).view,
            final(self).running == old(self).running,
            final(self).context_menu == old(self).context_menu,
            final(self).prompt_add_mode == old(self).prompt_add_mode,
            final(self).confirming_delete == old(self).confirming_delete,
    {
        if self.row_index < rows.len() {
            UiAction::Resume { id: rows[self.row_index].id, name: rows[self.row_index].name.clone() }
        } else {
            self.notice = Some(string_lit("torrent em inicialização — aguarde a resolução"));
            UiAction::Nothing
        }
    }

    /// Removes the selected entry from the queue: a torrent is removed by
    /// the app (report with `row_action_done`), a pending source is dropped
    /// here with a notice.
    pub fn remove_row(&mut self, rows: &Vec<SessionRow>) -> (act: UiAction)
        requires
            rows@.len() + old(self).pending@.len() <= usize::MAX,
        ensures
            old(self).row_index < rows@.len() ==> act == (UiAction::Remove {
                id: rows@[old(self).row_index as int].id,
                name: rows@[old(self).row_index as int].name,
            }) && final(self).pending == old(self).pending && final(self).row_index == old(self).row_index,
            old(self).row_index >= rows@.len() ==> {
                let rel = old(self).row_index - rows@.len();
                &&& act is Nothing
                &&& rel < old(self).pending@.len() ==> final(self).pending@ == old(self).pending@.remove(rel) && opt_str(final(self).notice) == Some(
                    "removido da fila: "@ + old(self).pending@[rel].source@,
                )
                &&& rel >= old(self).pending@.len() ==> final(self).pending == old(self).pending
                &&& final(self).row_index == clamped_row(
                    old(self).row_index as int,
                    (rows@.len() + final(self).pending@.len()) as int,
                )
            },
            final(self).input == old(self).input,
            final(self).prompt_cursor == old(self).prompt_cursor,
            final(self).view == old(self).view,
            final(self).running == old(self).running,
            final(self).context_menu == old(self).context_menu,
            final(self).prompt_add_mode == old(self).prompt_add_mode,
            final(self).confirming_delete == old(self).confirming_delete,
    {
        if self.row_index < rows.len() {
            return UiAction::Remove {
                id: rows[self.row_index].id,
                name: rows[self.row_index].name.clone(),
            };
        }
        let rel = self.row_index - rows.len();
        if rel < self.pending.len() {
            let entry = self.pending.remove(rel);
            let mut v: Vec<char> = Vec::new();
            extend_str(&mut v, "removido da fila: ");
            extend_str(&mut v, entry.source.as_str());
            self.notice = Some(string_of(&v));
        }
        self.clamp_row_index(rows.len());
        UiAction::Nothing
    }

    /// Reports a session action done on torrent `name`; after a removal,
    /// `rows_len` torrents are left.
    pub fn row_action_done(&mut self, op: RowOp, name: &str, rows_len: usize)
        requires
            rows_len + old(self).pending@.len() <= usize::MAX,
        ensures
            opt_str(final(self).notice) == Some(
                match op {
                    RowOp::Pause => "pausado: "@,
                    RowOp::Resume => "retomado: "@,
                    RowOp::Remove => "removido da fila: "@,
                } + name@,
            ),
            final(self).row_index == (if op == RowOp::Remove {
                clamped_row(old(self).row_index as int, (rows_len + old(self).pending@.len()) as int)
            } else {
                old(self).row_index as int
            }),
            final(self).input == old(self).input,
            final(self).prompt_cursor == old(self).prompt_cursor,
            final(self).pending == old(self).pending,
            final(self).view == old(self).view,
            final(self).running == old(self).running,
    {
        let mut v: Vec<char> = Vec::new();
        match op {
            RowOp::Pause => extend_str(&mut v, "pausado: "),
            RowOp::Resume => extend_str(&mut v, "retomado: "),
            RowOp::Remove => extend_str(&mut v, "removido da fila: "),
        }
        extend_str(&mut v, name);
        self.notice = Some(string_of(&v));
        if op == RowOp::Remove {
            self.clamp_row_index(rows_len);
        }
    }

    /// A session action failed: the UI stops.
    pub fn action_failed(&mut self)
        ensures
            !final(self).running,
            final(self).input == old(self).input,
            final(self).prompt_cursor == old(self).prompt_cursor,
            final(self).pending == old(self).pending,
            final(self).row_index == old(self).row_index,
            final(self).notice == old(self).notice,
    {
        self.running = false;
    }
}


/// The prompt after typing `c` at the cursor (when the cursor leaves room
/// for one more character in a `usize`).
pub open spec fn typed(input: Seq<char>, cursor: int, c: char) -> Seq<char> {
    let k = char_index_of(input, cursor);
    input.take(k).push(c) + input.skip(k)
}

impl UiState {
    /// Types `c` at the prompt cursor.
    fn insert_prompt_char(&mut self, c: char)
        requires
            ui_wf(*old(self)),
        ensures
            ui_wf(*final(self)),
            old(self).prompt_cursor + 4 <= usize::MAX ==> final(self).input@ == typed(
                old(self).input@,
                old(self).prompt_cursor as int,
                c,
            ) && final(self).prompt_cursor == old(self).prompt_cursor + utf8_width(c),
            old(self).prompt_cursor + 4 > usize::MAX ==> final(self).input == old(self).input
                && final(self).prompt_cursor == old(self).prompt_cursor,
            final(self).view == old(self).view,
            final(self).row_index == old(self).row_index,
            final(self).menu_index == old(self).menu_index,
            final(self).pending == old(self).pending,
            final(self).notice == old(self).notice,
            final(self).prompt_add_mode == old(self).prompt_add_mode,
            final(self).confirming_delete == old(self).confirming_delete,
            final(self).context_menu == old(self).context_menu,
            final(self).running == old(self).running,
    {
        if self.prompt_cursor <= usize::MAX - 4 {
            let pos = self.prompt_cursor;
            self.prompt_cursor = insert_char_at(&mut self.input, pos, c);
        }
    }

    /// Deletes the character before the prompt cursor.
    fn backspace_prompt(&mut self)
        requires
            ui_wf(*old(self)),
        ensures
            ui_wf(*final(self)),
            backspaced(*old(self), *final(self)),
            final(self).view == old(self).view,
            final(self).row_index == old(self).row_index,
            final(self).menu_index == old(self).menu_index,
            final(self).pending == old(self).pending,
            final(self).notice == old(self).notice,
            final(self).prompt_add_mode == old(self).prompt_add_mode,
            final(self).confirming_delete == old(self).confirming_delete,
            final(self).context_menu == old(self).context_menu,
            final(self).running == old(self).running,
    {
        let pos = self.prompt_cursor;
        self.prompt_cursor = backspace_char_at(&mut self.input, pos);
    }

    /// Puts `text` in the prompt with the cursor at its end.
    fn set_prompt(&mut self, text: String)
        ensures
            ui_wf(*final(self)),
            final(self).input@ == text@,
            final(self).view == old(self).view,
            final(self).row_index == old(self).row_index,
            final(self).menu_index == old(self).menu_index,
            final(self).pending == old(self).pending,
            final(self).notice == old(self).notice,
            final(self).prompt_add_mode == old(self).prompt_add_mode,
            final(self).confirming_delete == old(self).confirming_delete,
            final(self).context_menu == old(self).context_menu,
            final(self).running == old(self).running,
    {
        let n = end_cursor(text.as_str());
        self.input = text;
        self.prompt_cursor = n;
    }

    /// Closes the palette once the prompt holds an inline `/add <source>`.
    fn leave_menu_for_inline_add(&mut self)
        ensures
            final(self).view == (if starts_with_spec(old(self).input@, "/add "@) && old(self).view
                == UiView::Menu {
                UiView::Home
            } else {
                old(self).view
            }),
            final(self).input == old(self).input,
            final(self).prompt_cursor == old(self).prompt_cursor,
            final(self).row_index == old(self).row_index,
            final(self).menu_index == old(self).menu_index,
            final(self).pending == old(self).pending,
            final(self).notice == old(self).notice,
            final(self).prompt_add_mode == old(self).prompt_add_mode,
            final(self).confirming_delete == old(self).confirming_delete,
            final(self).context_menu == old(self).context_menu,
            final(self).running == old(self).running,
    {
        if starts_with_chars(&chars_of(self.input.as_str()), &chars_of("/add ")) && self.view
            == UiView::Menu {
            self.view = UiView::Home;
        }
    }

    /// Submits a source typed in the prompt: an empty one gets a notice (and
    /// the prompt text `restore`, when given, is put back); otherwise the app
    /// is asked to check it (report with `submit_checked`).
    pub fn submit_add(&mut self, source: &str, restore: Option<String>) -> (act: UiAction)
        requires
            ui_wf(*old(self)),
        ensures
            ui_wf(*final(self)),
            trim_spec(source@).len() == 0 ==> act is Nothing && opt_str(final(self).notice)
                == Some("informe uma origem (magnet, .torrent ou URL)"@) && (restore matches Some(
                r,
            ) ==> final(self).input@ == r@) && (restore is None ==> final(self).input == old(self).input),
            trim_spec(source@).len() > 0 ==> (act matches UiAction::CheckSource { source: s, restore: r }
                && s@ == trim_spec(source@) && r == restore) && final(self).notice is None
                && final(self).input == old(self).input,
            final(self).pending == old(self).pending,
            final(self).row_index == old(self).row_index,
            final(self).view == old(self).view,
            final(self).prompt_add_mode == old(self).prompt_add_mode,
            final(self).confirming_delete == old(self).confirming_delete,
            final(self).context_menu == old(self).context_menu,
            final(self).running == old(self).running,
    {
        let t = trim_chars(&chars_of(source));
        self.notice = None;
        if t.len() == 0 {
            self.notice = Some(string_lit("informe uma origem (magnet, .torrent ou URL)"));
            match restore {
                Some(r) => self.set_prompt(r),
                None => {},
            }
            return UiAction::Nothing;
        }
        UiAction::CheckSource { source: string_of(&t), restore }
    }

    /// Reports the check of `source`: a rejected one gets a notice with the
    /// reason (and the prompt text `restore` back); an accepted one leaves
    /// the add mode, joins the pending sources and becomes the selection —
    /// the app then adds it in the background.
    pub fn submit_checked(
        &mut self,
        source: String,
        restore: Option<String>,
        result: Result<(), String>,
        rows_len: usize,
    )
        requires
            ui_wf(*old(self)),
            rows_len + old(self).pending@.len() + 1 <= usize::MAX,
        ensures
            ui_wf(*final(self)),
            result matches Err(e) ==> opt_str(final(self).notice) == Some("origem inválida: "@ + e@)
                && (restore matches Some(r) ==> final(self).input@ == r@) && final(self).pending
                == old(self).pending && final(self).row_index == old(self).row_index,
            result is Ok ==> {
                &&& final(self).input@ == Seq::<char>::empty()
                &&& !final(self).prompt_add_mode
                &&& final(self).pending@ == old(self).pending@.push(
                    PendingTorrent { source, status: PendingStatus::Resolving },
                )
                &&& final(self).row_index == rows_len + old(self).pending@.len()
            },
            final(self).view == old(self).view,
            final(self).running == old(self).running,
    {
        match result {
            Err(e) => {
                let mut v: Vec<char> = Vec::new();
                extend_str(&mut v, "origem inválida: ");
                extend_str(&mut v, e.as_str());
                self.notice = Some(string_of(&v));
                match restore {
                    Some(r) => self.set_prompt(r),
                    None => {},
                }
            },
            Ok(()) => {
                self.clear_prompt();
                self.prompt_add_mode = false;
                self.pending.push(PendingTorrent { source, status: PendingStatus::Resolving });
                self.row_index = rows_len + self.pending.len() - 1;
            },
        }
    }

    /// The entry of `source` was added to the session: it leaves the pending
    /// sources.
    pub fn pending_added(&mut self, source: &str)
        ensures
            final(self).pending@ == without_source(old(self).pending@, source@),
            final(self).input == old(self).input,
            final(self).prompt_cursor == old(self).prompt_cursor,
            final(self).row_index == old(self).row_index,
            final(self).notice == old(self).notice,
            final(self).view == old(self).view,
            final(self).running == old(self).running,
    {
        self.discard_pending(source);
    }

    /// Index of the first pending source equal to `source`.
    fn find_pending(&self, source: &str) -> (r: Option<usize>)
        ensures
            r matches Some(i) ==> i < self.pending@.len() && self.pending@[i as int].source@
                == source@ && forall|j: int| 0 <= j < i ==> self.pending@[j].source@ != source@,
            r is None ==> forall|j: int|
                0 <= j < self.pending@.len() ==> self.pending@[j].source@ != source@,
    {
        let mut i: usize = 0;
        while i < self.pending.len()
            invariant
                i <= self.pending@.len(),
                forall|j: int| 0 <= j < i ==> self.pending@[j].source@ != source@,
            decreases self.pending.len() - i,
        {
            if crate::library::chars_equal(self.pending[i].source.as_str(), source) {
                return Some(i);
            }
            i = i + 1;
        }
        None
    }

    /// Sets the status of the first pending source equal to `source`.
    fn set_pending_status(&mut self, source: &str, status: PendingStatus)
        ensures
            final(self).pending@.len() == old(self).pending@.len(),
            forall|j: int|
                0 <= j < old(self).pending@.len() ==> #[trigger] final(self).pending@[j] == (if old(self).pending@[j].source@ == source@ && (forall|k: int|
                    0 <= k < j ==> old(self).pending@[k].source@ != source@) {
                    PendingTorrent { source: old(self).pending@[j].source, status }
                } else {
                    old(self).pending@[j]
                }),
            final(self).input == old(self).input,
            final(self).prompt_cursor == old(self).prompt_cursor,
            final(self).row_index == old(self).row_index,
            final(self).notice == old(self).notice,
            final(self).view == old(self).view,
            final(self).running == old(self).running,
    {
        match self.find_pending(source) {
            Some(i) => {
                let mut entry = self.pending.remove(i);
                entry.status = status;
                self.pending.insert(i, entry);
                assert forall|j: int| 0 <= j < old(self).pending@.len() implies #[trigger] self.pending@[j]
                    == (if old(self).pending@[j].source@ == source@ && (forall|k: int|
                    0 <= k < j ==> old(self).pending@[k].source@ != source@) {
                    PendingTorrent { source: old(self).pending@[j].source, status }
                } else {
                    old(self).pending@[j]
                }) by {
                    if j > i {
                        assert(old(self).pending@[i as int].source@ == source@);
                    }
                }
            },
            None => {},
        }
    }

    /// The source was already in the session: its entry shows the notice
    /// until the next frame.
    pub fn pending_already_managed(&mut self, source: &str)
        ensures
            final(self).pending@.len() == old(self).pending@.len(),
            forall|j: int|
                #![trigger final(self).pending@[j]]
                0 <= j < old(self).pending@.len() ==> if first_pending_with(old(self).pending@, source@, j) {
                    &&& final(self).pending@[j].source == old(self).pending@[j].source
                    &&& final(self).pending@[j].status matches PendingStatus::Done(m)
                    &&& m@ == "origem já gerenciada"@
                } else {
                    final(self).pending@[j] == old(self).pending@[j]
                },
            final(self).notice == old(self).notice,
            final(self).input == old(self).input,
            final(self).prompt_cursor == old(self).prompt_cursor,
            final(self).row_index == old(self).row_index,
            final(self).view == old(self).view,
            final(self).running == old(self).running,
    {
        self.set_pending_status(source, PendingStatus::Done(string_lit("origem já gerenciada")));
    }

    /// Adding the source failed: its entry shows the error.
    pub fn pending_failed(&mut self, source: &str, message: String)
        ensures
            final(self).pending@.len() == old(self).pending@.len(),
            forall|j: int|
                #![trigger final(self).pending@[j]]
                0 <= j < old(self).pending@.len() ==> final(self).pending@[j] == if first_pending_with(
                    old(self).pending@,
                    source@,
                    j,
                ) {
                    PendingTorrent { source: old(self).pending@[j].source, status: PendingStatus::Error(message) }
                } else {
                    old(self).pending@[j]
                },
            final(self).notice == old(self).notice,
            final(self).input == old(self).input,
            final(self).prompt_cursor == old(self).prompt_cursor,
            final(self).row_index == old(self).row_index,
            final(self).view == old(self).view,
            final(self).running == old(self).running,
    {
        self.set_pending_status(source, PendingStatus::Error(message));
    }

    /// Consumes the finished pending entries: each leaves the list and its
    /// message becomes the notice (the last one wins).
    pub fn drain_pending_notices(&mut self)
        ensures
            final(self).pending@ == old(self).pending@.filter(|p: PendingTorrent| !(p.status is Done)),
            final(self).notice == match last_done_message(old(self).pending@) {
                Some(m) => Some(m),
                None => old(self).notice,
            },
            final(self).input == old(self).input,
            final(self).prompt_cursor == old(self).prompt_cursor,
            final(self).row_index == old(self).row_index,
            final(self).view == old(self).view,
            final(self).running == old(self).running,
    {
        let mut src: Vec<PendingTorrent> = Vec::new();
        std::mem::swap(&mut src, &mut self.pending);
        let ghost orig = src@;
        let ghost n = src@.len();
        let ghost old_notice = self.notice;
        let mut kept: Vec<PendingTorrent> = Vec::new();
        while src.len() > 0
            invariant
                n == orig.len(),
                orig == old(self).pending@,
                old_notice == old(self).notice,
                src@.len() <= n,
                src@ == orig.skip(n - src@.len()),
                kept@ == orig.take(n - src@.len()).filter(|p: PendingTorrent| !(p.status is Done)),
                self.notice == match last_done_message(orig.take(n - src@.len())) {
                    Some(m) => Some(m),
                    None => old_notice,
                },
                self.input == old(self).input,
                self.prompt_cursor == old(self).prompt_cursor,
                self.row_index == old(self).row_index,
                self.view == old(self).view,
                self.running == old(self).running,
            decreases src.len(),
        {
            let ghost i = n - src@.len();
            let p = src.remove(0);
            proof {
                assert(p == orig[i]);
                assert(orig.take(i + 1).drop_last() =~= orig.take(i));
                assert(orig.take(i + 1).last() == orig[i]);
                assert(src@ =~= orig.skip(i + 1));
                reveal(Seq::filter);
            }
            match p.status {
                PendingStatus::Done(msg) => {
                    self.notice = Some(msg);
                },
                _ => {
                    kept.push(p);
                },
            }
        }
        proof {
            assert(orig.take(n as int) =~= orig);
        }
        self.pending = kept;
    }

    /// Runs a command of the palette.
    pub fn execute_command(&mut self, cmd: &str, rows: &Vec<SessionRow>) -> (act: UiAction)
        requires
            ui_wf(*old(self)),
        ensures
            ui_wf(*final(self)),
            command_post(*old(self), *final(self), cmd@, rows@, act),
    {
        proof {
            reveal_strlit("/add");
            reveal_strlit("/pause");
            reveal_strlit("/resume");
            reveal_strlit("/delete");
            reveal_strlit("/help");
            reveal_strlit("/exit");
            assert("/delete"@[1] != "/resume"@[1]);
            assert("/exit"@[1] != "/help"@[1]);
            assert("/add"@.len() == 4 && "/pause"@.len() == 6 && "/resume"@.len() == 7);
            assert("/delete"@.len() == 7 && "/help"@.len() == 5 && "/exit"@.len() == 5);
            assert("/delete"@ != "/resume"@ && "/exit"@ != "/help"@);
        }
        if crate::library::chars_equal(cmd, "/add") {
            self.prompt_add_mode = true;
            self.clear_prompt();
            self.view = UiView::Home;
            self.notice = None;
            UiAction::Nothing
        } else if crate::library::chars_equal(cmd, "/pause") {
            self.pause_row(rows)
        } else if crate::library::chars_equal(cmd, "/resume") {
            self.resume_row(rows)
        } else if crate::library::chars_equal(cmd, "/delete") {
            let idx = self.row_index;
            self.request_delete(idx, rows);
            self.view = UiView::Home;
            UiAction::Nothing
        } else if crate::library::chars_equal(cmd, "/help") {
            self.notice = Some(help_notice());
            UiAction::Nothing
        } else if crate::library::chars_equal(cmd, "/exit") {
            self.running = false;
            UiAction::Nothing
        } else {
            let mut v: Vec<char> = Vec::new();
            extend_str(&mut v, "comando desconhecido: ");
            extend_str(&mut v, cmd);
            self.notice = Some(string_of(&v));
            UiAction::Nothing
        }
    }
}


/// The entry a click on screen line `row` selects: through the library map
/// when the card was drawn, else through the click layout.
pub open spec fn clicked_entry(s: UiState, row: u16) -> Option<int> {
    match s.library_map {
        Some(m) => if row >= m.top && row - m.top < m.rows@.len() {
            Some(m.rows@[row - m.top] as int)
        } else {
            None
        },
        None => match s.layout {
            Some(l) => crate::ui::table_row_to_index_spec(
                row as int,
                crate::ui::sat16(l.top + l.rows_offset),
                l.row_count as int,
                l.row_stride as int,
            ),
            None => None,
        },
    }
}

impl UiState {
    /// The options of the open context menu.
    fn current_context_options(&self, rows_len: usize) -> (v: Vec<ContextAction>)
        ensures
            v@ == context_menu_options_spec(
                match self.context_menu {
                    Some(cm) => cm.entry_index as int,
                    None => 0,
                },
                rows_len as int,
            ),
    {
        let entry = match self.context_menu {
            Some(cm) => cm.entry_index,
            None => 0,
        };
        context_menu_options(entry, rows_len)
    }

    /// Closes the context menu, keeping the selection.
    pub fn close_context_menu(&mut self)
        ensures
            final(self).context_menu is None,
            final(self).context_rect is None,
            final(self).input == old(self).input,
            final(self).prompt_cursor == old(self).prompt_cursor,
            final(self).row_index == old(self).row_index,
            final(self).pending == old(self).pending,
            final(self).notice == old(self).notice,
            final(self).view == old(self).view,
            final(self).running == old(self).running,
    {
        self.context_menu = None;
        self.context_rect = None;
    }

    /// Opens the context menu of entry `idx`, anchored to screen line `row`.
    fn open_context_menu_at(&mut self, idx: usize, row: u16)
        ensures
            final(self).row_index == idx,
            final(self).context_menu == Some(ContextMenu { entry_index: idx, selected: 0, anchor_row: row }),
            final(self).context_rect is None,
            final(self).input == old(self).input,
            final(self).prompt_cursor == old(self).prompt_cursor,
            final(self).pending == old(self).pending,
            final(self).notice == old(self).notice,
            final(self).view == old(self).view,
            final(self).running == old(self).running,
    {
        self.row_index = idx;
        self.context_menu = Some(ContextMenu { entry_index: idx, selected: 0, anchor_row: row });
        self.context_rect = None;
    }

    /// The entry shown on screen line `row`, if any.
    fn entry_at(&self, row: u16) -> (r: Option<usize>)
        ensures
            r matches Some(i) ==> clicked_entry(*self, row) == Some(i as int),
            r is None ==> clicked_entry(*self, row) is None,
    {
        match &self.library_map {
            Some(map) => map.index_at(row),
            None => match self.layout {
                Some(layout) => {
                    let first_row = layout.top.saturating_add(layout.rows_offset);
                    table_row_to_index(row, first_row, layout.row_count, layout.row_stride)
                },
                None => None,
            },
        }
    }

    /// Right click on the library: selects the entry of line `row` and opens
    /// its context menu there; nothing outside the entries.
    pub fn open_context_menu(&mut self, row: u16)
        ensures
            clicked_entry(*old(self), row) matches Some(i) ==> final(self).row_index == i
                && final(self).context_menu == Some(
                ContextMenu { entry_index: i as usize, selected: 0, anchor_row: row },
            ),
            clicked_entry(*old(self), row) is None ==> final(self).row_index == old(self).row_index
                && final(self).context_menu == old(self).context_menu,
            final(self).input == old(self).input,
            final(self).prompt_cursor == old(self).prompt_cursor,
            final(self).pending == old(self).pending,
            final(self).notice == old(self).notice,
            final(self).view == old(self).view,
            final(self).running == old(self).running,
    {
        match self.entry_at(row) {
            Some(idx) => self.open_context_menu_at(idx, row),
            None => {},
        }
    }

    /// Runs an option of the context menu on its entry.
    pub fn execute_context_action(&mut self, action: ContextAction, rows: &Vec<SessionRow>) -> (act:
        UiAction)
        requires
            ui_wf(*old(self)),
            rows@.len() + old(self).pending@.len() <= usize::MAX,
        ensures
            ui_wf(*final(self)),
            context_action_post(*old(self), *final(self), action, rows@, act),
            final(self).running == old(self).running,
            final(self).input == old(self).input,
    {
        let entry = match self.context_menu {
            Some(cm) => cm.entry_index,
            None => 0,
        };
        self.row_index = entry;
        self.close_context_menu();
        match action {
            ContextAction::Pause => self.pause_row(rows),
            ContextAction::Resume => self.resume_row(rows),
            ContextAction::Stop => self.remove_row(rows),
            ContextAction::Delete => {
                self.request_delete(entry, rows);
                UiAction::Nothing
            },
        }
    }

    /// Keys of the open context menu: ↑/↓ move the highlight (wrapping),
    /// Enter runs the option, Esc closes; other keys do nothing.
    pub fn handle_context_menu_key(&mut self, key: Key, rows: &Vec<SessionRow>) -> (act: UiAction)
        requires
            ui_wf(*old(self)),
            rows@.len() + old(self).pending@.len() <= usize::MAX,
        ensures
            ui_wf(*final(self)),
            context_key_post(*old(self), *final(self), key, rows@, act),
            final(self).running == old(self).running,
            final(self).input == old(self).input,
    {
        match key {
            Key::Up | Key::Down => {
                let len = self.current_context_options(rows.len()).len();
                let delta: isize = if key == Key::Up {
                    -1
                } else {
                    1
                };
                match self.context_menu {
                    Some(cm) => {
                        let sel = cycle_context_selection(cm.selected % len, len, delta);
                        self.context_menu = Some(ContextMenu { selected: sel, ..cm });
                    },
                    None => {},
                }
                UiAction::Nothing
            },
            Key::Enter => {
                let options = self.current_context_options(rows.len());
                match self.context_menu {
                    Some(cm) => {
                        if cm.selected < options.len() {
                            let action = options[cm.selected];
                            return self.execute_context_action(action, rows);
                        }
                        UiAction::Nothing
                    },
                    None => UiAction::Nothing,
                }
            },
            Key::Esc => {
                self.close_context_menu();
                UiAction::Nothing
            },
            _ => UiAction::Nothing,
        }
    }

    /// Keys of the add mode: Enter submits the typed source, Esc leaves the
    /// mode, characters and backspace edit the source, Ctrl+C quits.
    pub fn handle_add_prompt_key(&mut self, key: Key, ctrl: bool) -> (act: UiAction)
        requires
            ui_wf(*old(self)),
        ensures
            ui_wf(*final(self)),
            add_key_post(*old(self), *final(self), key, ctrl, act),
            key != Key::Char('c') || !ctrl ==> final(self).running == old(self).running,
            final(self).pending == old(self).pending,
            final(self).row_index == old(self).row_index,
            final(self).view == old(self).view,
    {
        match key {
            Key::Enter => {
                let source = self.input.clone();
                self.submit_add(source.as_str(), None)
            },
            Key::Esc => {
                self.prompt_add_mode = false;
                self.clear_prompt();
                self.notice = None;
                UiAction::Nothing
            },
            Key::Char(c) => {
                if !ctrl {
                    self.insert_prompt_char(c);
                    self.notice = None;
                } else if c == 'c' {
                    self.running = false;
                }
                UiAction::Nothing
            },
            Key::Backspace => {
                self.backspace_prompt();
                UiAction::Nothing
            },
            _ => UiAction::Nothing,
        }
    }
}


impl UiState {
    /// Moves the selection one entry down (or up), wrapping around.
    fn step_row(&mut self, down: bool, rows_len: usize)
        requires
            rows_len + old(self).pending@.len() < usize::MAX,
        ensures
            final(self).row_index == (if rows_len + old(self).pending@.len() == 0 {
                0
            } else {
                (old(self).row_index + (if down {
                    1int
                } else {
                    -1int
                })) % ((rows_len + old(self).pending@.len()) as int)
            }),
            final(self).input == old(self).input,
            final(self).prompt_cursor == old(self).prompt_cursor,
            final(self).pending == old(self).pending,
            final(self).notice == old(self).notice,
            final(self).view == old(self).view,
            final(self).running == old(self).running,
            final(self).prompt_add_mode == old(self).prompt_add_mode,
            final(self).confirming_delete == old(self).confirming_delete,
            final(self).context_menu == old(self).context_menu,
    {
        let total = rows_len + self.pending.len();
        if total == 0 {
            self.row_index = 0;
            return ;
        }
        let r = self.row_index % total;
        if down {
            let next = if r + 1 == total {
                0
            } else {
                r + 1
            };
            proof {
                lemma_add_mod_noop(self.row_index as int, 1, total as int);
                if total == 1 {
                    assert(1int % 1 == 0);
                } else {
                    lemma_small_mod(1, total as nat);
                }
                if r + 1 == total {
                    lemma_mod_add_multiples_vanish(0, total as int);
                    assert(0int % (total as int) == 0);
                } else {
                    lemma_small_mod((r + 1) as nat, total as nat);
                }
            }
            self.row_index = next;
        } else {
            let next = if r == 0 {
                total - 1
            } else {
                r - 1
            };
            proof {
                lemma_sub_mod_noop(self.row_index as int, 1, total as int);
                if total == 1 {
                    assert(1int % 1 == 0);
                    assert((-1int) % 1 == 0);
                } else {
                    lemma_small_mod(1, total as nat);
                    if r == 0 {
                        lemma_mod_add_multiples_vanish(-1, total as int);
                        lemma_small_mod((total - 1) as nat, total as nat);
                    } else {
                        lemma_small_mod((r - 1) as nat, total as nat);
                    }
                }
            }
            self.row_index = next;
        }
    }

    /// Keys of the command palette: ↑/k and ↓/j move the highlight
    /// (wrapping), Enter runs the highlighted command, Tab puts it in the
    /// prompt and goes back home, characters and backspace edit the filter
    /// (the palette closes for an inline `/add ` or a prompt without `/`),
    /// Esc clears the prompt and closes, Ctrl+C quits.
    pub fn handle_menu_key(&mut self, key: Key, ctrl: bool, rows: &Vec<SessionRow>) -> (act:
        UiAction)
        requires
            ui_wf(*old(self)),
            rows@.len() + old(self).pending@.len() <= usize::MAX,
        ensures
            ui_wf(*final(self)),
            menu_key_post(*old(self), *final(self), key, ctrl, rows@, act),
    {
        let filtered = filter_commands(self.input.as_str());
        let n = filtered.len();
        match key {
            Key::Up | Key::Char('k') | Key::Down | Key::Char('j') => {
                if n > 0 {
                    let m = self.menu_index % n;
                    if key == Key::Up || key == Key::Char('k') {
                        self.menu_index = (m + n - 1) % n;
                    } else {
                        self.menu_index = (m + 1) % n;
                    }
                }
                UiAction::Nothing
            },
            Key::Enter => {
                if self.menu_index < n {
                    let cmd = filtered[self.menu_index].0.clone();
                    self.set_prompt(filtered[self.menu_index].0.clone());
                    return self.execute_command(cmd.as_str(), rows);
                }
                UiAction::Nothing
            },
            Key::Tab => {
                if self.menu_index < n {
                    assert(pairs_view(filtered@)[self.menu_index as int] == (
                        filtered@[self.menu_index as int].0@,
                        filtered@[self.menu_index as int].1@,
                    ));
                    self.set_prompt(filtered[self.menu_index].0.clone());
                    self.view = UiView::Home;
                }
                UiAction::Nothing
            },
            Key::Char(c) => {
                if !ctrl {
                    self.insert_prompt_char(c);
                    self.menu_index = 0;
                    self.leave_menu_for_inline_add();
                } else if c == 'c' {
                    self.running = false;
                }
                UiAction::Nothing
            },
            Key::Backspace => {
                self.backspace_prompt();
                self.menu_index = 0;
                if !starts_with_chars(&chars_of(self.input.as_str()), &chars_of("/")) {
                    self.clear_prompt();
                    self.view = UiView::Home;
                }
                UiAction::Nothing
            },
            Key::Esc => {
                self.clear_prompt();
                self.view = UiView::Home;
                UiAction::Nothing
            },
            _ => UiAction::Nothing,
        }
    }

    /// Keys of the home screen. A pending delete confirmation takes Y/S
    /// (delete), N/Esc (cancel) and Ctrl+C only; the add mode and the open
    /// context menu take their own keys; Ctrl+P opens the palette; with an
    /// empty prompt, p/r/x/Delete act on the selected entry; otherwise keys
    /// edit the prompt (a `/` opens the palette), Enter runs what was typed,
    /// Esc clears it, ↑/↓ move the selection, Ctrl+C quits.
    pub fn handle_home_key(&mut self, key: Key, ctrl: bool, rows: &Vec<SessionRow>) -> (act:
        UiAction)
        requires
            ui_wf(*old(self)),
            rows@.len() + old(self).pending@.len() + 1 < usize::MAX,
        ensures
            ui_wf(*final(self)),
            home_key_post(*old(self), *final(self), key, ctrl, rows@, act),
    {
        if self.confirming_delete.is_some() {
            match key {
                Key::Char('s') | Key::Char('S') | Key::Char('y') | Key::Char('Y') => {
                    return self.confirm_delete(rows.len());
                },
                Key::Char('n') | Key::Char('N') | Key::Esc => {
                    self.confirming_delete = None;
                    self.notice = Some(string_lit("exclusão cancelada"));
                },
                Key::Char('c') => {
                    if ctrl {
                        self.running = false;
                    }
                },
                _ => {},
            }
            return UiAction::Nothing;
        }
        if self.prompt_add_mode {
            return self.handle_add_prompt_key(key, ctrl);
        }
        if self.context_menu.is_some() {
            return self.handle_context_menu_key(key, rows);
        }
        if (key == Key::Char('p') || key == Key::Char('P')) && ctrl {
            self.clear_prompt();
            self.menu_index = 0;
            self.view = UiView::Menu;
            return UiAction::Nothing;
        }
        let prompt_empty = chars_of(self.input.as_str()).len() == 0;
        match home_action_for_key(key, prompt_empty, false, false) {
            Some(HomeAction::Pause) => {
                return self.pause_row(rows);
            },
            Some(HomeAction::Resume) => {
                return self.resume_row(rows);
            },
            Some(HomeAction::Remove) => {
                return self.remove_row(rows);
            },
            Some(HomeAction::Delete) => {
                let idx = self.row_index;
                self.request_delete(idx, rows);
                return UiAction::Nothing;
            },
            None => {},
        }
        match key {
            Key::Char('/') => {
                self.set_prompt(string_lit("/"));
                self.menu_index = 0;
                self.view = UiView::Menu;
                UiAction::Nothing
            },
            Key::Char(c) => {
                if !ctrl {
                    self.insert_prompt_char(c);
                    self.notice = None;
                    if should_open_command_menu(self.input.as_str()) {
                        self.menu_index = 0;
                        self.view = UiView::Menu;
                    }
                } else if c == 'c' {
                    self.running = false;
                }
                UiAction::Nothing
            },
            Key::Enter => {
                let cmd = string_of(&trim_chars(&chars_of(self.input.as_str())));
                self.clear_prompt();
                match parse_add_command(cmd.as_str()) {
                    Some(source) => self.submit_add(source.as_str(), Some(cmd)),
                    None => {
                        if crate::library::chars_equal(cmd.as_str(), "/add") {
                            self.prompt_add_mode = true;
                            self.notice = None;
                            UiAction::Nothing
                        } else if starts_with_chars(&chars_of(cmd.as_str()), &chars_of("/")) {
                            self.execute_command(cmd.as_str(), rows)
                        } else {
                            UiAction::Nothing
                        }
                    },
                }
            },
            Key::Backspace => {
                self.backspace_prompt();
                if should_open_command_menu(self.input.as_str()) {
                    self.menu_index = 0;
                    self.view = UiView::Menu;
                }
                UiAction::Nothing
            },
            Key::Esc => {
                self.clear_prompt();
                UiAction::Nothing
            },
            Key::Up => {
                self.step_row(false, rows.len());
                UiAction::Nothing
            },
            Key::Down => {
                self.step_row(true, rows.len());
                UiAction::Nothing
            },
            _ => UiAction::Nothing,
        }
    }
}


/// `row` lies in the region `(top, height)`.
pub open spec fn in_region(region: Option<(u16, u16)>, row: u16) -> bool {
    match region {
        Some(r) => r.0 <= row < crate::ui::sat16(r.0 + r.1),
        None => false,
    }
}

impl UiState {
    /// Handles a key; returns the action the app must perform.
    pub fn handle_key(&mut self, key: Key, ctrl: bool, rows: &Vec<SessionRow>) -> (act: UiAction)
        requires
            ui_wf(*old(self)),
            rows@.len() + old(self).pending@.len() + 1 < usize::MAX,
        ensures
            ui_wf(*final(self)),
            old(self).view == UiView::Home ==> home_key_post(*old(self), *final(self), key, ctrl, rows@, act),
            old(self).view == UiView::Menu ==> menu_key_post(*old(self), *final(self), key, ctrl, rows@, act),
    {
        match self.view {
            UiView::Home => self.handle_home_key(key, ctrl, rows),
            UiView::Menu => self.handle_menu_key(key, ctrl, rows),
        }
    }

    /// Handles a mouse event at `(column, row)`. The wheel scrolls the card
    /// under the pointer; clicks are ignored during a delete confirmation; in
    /// the palette a click highlights the command clicked; at home, with the
    /// context menu open a left click runs the option clicked or closes the
    /// menu, a right click opens the context menu of the entry clicked, and a
    /// left click selects it.
    pub fn handle_mouse(&mut self, kind: MouseKind, column: u16, row: u16, rows: &Vec<SessionRow>) -> (act:
        UiAction)
        requires
            ui_wf(*old(self)),
            rows@.len() + old(self).pending@.len() <= usize::MAX,
        ensures
            ui_wf(*final(self)),
            kind == MouseKind::ScrollUp || kind == MouseKind::ScrollDown ==> {
                &&& act is Nothing
                &&& in_region(old(self).library_region, row) ==> final(self).library_scroll == (
                if kind == MouseKind::ScrollUp {
                    crate::cards::sub_nat(old(self).library_scroll as int, 1)
                } else {
                    crate::cards::min_of(old(self).library_scroll + 1, usize::MAX as int)
                }) && final(self).history_scroll == old(self).history_scroll
                &&& !in_region(old(self).library_region, row) && in_region(
                    old(self).history_region,
                    row,
                ) ==> final(self).history_scroll == (if kind == MouseKind::ScrollUp {
                    crate::cards::sub_nat(old(self).history_scroll as int, 1)
                } else {
                    crate::cards::min_of(old(self).history_scroll + 1, usize::MAX as int)
                }) && final(self).library_scroll == old(self).library_scroll
            },
            kind == MouseKind::Other ==> act is Nothing && final(self).row_index == old(
                self).row_index && final(self).context_menu == old(self).context_menu,
            (kind == MouseKind::LeftDown || kind == MouseKind::RightDown)
                && old(self).confirming_delete is Some ==> act is Nothing && final(self).row_index
                == old(self).row_index && final(self).context_menu == old(self).context_menu,
            kind == MouseKind::LeftDown && old(self).confirming_delete is None && old(self).view
                == UiView::Home && old(self).context_menu is None ==> act is Nothing && (
            clicked_entry(*old(self), row) matches Some(i) ==> final(self).row_index == i) && (
            clicked_entry(*old(self), row) is None ==> final(self).row_index == old(self).row_index),
            kind == MouseKind::RightDown && old(self).confirming_delete is None && old(self).view
                == UiView::Home && old(self).context_menu is None ==> act is Nothing && (
            clicked_entry(*old(self), row) matches Some(i) ==> final(self).context_menu == Some(
                ContextMenu { entry_index: i as usize, selected: 0, anchor_row: row },
            )),
            (kind == MouseKind::LeftDown || kind == MouseKind::RightDown) && old(self).confirming_delete
                is None && old(self).view == UiView::Menu ==> act is Nothing && final(self).menu_index
                == match old(self).layout {
                Some(l) => match table_row_to_index_spec(
                    row as int,
                    crate::ui::sat16(l.top + l.rows_offset),
                    l.row_count as int,
                    l.row_stride as int,
                ) {
                    Some(i) => i as usize,
                    None => old(self).menu_index,
                },
                None => old(self).menu_index,
            },
            kind == MouseKind::LeftDown && old(self).confirming_delete is None && old(self).view
                == UiView::Home && old(self).context_menu is Some ==> match context_click(
                *old(self),
                column,
                row,
                rows@,
            ) {
                Some(i) => context_action_post(
                    *old(self),
                    *final(self),
                    context_menu_options_spec(context_entry(*old(self)), rows@.len() as int)[i],
                    rows@,
                    act,
                ),
                None => final(self).context_menu is None && act is Nothing,
            },
            kind == MouseKind::RightDown && old(self).confirming_delete is None && old(self).view
                == UiView::Home && old(self).context_menu is Some ==> act is Nothing
                && final(self).context_menu == old(self).context_menu,
            final(self).running == old(self).running,
    {
        match kind {
            MouseKind::ScrollUp | MouseKind::ScrollDown => {
                let up = kind == MouseKind::ScrollUp;
                match self.library_region {
                    Some((top, height)) => {
                        if top <= row && row < top.saturating_add(height) {
                            self.library_scroll = if up {
                                self.library_scroll.saturating_sub(1)
                            } else {
                                self.library_scroll.saturating_add(1)
                            };
                            return UiAction::Nothing;
                        }
                    },
                    None => {},
                }
                match self.history_region {
                    Some((top, height)) => {
                        if top <= row && row < top.saturating_add(height) {
                            self.history_scroll = if up {
                                self.history_scroll.saturating_sub(1)
                            } else {
                                self.history_scroll.saturating_add(1)
                            };
                        }
                    },
                    None => {},
                }
                UiAction::Nothing
            },
            MouseKind::Other => UiAction::Nothing,
            MouseKind::LeftDown | MouseKind::RightDown => {
                if self.confirming_delete.is_some() {
                    return UiAction::Nothing;
                }
                match self.view {
                    UiView::Menu => {
                        match self.layout {
                            Some(layout) => {
                                let first_row = layout.top.saturating_add(layout.rows_offset);
                                match table_row_to_index(
                                    row,
                                    first_row,
                                    layout.row_count,
                                    layout.row_stride,
                                ) {
                                    Some(idx) => {
                                        self.menu_index = idx;
                                    },
                                    None => {},
                                }
                            },
                            None => {},
                        }
                        UiAction::Nothing
                    },
                    UiView::Home => {
                        if self.context_menu.is_some() {
                            if kind == MouseKind::LeftDown {
                                match self.context_rect {
                                    Some(rect) => {
                                        let options = self.current_context_options(rows.len());
                                        let inside = (rect.0 as u32) <= (column as u32) && (column as u32)
                                            < (rect.0 as u32) + (rect.2 as u32);
                                        if inside && (rect.1 as u32) + (rect.3 as u32) <= 0xffff {
                                            match context_option_at(row, rect, options.len()) {
                                                Some(idx) => {
                                                    let action = options[idx];
                                                    return self.execute_context_action(action, rows);
                                                },
                                                None => {},
                                            }
                                        }
                                    },
                                    None => {},
                                }
                                self.close_context_menu();
                            }
                            return UiAction::Nothing;
                        }
                        if kind == MouseKind::RightDown {
                            self.open_context_menu(row);
                            return UiAction::Nothing;
                        }
                        match self.entry_at(row) {
                            Some(idx) => {
                                self.row_index = idx;
                            },
                            None => {},
                        }
                        UiAction::Nothing
                    },
                }
            },
        }
    }

    /// Pastes `text` at the prompt cursor: the notice goes, the palette
    /// highlight returns to the top, and the palette opens for a command
    /// (not in add mode) or closes for an inline `/add <source>`.
    pub fn handle_paste(&mut self, text: &str)
        requires
            ui_wf(*old(self)),
            byte_len(old(self).input@) + byte_len(text@) + 4 <= usize::MAX,
        ensures
            ui_wf(*final(self)),
            ({
                let k = char_index_of(old(self).input@, old(self).prompt_cursor as int);
                final(self).input@ == old(self).input@.take(k) + text@ + old(self).input@.skip(k)
            }),
            final(self).notice is None,
            final(self).menu_index == 0,
            final(self).running == old(self).running,
            final(self).pending == old(self).pending,
    {
        let chars = chars_of(text);
        let ghost k0 = char_index_of(self.input@, self.prompt_cursor as int);
        let ghost base = self.input@;
        assert(base.take(k0) + chars@.take(0) + base.skip(k0) =~= base);
        let mut i: usize = 0;
        while i < chars.len()
            invariant
                i <= chars.len(),
                chars@ == text@,
                0 <= k0 <= base.len(),
                ui_wf(*self),
                self.input@ == base.take(k0) + chars@.take(i as int) + base.skip(k0),
                char_index_of(self.input@, self.prompt_cursor as int) == k0 + i,
                byte_len(base) + byte_len(text@) + 4 <= usize::MAX,
                self.running == old(self).running,
                self.pending == old(self).pending,
            decreases chars.len() - i,
        {
            proof {
                let cur = self.input@;
                lemma_byte_len_take(base, k0);
                lemma_byte_len_take(chars@, i as int);
                lemma_byte_len_concat(base.take(k0), chars@.take(i as int));
                lemma_byte_len_concat(base.take(k0) + chars@.take(i as int), base.skip(k0));
                crate::ui::lemma_byte_offset_mono(chars@, i as int, chars@.len() as int);
                let t = char_index_of(cur, self.prompt_cursor as int);
                crate::ui::lemma_byte_offset_mono(cur, t, cur.len() as int);
                assert(self.prompt_cursor + 4 <= usize::MAX);
            }
            let c = chars[i];
            let pos = self.prompt_cursor;
            self.prompt_cursor = insert_char_at(&mut self.input, pos, c);
            proof {
                assert(base.take(k0) + chars@.take(i as int) =~= (base.take(k0) + chars@.take(i as int) + base.skip(k0)).take(k0 + i));
                assert(self.input@ =~= base.take(k0) + chars@.take(i + 1) + base.skip(k0));
            }
            i = i + 1;
        }
        assert(chars@.take(chars@.len() as int) =~= chars@);
        self.notice = None;
        self.menu_index = 0;
        if should_open_command_menu(self.input.as_str()) && self.view != UiView::Menu
            && !self.prompt_add_mode {
            self.view = UiView::Menu;
        } else {
            self.leave_menu_for_inline_add();
        }
    }
}

} // verus!
