use opentorrent::frame::{frame_top_bottom, theme, Color, Frame};
use opentorrent::library::{sort_rows_for_grid, LibraryMap, SessionRow, TorrentState};
use opentorrent::text::truncate;
use opentorrent::ui::{
    backspace_char_at, command_item_line, commands, confirm_delete_prompt_label,
    context_action_label, context_item_line, context_menu_options, context_option_at,
    cycle_context_selection, empty_metrics_text, filter_commands, footer_hints, format_eta,
    help_notice, home_action_for_key, home_prompt_label, insert_char_at, parse_add_command,
    prompt_cursor_col, separator_line, session_table_header, session_table_line,
    should_open_command_menu, strip_ansi, table_row_to_index, eta_column, metrics_columns, ContextAction, HomeAction, Key,
    UiView, METRICS_FIXED_W, PROGRESS_COL_W, ROW_FIXED_W,
};
use opentorrent::wrap::wrap_text;

/// The progress bar of the library at 0%, 50% and 100% (24 blocks, a blank
/// and the percentage right-aligned in 5 columns).
fn bar_at(pct: u32) -> String {
    let filled = (pct as usize) * 24 / 100;
    format!("{}{} {:>5.1}%", "█".repeat(filled), "░".repeat(24 - filled), pct as f64)
}

#[test]
fn strips_sgr_escape_sequences() {
    let colored = "\u{1b}[36mhello\u{1b}[0m world".to_string();
    assert_eq!(strip_ansi(&colored), "hello world");
}

#[test]
fn home_prompt_fg_contrasts_with_footer_bg() {
    assert_ne!(theme().home_prompt_fg, theme().footer_bg);
}

#[test]
fn strips_multiple_sequences() {
    let s = "\u{1b}[1;32ma\u{1b}[0m\u{1b}[31mb\u{1b}[0m";
    assert_eq!(strip_ansi(s), "ab");
}

#[test]
fn strip_ansi_drops_an_unterminated_sequence() {
    assert_eq!(strip_ansi("ok\u{1b}[31"), "ok");
    assert_eq!(strip_ansi("plain"), "plain");
}

#[test]
fn truncate_keeps_short_text() {
    assert_eq!(truncate("curto", 20), "curto");
}

#[test]
fn truncate_shortens_long_text() {
    assert_eq!(truncate("abcdefghijklmnopqrstuvwxyz", 10), "abcdefghi…");
}

#[test]
fn command_item_line_marks_selected_only() {
    let line = command_item_line("/add", "adicionar torrent a lista", true);
    assert!(line.starts_with("> /add"));
    assert!(line.contains("adicionar torrent a lista"));
    let unselected = command_item_line("/exit", "sair do OpenTorrent", false);
    assert!(unselected.starts_with("  /exit"));
    assert!(!unselected.starts_with('>'));
}

#[test]
fn commands_cover_all_shortcuts() {
    let all = commands();
    assert_eq!(all.len(), 6);
    for (cmd, desc) in all {
        assert!(cmd.starts_with('/'));
        assert!(!desc.is_empty());
    }
}

#[test]
fn frame_borders_use_thin_lines() {
    let (top, bottom) = frame_top_bottom(78);
    assert_eq!(top.chars().next(), Some('┌'));
    assert_eq!(top.chars().last(), Some('┐'));
    assert_eq!(bottom.chars().next(), Some('└'));
    assert_eq!(bottom.chars().last(), Some('┘'));
    assert_eq!(top.chars().count(), 78);
    assert!(top.chars().all(|c| matches!(c, '┌' | '─' | '┐')));
}

#[test]
fn frame_put_writes_cells_in_bounds() {
    let mut f = Frame::new(5, 3);
    f.put(1, 1, "abc", false);
    assert_eq!(f.cell(1, 1).ch, 'a');
    assert_eq!(f.cell(1, 2).ch, 'b');
    assert_eq!(f.cell(1, 3).ch, 'c');
    f.put(9, 0, "x", false);
    f.put(0, 9, "y", false);
    assert_eq!(f.cell(9, 0).ch, ' ');
}

#[test]
fn frame_put_marks_cyan_cells() {
    let mut f = Frame::new(10, 2);
    f.put(0, 0, "hi", true);
    assert_eq!(f.cell(0, 0).fg, Some(Color::Cyan));
    assert_eq!(f.cell(0, 1).fg, Some(Color::Cyan));
    assert_eq!(f.cell(1, 0).fg, None);
}

#[test]
fn frame_put_colored_uses_given_color() {
    let mut f = Frame::new(10, 2);
    f.put_colored(0, 0, "hi", Some(Color::DarkYellow));
    assert_eq!(f.cell(0, 0).fg, Some(Color::DarkYellow));
    assert_eq!(f.cell(0, 1).fg, Some(Color::DarkYellow));
}

#[test]
fn frame_diff_counts_only_changed_cells() {
    let mut a = Frame::new(10, 3);
    a.put(0, 0, "hello", false);
    let mut b = Frame::new(10, 3);
    b.put(0, 0, "hella", false);
    assert_eq!(a.diff_count(&b), 1);
    let mut c = Frame::new(10, 3);
    c.put(0, 0, "hello", false);
    assert_eq!(a.diff_count(&c), 0);
}

#[test]
fn frame_diff_runs_rewrite_only_changed_run() {
    let mut prev = Frame::new(20, 2);
    prev.put(0, 0, "status: ok", false);
    let mut cur = Frame::new(20, 2);
    cur.put(0, 0, "status: 42", false);
    let runs = cur.diff_runs(&prev);
    let text: String = runs.iter().map(|r| r.text.clone()).collect();
    assert!(!text.contains("status:"));
    assert_eq!(text, "42");
    assert_eq!(runs[0].row, 0);
    assert_eq!(runs[0].start, 8);
}

#[test]
fn frame_diff_runs_clear_removed_cells() {
    let mut prev = Frame::new(10, 2);
    prev.put(0, 0, "abcdef", false);
    let mut cur = Frame::new(10, 2);
    cur.put(0, 0, "abc", false);
    let runs = cur.diff_runs(&prev);
    assert_eq!(runs.len(), 1);
    assert_eq!(runs[0].start, 3);
    assert_eq!(runs[0].text, "   ");
}

#[test]
fn frame_diff_runs_identical_frames_emit_nothing() {
    let mut prev = Frame::new(10, 2);
    prev.put(0, 0, "abc", false);
    let mut cur = Frame::new(10, 2);
    cur.put(0, 0, "abc", false);
    assert!(cur.diff_runs(&prev).is_empty());
}

#[test]
fn wrap_text_splits_on_word_boundaries() {
    let lines = wrap_text("foo bar baz qux", 9);
    assert_eq!(lines, vec!["foo bar", "baz qux"]);
}

#[test]
fn wrap_text_keeps_short_text_in_one_line() {
    assert_eq!(wrap_text("curto", 10), vec!["curto"]);
    assert_eq!(wrap_text("", 10), vec![""]);
}

#[test]
fn wrap_text_cuts_long_words_without_spaces() {
    let lines = wrap_text("magnet:?xt=urn:btih:abcd", 6);
    assert!(lines.len() > 1);
    assert!(lines.iter().all(|l| l.chars().count() <= 6));
}

#[test]
fn wrap_text_never_exceeds_max_chars() {
    let text = "um nome bem longo de arquivo com várias palavras no meio";
    let lines = wrap_text(text, 15);
    assert!(lines.iter().all(|l| l.chars().count() <= 15));
    assert_eq!(
        lines.join(" ").replace("  ", " ").chars().count(),
        text.chars().count()
    );
}

#[test]
fn wrap_text_zero_width_keeps_text_whole() {
    assert_eq!(wrap_text("ab cd", 0), vec!["ab cd"]);
}

#[test]
fn library_map_index_at_maps_screen_row_to_item() {
    let map = LibraryMap {
        top: 4,
        rows: vec![0, 0, 1, 2, 2],
    };
    assert_eq!(map.index_at(4), Some(0));
    assert_eq!(map.index_at(5), Some(0));
    assert_eq!(map.index_at(6), Some(1));
    assert_eq!(map.index_at(8), Some(2));
    assert_eq!(map.index_at(3), None);
    assert_eq!(map.index_at(9), None);
}

#[test]
fn library_map_index_at_empty_rows() {
    let map = LibraryMap {
        top: 0,
        rows: vec![],
    };
    assert_eq!(map.index_at(0), None);
}

fn row(id: usize, state: TorrentState, finished: bool) -> SessionRow {
    SessionRow {
        id,
        name: format!("torrent #{id}"),
        state,
        progress_bytes: 0,
        total_bytes: 0,
        finished,
        eta_seconds: None,
        uploaded_bytes: 0,
    }
}

#[test]
fn sort_rows_for_grid_puts_processing_first_and_recent_first() {
    let mut rows = vec![
        row(1, TorrentState::Paused, false),
        row(2, TorrentState::Live, false),
        row(3, TorrentState::Live, false),
        row(4, TorrentState::Error, false),
        row(5, TorrentState::Live, true),
    ];
    sort_rows_for_grid(&mut rows);
    let ids: Vec<usize> = rows.iter().map(|r| r.id).collect();
    assert_eq!(&ids[0..2], &[3, 2]);
    assert_eq!(&ids[2..], &[5, 4, 1]);
}

#[test]
fn sort_rows_for_grid_is_stable_for_equal_priority() {
    let mut rows = vec![
        SessionRow {
            name: "x".into(),
            ..row(10, TorrentState::Paused, false)
        },
        SessionRow {
            name: "x".into(),
            ..row(20, TorrentState::Paused, false)
        },
    ];
    sort_rows_for_grid(&mut rows);
    assert_eq!(rows[0].id, 20);
    assert_eq!(rows[1].id, 10);
}

#[test]
fn sort_rows_for_grid_keeps_every_row() {
    let mut rows = vec![
        row(7, TorrentState::Live, false),
        row(7, TorrentState::Paused, false),
        row(2, TorrentState::Initializing, false),
    ];
    sort_rows_for_grid(&mut rows);
    let mut ids: Vec<usize> = rows.iter().map(|r| r.id).collect();
    assert_eq!(ids[0], 7);
    assert_eq!(rows[0].state, TorrentState::Live);
    ids.sort();
    assert_eq!(ids, vec![2, 7, 7]);
}

#[test]
fn session_table_line_aligns_columns() {
    let bar = bar_at(50);
    let line = session_table_line("> ", 1, &bar, "em andamento", "arquivo.iso", 12, None);
    assert_eq!(&line[0..6], ">    1");
    let chars: Vec<char> = line.chars().collect();
    let bar_seg: String = chars[7..7 + PROGRESS_COL_W].iter().collect();
    assert_eq!(bar_seg, bar);
    let state_col = 7 + PROGRESS_COL_W + 1;
    let state_seg: String = chars[state_col..state_col + 13].iter().collect();
    assert_eq!(state_seg, "em andamento ");
    assert_eq!(line.chars().count(), ROW_FIXED_W + 12);
    assert!(line.contains("arquivo.iso"));
}

#[test]
fn session_table_line_truncates_long_names() {
    let bar = bar_at(100);
    let line = session_table_line("  ", 2, &bar, "concluído", "nome-muito-longo", 8, None);
    assert!(line.contains("nome-mu…"));
    assert_eq!(line.chars().count(), ROW_FIXED_W + 8);
}

#[test]
fn format_eta_is_hh_mm_ss() {
    assert_eq!(format_eta(0), "00:00:00");
    assert_eq!(format_eta(252), "00:04:12");
    assert_eq!(format_eta(3661), "01:01:01");
}

#[test]
fn format_eta_grows_past_a_day() {
    assert_eq!(format_eta(100 * 3600 + 59), "100:00:59");
}

#[test]
fn empty_metrics_text_matches_metrics_width() {
    assert_eq!(empty_metrics_text().chars().count(), METRICS_FIXED_W);
}

#[test]
fn home_footer_hints_mention_shortcuts() {
    assert!(footer_hints(&UiView::Home, false, false, false).contains("p pausar"));
    assert!(footer_hints(&UiView::Home, false, false, false).contains("r retomar"));
    assert!(footer_hints(&UiView::Home, false, false, false).contains("x remover"));
    assert!(footer_hints(&UiView::Home, false, false, false).contains("Del excluir"));
    assert!(footer_hints(&UiView::Home, true, false, false).contains("Esc cancela"));
    assert!(footer_hints(&UiView::Home, false, true, false).contains("Y exclui"));
    assert!(footer_hints(&UiView::Home, false, true, false).contains("N/Esc cancela"));
    assert!(footer_hints(&UiView::Home, false, false, true).contains("↑/↓ navegar"));
    assert!(footer_hints(&UiView::Home, false, false, true).contains("Enter executa"));
    assert!(footer_hints(&UiView::Home, false, false, true).contains("Esc fecha"));
    assert!(!footer_hints(&UiView::Home, false, false, true).contains("p pausar"));
}

#[test]
fn home_action_for_key_maps_shortcuts_with_empty_prompt() {
    assert_eq!(home_action_for_key(Key::Char('p'), true, false, false), Some(HomeAction::Pause));
    assert_eq!(home_action_for_key(Key::Char('P'), true, false, false), Some(HomeAction::Pause));
    assert_eq!(home_action_for_key(Key::Char('r'), true, false, false), Some(HomeAction::Resume));
    assert_eq!(home_action_for_key(Key::Char('R'), true, false, false), Some(HomeAction::Resume));
    assert_eq!(home_action_for_key(Key::Char('x'), true, false, false), Some(HomeAction::Remove));
    assert_eq!(home_action_for_key(Key::Char('X'), true, false, false), Some(HomeAction::Remove));
    assert_eq!(home_action_for_key(Key::Delete, true, false, false), Some(HomeAction::Delete));
}

#[test]
fn home_action_for_key_is_inert_with_typed_prompt() {
    assert_eq!(home_action_for_key(Key::Char('p'), false, false, false), None);
    assert_eq!(home_action_for_key(Key::Delete, false, false, false), None);
}

#[test]
fn home_action_for_key_sovereign_states_block_shortcuts() {
    assert_eq!(home_action_for_key(Key::Char('p'), true, true, false), None);
    assert_eq!(home_action_for_key(Key::Delete, true, false, true), None);
    assert_eq!(home_action_for_key(Key::Char('a'), true, false, false), None);
    assert_eq!(home_action_for_key(Key::Char('/'), true, false, false), None);
}

#[test]
fn context_menu_options_list_all_actions_for_torrents() {
    let options = context_menu_options(0, 3);
    assert_eq!(
        options,
        vec![
            ContextAction::Pause,
            ContextAction::Resume,
            ContextAction::Stop,
            ContextAction::Delete,
        ]
    );
    let last_real = context_menu_options(2, 3);
    assert_eq!(last_real.len(), 4);
}

#[test]
fn context_menu_options_for_pending_show_only_delete() {
    let options = context_menu_options(3, 3);
    assert_eq!(options, vec![ContextAction::Delete]);
    let options = context_menu_options(9, 0);
    assert_eq!(options, vec![ContextAction::Delete]);
}

#[test]
fn context_action_labels_match_shortcut_actions() {
    assert_eq!(context_action_label(ContextAction::Pause), "Pausar");
    assert_eq!(context_action_label(ContextAction::Resume), "Retomar");
    assert_eq!(context_action_label(ContextAction::Stop), "Parar");
    assert_eq!(context_action_label(ContextAction::Delete), "Excluir");
}

#[test]
fn context_item_line_marks_selected_only() {
    let selected = context_item_line("Pausar", true);
    assert!(selected.starts_with("> Pausar"));
    let unselected = context_item_line("Excluir", false);
    assert!(unselected.starts_with("  Excluir"));
    assert!(!unselected.starts_with('>'));
}

#[test]
fn context_option_at_maps_rows_inside_popup() {
    let rect = (2, 5, 20, 6);
    assert_eq!(context_option_at(6, rect, 4), Some(0));
    assert_eq!(context_option_at(9, rect, 4), Some(3));
    assert_eq!(context_option_at(5, rect, 4), None);
    assert_eq!(context_option_at(10, rect, 4), None);
    assert_eq!(context_option_at(4, rect, 4), None);
    assert_eq!(context_option_at(30, rect, 4), None);
    let small = (2, 5, 20, 3);
    assert_eq!(context_option_at(6, small, 1), Some(0));
    assert_eq!(context_option_at(7, small, 1), None);
}

#[test]
fn separator_line_matches_table_width() {
    let name_width = 12;
    let header = session_table_header(name_width, false, PROGRESS_COL_W);
    let sep = separator_line(header.chars().count());
    assert!(sep.chars().all(|c| c == '─'));
    assert_eq!(sep.chars().count(), header.chars().count());
    let data = session_table_line("  ", 1, &bar_at(0), "erro", "abc", name_width, None);
    assert_eq!(sep.chars().count(), data.chars().count());
}

#[test]
fn table_row_to_index_maps_with_stride() {
    assert_eq!(table_row_to_index(10, 10, 5, 2), Some(0));
    assert_eq!(table_row_to_index(12, 10, 5, 2), Some(1));
    assert_eq!(table_row_to_index(11, 10, 5, 2), None);
    assert_eq!(table_row_to_index(19, 10, 5, 2), None);
    assert_eq!(table_row_to_index(18, 10, 5, 2), Some(4));
    assert_eq!(table_row_to_index(3, 1, 3, 1), Some(2));
    assert_eq!(table_row_to_index(4, 1, 3, 1), None);
    assert_eq!(table_row_to_index(0, 0, 0, 2), None);
}

#[test]
fn frame_fill_sets_cells_and_colors() {
    let mut f = Frame::new(10, 4);
    f.fill(2, 3, 5, ' ', None, Some(Color::DarkGrey));
    assert_eq!(f.cell(2, 2).bg, None);
    assert_eq!(f.cell(2, 3).bg, Some(Color::DarkGrey));
    assert_eq!(f.cell(2, 7).bg, Some(Color::DarkGrey));
    assert_eq!(f.cell(2, 8).bg, None);
}

#[test]
fn frame_fill_rect_covers_multiple_rows() {
    let mut f = Frame::new(8, 6);
    f.fill_rect(1, 1, 3, 4, 'x', None, Some(Color::DarkGrey));
    for row in 1..4 {
        for col in 1..5 {
            assert_eq!(f.cell(row, col).ch, 'x');
        }
    }
    assert_eq!(f.cell(0, 1).ch, ' ');
    assert_eq!(f.cell(4, 1).ch, ' ');
}

#[test]
fn filtered_commands_matches_by_query() {
    assert_eq!(filter_commands("/").len(), commands().len());
    let filtered = filter_commands("/de");
    assert!(filtered.iter().any(|(c, _)| c == "/delete"));
    assert!(!filtered.iter().any(|(c, _)| c == "/add"));
    assert!(filter_commands("/zzz").is_empty());
    assert_eq!(filter_commands("add").len(), 1);
}

#[test]
fn parse_add_command_extracts_inline_source() {
    let magnet = "magnet:?xt=urn:btih:0123456789abcdef0123456789abcdef01234567";
    assert_eq!(
        parse_add_command(&format!("/add {magnet}")),
        Some(magnet.to_string())
    );
}

#[test]
fn parse_add_command_trims_extra_whitespace() {
    assert_eq!(
        parse_add_command("/add   magnet:?xt=urn:btih:abc  "),
        Some("magnet:?xt=urn:btih:abc".to_string())
    );
}

#[test]
fn parse_add_command_returns_none_without_source() {
    assert_eq!(parse_add_command("/add"), None);
    assert_eq!(parse_add_command("/add "), None);
}

#[test]
fn parse_add_command_returns_none_for_other_commands() {
    assert_eq!(parse_add_command("/pause"), None);
    assert_eq!(parse_add_command("/delete"), None);
    assert_eq!(parse_add_command("olá"), None);
}

#[test]
fn should_open_command_menu_opens_for_command_prefixes() {
    assert!(should_open_command_menu("/"));
    assert!(should_open_command_menu("/add"));
    assert!(should_open_command_menu("/pa"));
    assert!(!should_open_command_menu(""));
}

#[test]
fn should_open_command_menu_stays_closed_for_inline_add() {
    assert!(!should_open_command_menu("/add "));
    assert!(!should_open_command_menu("/add magnet:?xt=urn:btih:abc"));
}

#[test]
fn home_prompt_label_changes_in_add_mode() {
    assert_eq!(home_prompt_label(false), "> ");
    assert_eq!(home_prompt_label(true), "insira o link: ");
}

#[test]
fn confirm_delete_prompt_label_shows_name_and_yes_no() {
    let label = confirm_delete_prompt_label("arquivo.iso");
    assert!(label.contains("excluir 'arquivo.iso'?"));
    assert!(label.contains("[Y] ou [N]"));
    assert!(label.ends_with(' '));
}

#[test]
fn confirm_delete_prompt_label_handles_pending_source() {
    let label = confirm_delete_prompt_label("magnet:?xt=urn:btih:abc");
    assert!(label.contains("excluir 'magnet:?xt=urn:btih:abc'?"));
}

#[test]
fn home_footer_hints_change_in_add_mode() {
    assert!(footer_hints(&UiView::Home, false, false, false).contains("/ comandos"));
    assert!(footer_hints(&UiView::Home, true, false, false).contains("Enter adiciona"));
    assert!(footer_hints(&UiView::Home, true, false, false).contains("Esc cancela"));
    assert!(footer_hints(&UiView::Home, false, true, false).contains("Y exclui"));
}

#[test]
fn insert_char_at_respects_cursor_position() {
    let mut s = String::from("abc");
    let pos = insert_char_at(&mut s, 1, 'X');
    assert_eq!(s, "aXbc");
    assert_eq!(pos, 2);
    let len = s.len();
    let new_pos = insert_char_at(&mut s, len, 'Z');
    assert_eq!(new_pos, len + 1);
    assert_eq!(s, "aXbcZ");
}

#[test]
fn insert_char_at_advances_by_the_char_width() {
    let mut s = String::from("ab");
    let pos = insert_char_at(&mut s, 1, 'ç');
    assert_eq!(s, "açb");
    assert_eq!(pos, 3);
}

#[test]
fn backspace_char_at_removes_char_before_cursor() {
    let mut s = String::from("abc");
    let pos = backspace_char_at(&mut s, 3);
    assert_eq!(s, "ab");
    assert_eq!(pos, 2);
    assert_eq!(backspace_char_at(&mut s, 0), 0);
    assert_eq!(s, "ab");
}

#[test]
fn backspace_char_at_removes_a_whole_accented_char() {
    let mut s = String::from("ação");
    let pos = backspace_char_at(&mut s, 3);
    assert_eq!(s, "aão");
    assert_eq!(pos, 1);
}

#[test]
fn prompt_cursor_col_converts_bytes_to_chars() {
    assert_eq!(prompt_cursor_col("ação", 5, 10), 3);
    assert_eq!(prompt_cursor_col("ação", 3, 10), 2);
    assert_eq!(prompt_cursor_col("ação", 5, 2), 2);
    assert_eq!(prompt_cursor_col("abc", 99, 10), 3);
    assert_eq!(prompt_cursor_col("abc", 2, 10), 2);
}

#[test]
fn execute_command_notice_for_unknown() {
    let notice = help_notice();
    assert!(notice.starts_with("comandos: "));
    assert!(notice.contains("/add"));
    assert!(notice.contains("/exit"));
}

#[test]
fn cycle_context_selection_wraps_around_limits() {
    assert_eq!(cycle_context_selection(0, 4, 1), 1);
    assert_eq!(cycle_context_selection(3, 4, 1), 0);
    assert_eq!(cycle_context_selection(0, 4, -1), 3);
    assert_eq!(cycle_context_selection(1, 4, -1), 0);
    assert_eq!(cycle_context_selection(0, 1, 1), 0);
    assert_eq!(cycle_context_selection(0, 0, 1), 0);
}

#[test]
fn entry_lines_map_back_to_their_entries() {
    let first_row: u16 = 4;
    let stride: u16 = 3;
    let count: usize = 6;
    for i in 0..count {
        let row = first_row + (i as u16) * stride;
        assert_eq!(table_row_to_index(row, first_row, count, stride), Some(i));
    }
}

#[test]
fn cycling_down_then_up_returns_to_start() {
    for len in 2..6usize {
        for start in 0..len {
            let down = cycle_context_selection(start, len, 1);
            assert_eq!(cycle_context_selection(down, len, -1), start);
        }
    }
}

/// The bar drawn for `filled` of the 24 blocks of a full-width progress
/// column, with its percentage text.
fn literal_bar(filled: usize, pct_text: &str) -> String {
    let mut bar = "█".repeat(filled);
    bar.push_str(&"░".repeat(24 - filled));
    bar.push(' ');
    bar.push_str(pct_text);
    bar
}

#[test]
fn session_table_line_appends_metrics_when_provided() {
    let bar = literal_bar(0, "  0.0%");
    assert_eq!(bar.chars().count(), PROGRESS_COL_W);
    let metrics = metrics_columns("1.2 MiB/s", "0.5 MiB/s", &eta_column(false, Some(300)), "2.00");
    let line = session_table_line("  ", 3, &bar, "pausado", "x", 10, Some(&metrics));
    assert_eq!(line.chars().count(), ROW_FIXED_W + METRICS_FIXED_W + 10);
    assert!(line.contains("MiB/s"));
}

#[test]
fn session_table_header_with_metrics_matches_data_width() {
    let bar = literal_bar(12, " 50.0%");
    let header = session_table_header(12, true, PROGRESS_COL_W);
    let metrics = metrics_columns("1.2 MiB/s", "0.0 MiB/s", &eta_column(false, Some(252)), "1.45");
    let data = session_table_line("  ", 1, &bar, "em andamento", "arquivo.iso", 12, Some(&metrics));
    assert_eq!(header.chars().count(), data.chars().count());
    assert!(header.contains("DOWN SPEED"));
    assert!(header.contains("RATIO"));
    assert!(data.contains("00:04:12"));
}

#[test]
fn backspace_after_insert_restores_text_and_cursor() {
    for (text, pos, c) in [("ação", 3usize, 'é'), ("abc", 3, 'x'), ("", 0, '€'), ("a😀b", 5, 'z')] {
        let mut s = text.to_string();
        let p1 = insert_char_at(&mut s, pos, c);
        assert_eq!(p1, pos + c.len_utf8());
        let p0 = backspace_char_at(&mut s, p1);
        assert_eq!(p0, pos);
        assert_eq!(s, text);
    }
}
