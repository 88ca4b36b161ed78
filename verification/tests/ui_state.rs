use opentorrent::library::{
    DeleteTarget, LibraryMap, PendingStatus, PendingTorrent, SessionRow, TorrentState,
};
use opentorrent::popup::Layout;
use opentorrent::tui::{MouseKind, UiAction, UiState};
use opentorrent::ui::{Key, UiView};

fn test_layout() -> Layout {
    Layout {
        top: 2,
        rows_offset: 1,
        row_count: 3,
        row_stride: 1,
    }
}

fn pending(source: &str) -> PendingTorrent {
    PendingTorrent {
        source: source.to_string(),
        status: PendingStatus::Resolving,
    }
}

fn torrent(id: usize, name: &str, state: TorrentState) -> SessionRow {
    SessionRow {
        id,
        name: name.to_string(),
        state,
        progress_bytes: 0,
        total_bytes: 100,
        finished: false,
        eta_seconds: None,
        uploaded_bytes: 0,
    }
}

#[test]
fn open_context_menu_anchors_popup_on_clicked_row() {
    let mut ui = UiState::new();
    ui.layout = Some(test_layout());
    ui.open_context_menu(3);
    let cm = ui.context_menu.expect("popup deve abrir");
    assert_eq!(cm.entry_index, 0);
    assert_eq!(cm.anchor_row, 3);
    assert_eq!(cm.selected, 0);
    assert_eq!(ui.row_index, 0);
    assert_eq!(ui.context_rect, None);
}

#[test]
fn open_context_menu_ignores_clicks_outside_rows() {
    let mut ui = UiState::new();
    ui.open_context_menu(3);
    assert!(ui.context_menu.is_none());
    ui.layout = Some(test_layout());
    ui.open_context_menu(2);
    assert!(ui.context_menu.is_none());
    ui.open_context_menu(6);
    assert!(ui.context_menu.is_none());
    ui.open_context_menu(3);
    assert!(ui.context_menu.is_some());
    ui.open_context_menu(2);
    assert!(ui.context_menu.is_some());
}

#[test]
fn close_context_menu_clears_anchor_and_rect() {
    let mut ui = UiState::new();
    ui.layout = Some(test_layout());
    ui.open_context_menu(3);
    ui.context_rect = Some((2, 3, 13, 3));
    ui.close_context_menu();
    assert!(ui.context_menu.is_none());
    assert!(ui.context_rect.is_none());
}

#[test]
fn open_context_menu_uses_library_map_on_clicked_row() {
    let mut ui = UiState::new();
    ui.library_map = Some(LibraryMap {
        top: 2,
        rows: vec![0, 0, 1],
    });
    ui.open_context_menu(3);
    let cm = ui.context_menu.expect("popup deve abrir");
    assert_eq!(cm.entry_index, 0);
    assert_eq!(cm.anchor_row, 3);
    assert_eq!(ui.row_index, 0);
    ui.open_context_menu(4);
    let cm = ui.context_menu.expect("popup deve reabrir");
    assert_eq!(cm.entry_index, 1);
    assert_eq!(ui.row_index, 1);
}

#[test]
fn request_delete_targets_pending_entry() {
    let mut ui = UiState::new();
    ui.pending.push(pending("magnet:?xt=urn:btih:abc"));
    ui.request_delete(0, &vec![]);
    match &ui.confirming_delete {
        Some(DeleteTarget::Pending { name }) => assert!(name.contains("btih:abc")),
        _ => panic!("esperava DeleteTarget::Pending"),
    }
    assert!(ui.notice.is_none());
}

#[test]
fn request_delete_out_of_bounds_is_noop() {
    let mut ui = UiState::new();
    ui.request_delete(5, &vec![]);
    assert!(ui.confirming_delete.is_none());
}

#[test]
fn confirm_delete_discards_pending_entry() {
    let mut ui = UiState::new();
    ui.pending.push(pending("magnet:?xt=urn:btih:xyz"));
    ui.confirming_delete = Some(DeleteTarget::Pending {
        name: "magnet:?xt=urn:btih:xyz".into(),
    });
    let act = ui.confirm_delete(0);
    assert!(matches!(act, UiAction::Nothing));
    assert!(ui.pending.is_empty());
    assert!(ui.confirming_delete.is_none());
    assert!(ui.notice.as_deref().unwrap().contains("excluído"));
}

#[test]
fn confirm_delete_without_target_is_noop() {
    let mut ui = UiState::new();
    let act = ui.confirm_delete(0);
    assert!(matches!(act, UiAction::Nothing));
    assert!(ui.notice.is_none());
}

#[test]
fn confirm_delete_of_a_torrent_asks_the_app() {
    let mut ui = UiState::new();
    let rows = vec![torrent(7, "ubuntu.iso", TorrentState::Live)];
    ui.request_delete(0, &rows);
    match ui.confirm_delete(1) {
        UiAction::DeleteTorrent { id, name } => {
            assert_eq!(id, 7);
            assert_eq!(name, "ubuntu.iso");
        }
        _ => panic!("esperava DeleteTorrent"),
    }
    ui.delete_done("ubuntu.iso", Ok(()), 0);
    assert_eq!(
        ui.notice.as_deref(),
        Some("excluído: ubuntu.iso (arquivos removidos)")
    );
}

#[test]
fn context_menu_esc_closes_popup() {
    let mut ui = UiState::new();
    ui.layout = Some(test_layout());
    ui.open_context_menu(3);
    ui.handle_context_menu_key(Key::Esc, &vec![]);
    assert!(ui.context_menu.is_none());
}

#[test]
fn context_menu_enter_requests_delete_for_pending() {
    let mut ui = UiState::new();
    ui.pending.push(pending("magnet:?xt=urn:btih:abc"));
    ui.layout = Some(test_layout());
    ui.open_context_menu(3);
    ui.handle_context_menu_key(Key::Enter, &vec![]);
    assert!(ui.context_menu.is_none());
    assert!(matches!(
        ui.confirming_delete,
        Some(DeleteTarget::Pending { .. })
    ));
}

#[test]
fn context_menu_single_option_navigation_is_noop() {
    let mut ui = UiState::new();
    ui.layout = Some(test_layout());
    ui.open_context_menu(3);
    ui.handle_context_menu_key(Key::Down, &vec![]);
    ui.handle_context_menu_key(Key::Up, &vec![]);
    assert_eq!(ui.context_menu.unwrap().selected, 0);
}

#[test]
fn mouse_home_moves_selection_to_clicked_row() {
    let mut ui = UiState::new();
    ui.layout = Some(test_layout());
    let rows = vec![
        torrent(1, "a", TorrentState::Live),
        torrent(2, "b", TorrentState::Live),
        torrent(3, "c", TorrentState::Live),
    ];
    ui.handle_mouse(MouseKind::LeftDown, 10, 5, &rows);
    assert_eq!(ui.row_index, 2);
    ui.handle_mouse(MouseKind::LeftDown, 10, 0, &rows);
    assert_eq!(ui.row_index, 2);
}

#[test]
fn mouse_right_click_opens_context_menu() {
    let mut ui = UiState::new();
    ui.layout = Some(test_layout());
    let rows = vec![torrent(1, "a", TorrentState::Live)];
    ui.handle_mouse(MouseKind::RightDown, 10, 3, &rows);
    assert!(ui.context_menu.is_some());
}

#[test]
fn mouse_ignores_non_click_events() {
    let mut ui = UiState::new();
    ui.layout = Some(test_layout());
    let rows = vec![torrent(1, "a", TorrentState::Live)];
    ui.handle_mouse(MouseKind::Other, 10, 3, &rows);
    assert!(ui.context_menu.is_none());
    assert_eq!(ui.row_index, 0);
}

#[test]
fn pause_key_asks_the_app_to_pause_the_selected_torrent() {
    let mut ui = UiState::new();
    let rows = vec![torrent(4, "debian.iso", TorrentState::Live)];
    match ui.handle_key(Key::Char('p'), false, &rows) {
        UiAction::Pause { id, name } => {
            assert_eq!(id, 4);
            assert_eq!(name, "debian.iso");
        }
        _ => panic!("esperava Pause"),
    }
}

#[test]
fn typing_edits_the_prompt_and_slash_opens_the_menu() {
    let mut ui = UiState::new();
    let rows = vec![];
    ui.handle_key(Key::Char('/'), false, &rows);
    assert_eq!(ui.input, "/");
    assert_eq!(ui.view, UiView::Menu);
}

#[test]
fn paste_inserts_text_at_the_cursor() {
    let mut ui = UiState::new();
    ui.handle_paste("magnet:?xt");
    assert_eq!(ui.input, "magnet:?xt");
    assert_eq!(ui.prompt_cursor, "magnet:?xt".len());
}

#[test]
fn ctrl_c_stops_the_ui() {
    let mut ui = UiState::new();
    ui.handle_key(Key::Char('c'), true, &vec![]);
    assert!(!ui.running);
}

#[test]
fn x_with_empty_prompt_removes_the_selected_torrent() {
    let mut ui = UiState::new();
    let rows = vec![torrent(7, "a", TorrentState::Live), torrent(9, "b", TorrentState::Live)];
    ui.row_index = 1;
    match ui.handle_key(Key::Char('x'), false, &rows) {
        UiAction::Remove { id, name } => {
            assert_eq!(id, 9);
            assert_eq!(name, "b");
        }
        other => panic!("esperava Remove, veio {other:?}"),
    }
}

#[test]
fn delete_key_then_yes_asks_the_app_to_delete() {
    let mut ui = UiState::new();
    let rows = vec![torrent(4, "iso", TorrentState::Paused)];
    assert!(matches!(ui.handle_key(Key::Delete, false, &rows), UiAction::Nothing));
    assert!(matches!(ui.confirming_delete, Some(DeleteTarget::Torrent { id: 4, .. })));
    match ui.handle_key(Key::Char('y'), false, &rows) {
        UiAction::DeleteTorrent { id, .. } => assert_eq!(id, 4),
        other => panic!("esperava DeleteTorrent, veio {other:?}"),
    }
    assert!(ui.confirming_delete.is_none());
}

#[test]
fn enter_in_the_palette_runs_the_highlighted_command() {
    let mut ui = UiState::new();
    ui.view = UiView::Menu;
    ui.input = "/exi".to_string();
    ui.prompt_cursor = 4;
    ui.menu_index = 0;
    ui.handle_key(Key::Enter, false, &vec![]);
    assert!(!ui.running);
}

#[test]
fn draining_keeps_unfinished_sources_and_shows_the_last_notice() {
    let mut ui = UiState::new();
    ui.pending = vec![pending("a"), pending("b"), pending("c")];
    ui.pending_already_managed("a");
    ui.pending_failed("b", "falhou".to_string());
    ui.drain_pending_notices();
    assert_eq!(ui.pending.len(), 2);
    assert_eq!(ui.pending[0].source, "b");
    assert!(matches!(&ui.pending[0].status, PendingStatus::Error(m) if m == "falhou"));
    assert_eq!(ui.pending[1].source, "c");
    assert_eq!(ui.notice.as_deref(), Some("origem já gerenciada"));
}

#[test]
fn left_click_on_a_context_option_runs_it() {
    let mut ui = UiState::new();
    ui.layout = Some(test_layout());
    let rows = vec![torrent(5, "a", TorrentState::Live)];
    ui.open_context_menu(3);
    assert!(ui.context_menu.is_some());
    ui.context_rect = Some((10, 3, 20, 6));
    match ui.handle_mouse(MouseKind::LeftDown, 12, 4, &rows) {
        UiAction::Pause { id, .. } => assert_eq!(id, 5),
        other => panic!("esperava Pause, veio {other:?}"),
    }
    assert!(ui.context_menu.is_none());
}

#[test]
fn left_click_outside_the_context_menu_closes_it() {
    let mut ui = UiState::new();
    ui.layout = Some(test_layout());
    let rows = vec![torrent(5, "a", TorrentState::Live)];
    ui.open_context_menu(3);
    ui.context_rect = Some((10, 3, 20, 6));
    assert!(matches!(ui.handle_mouse(MouseKind::LeftDown, 50, 4, &rows), UiAction::Nothing));
    assert!(ui.context_menu.is_none());
}

#[test]
fn backspace_on_home_deletes_and_reopens_the_palette() {
    let mut ui = UiState::new();
    ui.input = "/pa".to_string();
    ui.prompt_cursor = 3;
    ui.view = UiView::Home;
    assert!(matches!(ui.handle_key(Key::Backspace, false, &vec![]), UiAction::Nothing));
    assert_eq!(ui.input, "/p");
    assert_eq!(ui.prompt_cursor, 2);
    assert_eq!(ui.view, UiView::Menu);
    assert_eq!(ui.menu_index, 0);
}

#[test]
fn add_mode_types_and_submits_the_source() {
    let mut ui = UiState::new();
    ui.prompt_add_mode = true;
    for c in "magnet:?x".chars() {
        ui.handle_key(Key::Char(c), false, &vec![]);
    }
    assert_eq!(ui.input, "magnet:?x");
    match ui.handle_key(Key::Enter, false, &vec![]) {
        UiAction::CheckSource { source, restore } => {
            assert_eq!(source, "magnet:?x");
            assert_eq!(restore, None);
        }
        other => panic!("esperava CheckSource, veio {other:?}"),
    }
}

#[test]
fn enter_in_the_context_menu_runs_the_highlighted_option() {
    let mut ui = UiState::new();
    ui.layout = Some(test_layout());
    let rows = vec![torrent(5, "a", TorrentState::Live)];
    ui.open_context_menu(3);
    ui.handle_key(Key::Down, false, &rows);
    match ui.handle_key(Key::Enter, false, &rows) {
        UiAction::Resume { id, .. } => assert_eq!(id, 5),
        other => panic!("esperava Resume, veio {other:?}"),
    }
    assert!(ui.context_menu.is_none());
}
