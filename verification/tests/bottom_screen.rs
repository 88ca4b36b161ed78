use opentorrent::bottom::{
    bottom_geometry, render_activity, render_badges_row, render_edge_row, render_input_card,
    render_status_bar, activity_phase, progress_label, ActivityIndicator, BottomData, BottomStyle,
};
use opentorrent::frame::{theme, Frame};
use opentorrent::screen::{
    body_height, home_layout, needs_full_redraw, render_footer, render_header, render_home_prompt,
    should_redraw, FRAME_BUDGET_MS,
};
use opentorrent::popup::{menu_selected_shown, render_menu_popup};
use opentorrent::ui::UiView;

fn make_data<'a>(prompt: &'a str, input: &'a str, cursor_col: usize) -> BottomData<'a> {
    BottomData {
        prompt,
        input,
        cursor_col,
        confirm_label: None,
        prompt_add_mode: false,
        menu_open: false,
        notice: None,
        progress_bytes: 0,
        total_bytes: 0,
    }
}

fn line_text(frame: &Frame, row: u16, cols: u16) -> String {
    (0..cols).map(|c| frame.cell(row, c).ch).collect()
}

#[test]
fn geometry_elevated_reserves_four_rows() {
    let g = bottom_geometry(BottomStyle::Elevated, 24);
    assert_eq!(g.reserved, 4);
    assert_eq!(g.input_row, 20);
    assert_eq!(g.badges_row, 21);
    assert_eq!(g.edge_row, 22);
    assert_eq!(g.status_row, 23);
}

#[test]
fn geometry_legacy_reserves_one_row() {
    let g = bottom_geometry(BottomStyle::Legacy, 24);
    assert_eq!(g.reserved, 1);
    assert_eq!(g.input_row, 22);
    assert_eq!(g.status_row, 23);
}

#[test]
fn geometry_of_a_tiny_screen_stays_on_screen() {
    let g = bottom_geometry(BottomStyle::Elevated, 2);
    assert_eq!(g.status_row, 1);
    assert_eq!(g.input_row, 0);
}

#[test]
fn activity_contains_dots_and_block() {
    let s = render_activity(0);
    assert!(s.starts_with("… "));
    assert!(s.contains('▁'));
}

#[test]
fn activity_rotates_by_phase() {
    let a = render_activity(0);
    let b = render_activity(1);
    assert_ne!(a, b);
}

#[test]
fn activity_indicator_starts_at_the_first_phase() {
    let mut a = ActivityIndicator::new();
    let first = a.tick();
    assert!(first.starts_with("… "));
    assert_eq!(first.chars().count(), render_activity(0).chars().count());
}

#[test]
fn input_card_sets_cursor_after_text() {
    let mut frame = Frame::new(60, 3);
    let data = make_data("> ", "abc", 3);
    render_input_card(&mut frame, 60, 1, &data, true);
    assert_eq!(frame.cursor(), Some((1, 8)));
}

#[test]
fn input_card_shows_accent_block_on_left_margin() {
    let mut frame = Frame::new(60, 3);
    let data = make_data("> ", "abc", 3);
    render_input_card(&mut frame, 60, 1, &data, true);
    assert_eq!(frame.cell(1, 0).ch(), '▌');
    assert_eq!(frame.cell(1, 0).fg(), Some(theme().card_accent_active));
    assert_eq!(frame.cell(1, 1).bg, Some(theme().card_bg));
}

#[test]
fn confirm_label_does_not_set_cursor() {
    let mut frame = Frame::new(60, 3);
    let mut data = make_data("> ", "", 0);
    data.confirm_label = Some("excluir 'x'? [Y] ou [N] ".to_string());
    render_input_card(&mut frame, 60, 1, &data, true);
    assert_eq!(frame.cursor(), None);
}

#[test]
fn badge_row_shows_mode_and_accent_block() {
    let mut frame = Frame::new(80, 3);
    let data = make_data("> ", "", 0);
    render_badges_row(&mut frame, 80, 1, &data, true);
    assert_eq!(frame.cell(1, 0).ch(), '▌');
    assert_eq!(frame.cell(1, 0).fg(), Some(theme().card_accent_active));
    let badge: String = (3..11).map(|c| frame.cell(1, c).ch()).collect();
    assert_eq!(badge, " INÍCIO ");
}

#[test]
fn edge_row_draws_corner_and_half_blocks() {
    let mut frame = Frame::new(80, 3);
    render_edge_row(&mut frame, 80, 2);
    assert_eq!(frame.cell(2, 0).ch(), '╹');
    assert_eq!(frame.cell(2, 1).ch(), '▀');
    assert_eq!(frame.cell(2, 79).ch(), '▀');
}

#[test]
fn status_bar_shows_progress_and_normal_mode_does_not_show_hints() {
    let mut frame = Frame::new(120, 3);
    let mut data = make_data("> ", "", 0);
    data.progress_bytes = 159_437;
    data.total_bytes = 205_000;
    let label = progress_label(data.progress_bytes, data.total_bytes);
    render_status_bar(&mut frame, 120, 2, &data, "… ▇", &label);
    assert_eq!(frame.cell(2, 0).bg, Some(theme().footer_bg));
    let row_text = line_text(&frame, 2, 120);
    assert!(row_text.contains("155.7K (78%)"));
    assert!(row_text.contains("esc interromper"));
    assert!(row_text.contains("Digite / para o menu de opções"));
    assert!(!row_text.contains("p pausar"));
}

#[test]
fn render_outside_the_frame_changes_nothing() {
    let mut frame = Frame::new(20, 2);
    let data = make_data("> ", "abc", 3);
    render_input_card(&mut frame, 20, 5, &data, true);
    render_edge_row(&mut frame, 20, 7);
    assert_eq!(frame.diff_count(&Frame::new(20, 2)), 0);
}

#[test]
fn header_shows_title_and_view_label() {
    let mut frame = Frame::new(60, 2);
    render_header(&mut frame, 60, &UiView::Home);
    let text = line_text(&frame, 0, 60);
    assert!(text.starts_with(" OpenTorrent v0.1.31 "));
    assert!(text.ends_with(" INÍCIO "));
    assert_eq!(frame.cell(0, 30).bg, Some(theme().header_bg));
}

#[test]
fn header_drops_view_label_when_it_does_not_fit() {
    let mut frame = Frame::new(25, 1);
    render_header(&mut frame, 25, &UiView::Menu);
    let text = line_text(&frame, 0, 25);
    assert!(!text.contains("COMANDOS"));
}

#[test]
fn footer_shows_hints_and_error_notice_flush_right() {
    let mut frame = Frame::new(100, 5);
    render_footer(&mut frame, 100, 5, &UiView::Home, false, false, false, Some("erro: falhou"));
    let text = line_text(&frame, 4, 100);
    assert!(text.contains("p pausar"));
    assert!(text.ends_with(" erro: falhou "));
    assert_eq!(frame.cell(4, 99).fg, Some(theme().error));
    assert_eq!(frame.cell(4, 90).fg, Some(theme().error));
}

#[test]
fn footer_shows_other_notices_as_warnings() {
    let mut frame = Frame::new(80, 3);
    render_footer(&mut frame, 80, 3, &UiView::Menu, false, false, false, Some("ok"));
    assert_eq!(frame.cell(2, 78).fg, Some(theme().warning));
}

#[test]
fn home_prompt_shows_placeholder_and_cursor() {
    let mut frame = Frame::new(60, 3);
    render_home_prompt(&mut frame, 60, 1, None, false, "", 0);
    let text = line_text(&frame, 1, 60);
    assert!(text.contains("> Enter a command or / for options"));
    assert_eq!(frame.cursor(), Some((1, 4)));
}

#[test]
fn home_prompt_places_cursor_in_typed_text() {
    let mut frame = Frame::new(60, 3);
    render_home_prompt(&mut frame, 60, 2, None, true, "ação", 3);
    let text = line_text(&frame, 2, 60);
    assert!(text.contains("insira o link: ação"));
    assert_eq!(frame.cursor(), Some((2, 2 + 15 + 2)));
}

#[test]
fn home_prompt_shows_confirmation_without_cursor() {
    let mut frame = Frame::new(60, 3);
    render_home_prompt(&mut frame, 60, 1, Some("excluir 'x'? [Y] ou [N] "), false, "abc", 3);
    let text = line_text(&frame, 1, 60);
    assert!(text.contains("excluir 'x'?"));
    assert_eq!(frame.cursor(), None);
}

#[test]
fn body_height_leaves_room_for_the_bottom_area() {
    assert_eq!(body_height(BottomStyle::Elevated, 24), 19);
    assert_eq!(body_height(BottomStyle::Legacy, 24), 22);
    assert_eq!(body_height(BottomStyle::Elevated, 3), 1);
}

#[test]
fn home_layout_shares_panels() {
    let l = home_layout(BottomStyle::Elevated, 1, 19);
    assert_eq!(l.panels_height, 19);
    assert_eq!(l.library_height, 10);
    assert_eq!(l.history_height, 9);
    assert!(l.show_history);
    let legacy = home_layout(BottomStyle::Legacy, 1, 22);
    assert_eq!(legacy.prompt_row, 22);
    assert_eq!(legacy.panels_height, 21);
    let short = home_layout(BottomStyle::Elevated, 1, 5);
    assert_eq!(short.library_height, 2);
    assert_eq!(short.history_height, 3);
    assert!(short.show_history);
    let tiny = home_layout(BottomStyle::Elevated, 1, 2);
    assert_eq!(tiny.library_height, 0);
    assert!(!tiny.show_history);
}

#[test]
fn full_redraw_on_first_frame_resize_or_large_change() {
    assert!(needs_full_redraw(None, 80, 24, 0));
    assert!(needs_full_redraw(Some((80, 23)), 80, 24, 0));
    assert!(!needs_full_redraw(Some((80, 24)), 80, 24, 960));
    assert!(needs_full_redraw(Some((80, 24)), 80, 24, 961));
}

#[test]
fn status_bar_shortcut_is_followed_by_blanks() {
    let mut frame = Frame::new(120, 3);
    let mut data = make_data("> ", "", 0);
    data.progress_bytes = 159_437;
    data.total_bytes = 205_000;
    let label = progress_label(data.progress_bytes, data.total_bytes);
    render_status_bar(&mut frame, 120, 2, &data, "… ▇", &label);
    let row_text = line_text(&frame, 2, 120);
    let at = row_text.find("esc interromper").expect("shortcut shown");
    let col = row_text[..at].chars().count() + "esc interromper".chars().count();
    assert_eq!(frame.cell(2, col as u16).ch(), ' ');
    assert_eq!(frame.cell(2, col as u16 + 1).ch(), ' ');
    assert!(!row_text.contains("ZQ"));
}

#[test]
fn narrow_palette_without_its_selected_line_is_drawn() {
    let mut frame = Frame::new(5, 10);
    assert!(!menu_selected_shown(BottomStyle::Elevated, 5, 0, 8, "/", 99));
    let layout = render_menu_popup(&mut frame, BottomStyle::Elevated, 5, 0, 8, "/", 99);
    assert_eq!(layout.row_stride, 1);
    assert!(menu_selected_shown(BottomStyle::Elevated, 5, 0, 8, "/", 0));
}

#[test]
fn activity_phase_steps_every_33_ms() {
    assert_eq!(activity_phase(0), 0);
    assert_eq!(activity_phase(32), 0);
    assert_eq!(activity_phase(33), 1);
    assert_eq!(activity_phase(100), 3);
    assert_eq!(render_activity(activity_phase(10)), "… ▁······");
}

#[test]
fn frames_are_drawn_when_dirty_or_on_budget() {
    assert!(should_redraw(true, 0));
    assert!(!should_redraw(false, 32));
    assert!(should_redraw(false, 33));
    assert_eq!(FRAME_BUDGET_MS, 33);
}

#[test]
fn progress_label_shows_size_and_rounded_percentage() {
    assert_eq!(progress_label(159_437, 205_000), "155.7K (78%)");
    assert_eq!(progress_label(0, 0), "0 (0%)");
    assert_eq!(progress_label(1, 8), "1 (13%)");
}
