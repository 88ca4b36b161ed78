//! The fixed parts of the screen: the header, the footer and the prompt of
//! the legacy layout, how the body is shared between the library and the
//! history, and when a frame is redrawn whole.
use vstd::prelude::*;

use crate::bottom::{bottom_geometry, bottom_geometry_spec, BottomStyle, VERSION};
use crate::draw::{op_view, ops_view, paint, paints, push_op, text_op, DrawOp, OpSpec};
use crate::frame::{theme, theme_spec, Color, Frame};
use crate::text::{
    chars_of, extend_str, starts_with_chars, starts_with_spec, string_of, truncate, truncate_spec,
};
use crate::ui::{
    byte_len, char_index_of, footer_hints, footer_hints_spec, home_prompt_label, is_boundary,
    prompt_cursor_col, view_label, UiView,
};

verus! {

/// Margin of the screen's sections on each side, in columns.
pub const SIDE_MARGIN: u16 = 2;

/// `a - b`, never below 0.
pub open spec fn sat_sub(a: int, b: int) -> int {
    if a > b {
        a - b
    } else {
        0
    }
}

// ---------------------------------------------------------------------------
// Header
// ---------------------------------------------------------------------------
/// The title of the header.
pub open spec fn title_spec() -> Seq<char> {
    " OpenTorrent v"@ + VERSION@ + " "@
}

/// The label of the current view, between blanks.
pub open spec fn view_tag_spec(view: UiView) -> Seq<char> {
    " "@ + (match view {
        UiView::Home => "INÍCIO"@,
        UiView::Menu => "COMANDOS"@,
    }) + " "@
}

/// The header: the line in the header's background, the title on the left,
/// and the view's label on the right when it fits after the title.
pub open spec fn header_ops_spec(cols: u16, view: UiView) -> Seq<OpSpec> {
    let t = theme_spec();
    let base = seq![
        OpSpec::Fill { row: 0, col: 0, height: 1, width: cols, ch: ' ', fg: None, bg: Some(t.header_bg) },
        OpSpec::Text { row: 0, col: 0, text: title_spec(), fg: Some(t.text), bg: Some(t.header_bg) },
    ];
    let label_col = sat_sub(cols as int, view_tag_spec(view).len() as int);
    if label_col > title_spec().len() {
        base.push(
            OpSpec::Text {
                row: 0,
                col: label_col as u16,
                text: view_tag_spec(view),
                fg: Some(t.accent),
                bg: Some(t.header_bg),
            },
        )
    } else {
        base
    }
}

/// The operations of the header.
pub fn header_ops(cols: u16, view: &UiView) -> (ops: Vec<DrawOp>)
    ensures
        ops_view(ops@) == header_ops_spec(cols, *view),
{
    let t = theme();
    let mut title = chars_of(" OpenTorrent v");
    extend_str(&mut title, VERSION);
    extend_str(&mut title, " ");
    let title_len = title.len();
    let mut tag = chars_of(" ");
    extend_str(&mut tag, view_label(view));
    extend_str(&mut tag, " ");
    let tag_len = tag.len();
    let mut ops: Vec<DrawOp> = Vec::new();
    push_op(
        &mut ops,
        DrawOp::Fill { row: 0, col: 0, height: 1, width: cols, ch: ' ', fg: None, bg: Some(t.header_bg) },
    );
    push_op(
        &mut ops,
        DrawOp::Text { row: 0, col: 0, text: string_of(&title), fg: Some(t.text), bg: Some(t.header_bg) },
    );
    let label_col: usize = (cols as usize).saturating_sub(tag_len);
    if label_col > title_len {
        push_op(
            &mut ops,
            DrawOp::Text {
                row: 0,
                col: label_col as u16,
                text: string_of(&tag),
                fg: Some(t.accent),
                bg: Some(t.header_bg),
            },
        );
    }
    assert(ops_view(ops@) =~~= header_ops_spec(cols, *view));
    ops
}

/// Draws the header on the first line.
pub fn render_header(frame: &mut Frame, cols: u16, view: &UiView)
    requires
        old(frame).wf(),
    ensures
        paints(*old(frame), *final(frame), header_ops_spec(cols, *view)),
{
    let ops = header_ops(cols, view);
    paint(frame, &ops);
}

// ---------------------------------------------------------------------------
// Footer
// ---------------------------------------------------------------------------
/// The color of a notice: errors (starting with `erro`) in red, the rest as
/// warnings.
pub open spec fn notice_color(notice: Seq<char>) -> Color {
    if starts_with_spec(notice, "erro"@) {
        theme_spec().error
    } else {
        theme_spec().warning
    }
}

/// The footer on the last line: its background, the view's shortcuts from
/// column 1, and the notice between blanks flush right.
pub open spec fn footer_ops_spec(
    cols: u16,
    rows: u16,
    view: UiView,
    prompt_add_mode: bool,
    confirming_delete: bool,
    context_menu_open: bool,
    notice: Option<Seq<char>>,
) -> Seq<OpSpec> {
    let t = theme_spec();
    let row = sat_sub(rows as int, 1) as u16;
    let base = seq![
        OpSpec::Fill { row, col: 0, height: 1, width: cols, ch: ' ', fg: None, bg: Some(t.footer_bg) },
        OpSpec::Text {
            row,
            col: 1,
            text: footer_hints_spec(view, prompt_add_mode, confirming_delete, context_menu_open),
            fg: Some(t.muted),
            bg: Some(t.footer_bg),
        },
    ];
    match notice {
        Some(n) => {
            let text = " "@ + n + " "@;
            base.push(
                OpSpec::Text {
                    row,
                    col: sat_sub(cols as int, text.len() as int % 0x10000) as u16,
                    text,
                    fg: Some(notice_color(n)),
                    bg: Some(t.footer_bg),
                },
            )
        },
        None => base,
    }
}

/// The operations of the footer.
pub fn footer_ops(
    cols: u16,
    rows: u16,
    view: &UiView,
    prompt_add_mode: bool,
    confirming_delete: bool,
    context_menu_open: bool,
    notice: Option<&str>,
) -> (ops: Vec<DrawOp>)
    ensures
        ops_view(ops@) == footer_ops_spec(
            cols,
            rows,
            *view,
            prompt_add_mode,
            confirming_delete,
            context_menu_open,
            match notice {
                Some(n) => Some(n@),
                None => None,
            },
        ),
{
    let t = theme();
    let row = rows.saturating_sub(1);
    let mut ops: Vec<DrawOp> = Vec::new();
    push_op(
        &mut ops,
        DrawOp::Fill { row, col: 0, height: 1, width: cols, ch: ' ', fg: None, bg: Some(t.footer_bg) },
    );
    let hints = footer_hints(view, prompt_add_mode, confirming_delete, context_menu_open);
    push_op(&mut ops, text_op(row, 1, hints, Some(t.muted), Some(t.footer_bg)));
    match notice {
        Some(n) => {
            let ncs = chars_of(n);
            let erro = chars_of("erro");
            let color = if starts_with_chars(&ncs, &erro) {
                t.error
            } else {
                t.warning
            };
            let mut text = chars_of(" ");
            extend_str(&mut text, n);
            extend_str(&mut text, " ");
            let len16: u16 = (text.len() % 0x10000) as u16;
            let col = cols.saturating_sub(len16);
            push_op(
                &mut ops,
                DrawOp::Text { row, col, text: string_of(&text), fg: Some(color), bg: Some(t.footer_bg) },
            );
        },
        None => {},
    }
    assert(ops_view(ops@) =~~= footer_ops_spec(
        cols,
        rows,
        *view,
        prompt_add_mode,
        confirming_delete,
        context_menu_open,
        match notice {
            Some(n) => Some(n@),
            None => None,
        },
    ));
    ops
}

/// Draws the footer on the last line.
pub fn render_footer(
    frame: &mut Frame,
    cols: u16,
    rows: u16,
    view: &UiView,
    prompt_add_mode: bool,
    confirming_delete: bool,
    context_menu_open: bool,
    notice: Option<&str>,
)
    requires
        old(frame).wf(),
    ensures
        paints(
            *old(frame),
            *final(frame),
            footer_ops_spec(
                cols,
                rows,
                *view,
                prompt_add_mode,
                confirming_delete,
                context_menu_open,
                match notice {
                    Some(n) => Some(n@),
                    None => None,
                },
            ),
        ),
{
    let ops = footer_ops(cols, rows, view, prompt_add_mode, confirming_delete, context_menu_open, notice);
    paint(frame, &ops);
}

// ---------------------------------------------------------------------------
// The prompt of the legacy layout
// ---------------------------------------------------------------------------
/// What the prompt shows in its text: the placeholder while nothing is typed
/// outside the add mode, else the typed text.
pub open spec fn prompt_text_spec(input: Seq<char>, prompt_add_mode: bool) -> Seq<char> {
    if input.len() == 0 && !prompt_add_mode {
        "Enter a command or / for options"@
    } else {
        input
    }
}

/// The cursor's place in the typed text, in characters, as
/// `prompt_cursor_col` counts it.
pub open spec fn cursor_chars_spec(input: Seq<char>, cursor_bytes: int, max_visible: int) -> int {
    let k = if cursor_bytes >= byte_len(input) {
        input.len() as int
    } else {
        char_index_of(input, cursor_bytes)
    };
    if k < max_visible {
        k
    } else {
        max_visible
    }
}

/// The prompt line of the legacy layout, between the side margins: the
/// delete confirmation alone when one is pending (no cursor); else the
/// label, the text truncated to the room left and the cursor.
pub open spec fn home_prompt_ops_spec(
    cols: u16,
    row: u16,
    confirm_label: Option<Seq<char>>,
    prompt_add_mode: bool,
    input: Seq<char>,
    cursor_bytes: int,
) -> Seq<OpSpec> {
    let t = theme_spec();
    let width = sat_sub(cols as int, 4);
    let max_w = sat_sub(width, 4);
    let fill = OpSpec::Fill {
        row,
        col: SIDE_MARGIN,
        height: 1,
        width: width as u16,
        ch: ' ',
        fg: None,
        bg: Some(t.footer_bg),
    };
    match confirm_label {
        Some(label) => seq![
            fill,
            OpSpec::Text {
                row,
                col: SIDE_MARGIN,
                text: truncate_spec(label, max_w as nat),
                fg: Some(t.home_prompt_fg),
                bg: Some(t.footer_bg),
            },
        ],
        None => {
            let prompt = if prompt_add_mode {
                "insira o link: "@
            } else {
                "> "@
            };
            let shown = truncate_spec(prompt_text_spec(input, prompt_add_mode), max_w as nat);
            let text_col = SIDE_MARGIN + prompt.len();
            let cc = cursor_chars_spec(input, cursor_bytes, shown.len() as int);
            seq![
                fill,
                OpSpec::Text {
                    row,
                    col: SIDE_MARGIN,
                    text: prompt,
                    fg: Some(t.home_prompt_fg),
                    bg: Some(t.footer_bg),
                },
                OpSpec::Text { row, col: text_col as u16, text: shown, fg: Some(t.text), bg: Some(t.footer_bg) },
                OpSpec::Cursor {
                    row,
                    col: (if text_col + cc % 0x10000 > 0xffff {
                        0xffff
                    } else {
                        text_col + cc % 0x10000
                    }) as u16,
                },
            ]
        },
    }
}

/// The operations of the prompt line.
pub fn home_prompt_ops(
    cols: u16,
    row: u16,
    confirm_label: Option<&str>,
    prompt_add_mode: bool,
    input: &str,
    cursor_bytes: usize,
) -> (ops: Vec<DrawOp>)
    requires
        is_boundary(input@, cursor_bytes as int) || cursor_bytes >= byte_len(input@),
    ensures
        ops_view(ops@) == home_prompt_ops_spec(
            cols,
            row,
            match confirm_label {
                Some(l) => Some(l@),
                None => None,
            },
            prompt_add_mode,
            input@,
            cursor_bytes as int,
        ),
{
    let t = theme();
    let width = cols.saturating_sub(2 * SIDE_MARGIN);
    let max_w = (width as usize).saturating_sub(4);
    let mut ops: Vec<DrawOp> = Vec::new();
    push_op(
        &mut ops,
        DrawOp::Fill { row, col: SIDE_MARGIN, height: 1, width, ch: ' ', fg: None, bg: Some(t.footer_bg) },
    );
    match confirm_label {
        Some(label) => {
            let shown = truncate(label, max_w);
            push_op(
                &mut ops,
                DrawOp::Text {
                    row,
                    col: SIDE_MARGIN,
                    text: shown,
                    fg: Some(t.home_prompt_fg),
                    bg: Some(t.footer_bg),
                },
            );
        },
        None => {
            let prompt = home_prompt_label(prompt_add_mode);
            let typed = chars_of(input);
            let text: &str = if typed.len() == 0 && !prompt_add_mode {
                "Enter a command or / for options"
            } else {
                input
            };
            proof {
                reveal_strlit("insira o link: ");
                reveal_strlit("> ");
            }
            let shown = truncate(text, max_w);
            push_op(&mut ops, text_op(row, SIDE_MARGIN, prompt, Some(t.home_prompt_fg), Some(t.footer_bg)));
            let plen = chars_of(prompt).len();
            let text_col: u16 = SIDE_MARGIN + plen as u16;
            let shown_len = chars_of(shown.as_str()).len();
            let cc = prompt_cursor_col(input, cursor_bytes, shown_len);
            push_op(
                &mut ops,
                DrawOp::Text { row, col: text_col, text: shown, fg: Some(t.text), bg: Some(t.footer_bg) },
            );
            let cc16: u16 = (cc % 0x10000) as u16;
            push_op(&mut ops, DrawOp::Cursor { row, col: text_col.saturating_add(cc16) });
        },
    }
    assert(ops_view(ops@) =~~= home_prompt_ops_spec(
        cols,
        row,
        match confirm_label {
            Some(l) => Some(l@),
            None => None,
        },
        prompt_add_mode,
        input@,
        cursor_bytes as int,
    ));
    ops
}

/// Draws the prompt line of the legacy layout on line `row`.
pub fn render_home_prompt(
    frame: &mut Frame,
    cols: u16,
    row: u16,
    confirm_label: Option<&str>,
    prompt_add_mode: bool,
    input: &str,
    cursor_bytes: usize,
)
    requires
        old(frame).wf(),
        is_boundary(input@, cursor_bytes as int) || cursor_bytes >= byte_len(input@),
    ensures
        paints(
            *old(frame),
            *final(frame),
            home_prompt_ops_spec(
                cols,
                row,
                match confirm_label {
                    Some(l) => Some(l@),
                    None => None,
                },
                prompt_add_mode,
                input@,
                cursor_bytes as int,
            ),
        ),
{
    let ops = home_prompt_ops(cols, row, confirm_label, prompt_add_mode, input, cursor_bytes);
    paint(frame, &ops);
}

// ---------------------------------------------------------------------------
// Layout of the body
// ---------------------------------------------------------------------------
/// Lines of the body: the screen less what the bottom area reserves and one
/// line of air above it, at least one.
pub open spec fn body_height_spec(style: BottomStyle, rows: u16) -> int {
    let h = sat_sub(sat_sub(rows as int, bottom_geometry_spec(style, rows as int).reserved as int), 1);
    if h < 1 {
        1
    } else {
        h
    }
}

/// The lines of the body.
pub fn body_height(style: BottomStyle, rows: u16) -> (h: u16)
    ensures
        h == body_height_spec(style, rows),
{
    let g = bottom_geometry(style, rows);
    let h = rows.saturating_sub(g.reserved).saturating_sub(1);
    if h < 1 {
        1
    } else {
        h
    }
}

/// How the home screen shares its body.
#[derive(Clone, Copy, PartialEq, Eq, Debug, Structural)]
pub struct HomeLayout {
    /// Line of the legacy prompt (0 in the elevated layout, which has none).
    pub prompt_row: u16,
    /// Lines of the two panels together.
    pub panels_height: u16,
    /// Lines of the library.
    pub library_height: u16,
    /// Lines of the history, when shown.
    pub history_height: u16,
    /// The history is shown (it needs at least 3 lines).
    pub show_history: bool,
}

/// The layout: in the legacy layout the prompt takes the body's last line
/// and the panels at least 2 lines; the library gets 55% of the panels, at
/// least 3 lines and no more than leaves 3; the history the rest, shown
/// when that is 3 lines or more.
pub open spec fn home_layout_spec(style: BottomStyle, body_top: u16, body_height: u16) -> HomeLayout {
    let prompt_row: int = match style {
        BottomStyle::Elevated => 0,
        BottomStyle::Legacy => sat_sub(
            if body_top + body_height > 0xffff {
                0xffff
            } else {
                body_top + body_height
            },
            1,
        ),
    };
    let panels: int = match style {
        BottomStyle::Elevated => body_height as int,
        BottomStyle::Legacy => if sat_sub(body_height as int, 1) < 2 {
            2
        } else {
            sat_sub(body_height as int, 1)
        },
    };
    let share = panels * 55 / 100;
    let at_least = if share < 3 {
        3
    } else {
        share
    };
    let library = if at_least < sat_sub(panels, 3) {
        at_least
    } else {
        sat_sub(panels, 3)
    };
    let history = sat_sub(panels, library);
    HomeLayout {
        prompt_row: prompt_row as u16,
        panels_height: panels as u16,
        library_height: library as u16,
        history_height: history as u16,
        show_history: history >= 3,
    }
}

/// The layout of the home screen for a body of `body_height` lines from
/// line `body_top` (a body of at most 1191 lines: 55% of it is computed in
/// 16 bits).
pub fn home_layout(style: BottomStyle, body_top: u16, body_height: u16) -> (l: HomeLayout)
    requires
        body_height as int * 55 <= 0xffff,
    ensures
        l == home_layout_spec(style, body_top, body_height),
{
    let (prompt_row, panels) = match style {
        BottomStyle::Elevated => (0u16, body_height),
        BottomStyle::Legacy => {
            let p = body_height.saturating_sub(1);
            (body_top.saturating_add(body_height).saturating_sub(1), if p < 2 {
                2
            } else {
                p
            })
        },
    };
    let share: u16 = panels * 55 / 100;
    let at_least: u16 = if share < 3 {
        3
    } else {
        share
    };
    let room = panels.saturating_sub(3);
    let library: u16 = if at_least < room {
        at_least
    } else {
        room
    };
    let history = panels.saturating_sub(library);
    HomeLayout {
        prompt_row,
        panels_height: panels,
        library_height: library,
        history_height: history,
        show_history: history >= 3,
    }
}

/// Milliseconds between two frames when nothing asks for one sooner.
pub const FRAME_BUDGET_MS: u64 = 33;

/// Whether a frame is drawn now: something changed the screen, or
/// `elapsed_ms` since the last frame reached the frame budget.
pub fn should_redraw(dirty: bool, elapsed_ms: u64) -> (b: bool)
    ensures
        b == (dirty || elapsed_ms >= FRAME_BUDGET_MS),
{
    dirty || elapsed_ms >= FRAME_BUDGET_MS
}

/// Whether the whole screen is cleared and redrawn: the first frame, a
/// frame of another size, or one where more than half the cells changed.
pub fn needs_full_redraw(prev_size: Option<(u16, u16)>, cols: u16, rows: u16, changed: usize) -> (b:
    bool)
    ensures
        b == match prev_size {
            None => true,
            Some((pc, pr)) => pc != cols || pr != rows || changed > (cols as int * rows as int) / 2,
        },
{
    match prev_size {
        None => true,
        Some((pc, pr)) => {
            assert(cols as int * rows as int <= 0xffff * 0xffff) by (nonlinear_arith)
                requires
                    cols <= 0xffff,
                    rows <= 0xffff,
            ;
            let total: u64 = cols as u64 * rows as u64;
            pc != cols || pr != rows || changed as u64 > total / 2
        },
    }
}

} // verus!
