//! Floating popups over the home screen: the command palette above the
//! prompt and the context menu of a library entry. Both are a thin box on a
//! solid background with one line per option, the selected one highlighted.
use vstd::prelude::*;

use crate::bottom::BottomStyle;
use crate::cards::{max_of, min_of, sub_nat};
use crate::draw::{ops_view, paint, paints, push_op, text_op, DrawOp, OpSpec};
use crate::frame::{box_bottom_spec, box_top_spec, frame_top_bottom, theme, theme_spec, Frame};
use crate::text::{chars_of, truncate, truncate_spec};
use crate::ui::{
    command_item_line, command_item_line_spec, context_action_label, context_action_label_spec,
    context_item_line, context_menu_options, context_menu_options_spec, filter_commands,
    filter_commands_spec, pairs_view, string_lit,
};
use crate::wrap::strings_view;

verus! {

/// Left column of the popups.
pub const LAYOUT_MARGIN_COLS: u16 = 2;

/// Geometry of the entries of a listed block, for mapping clicks.
#[derive(Clone, Copy, PartialEq, Eq, Debug, Structural)]
pub struct Layout {
    /// Screen line of the block.
    pub top: u16,
    /// Lines between the top of the block and its first entry.
    pub rows_offset: u16,
    /// Number of entries.
    pub row_count: usize,
    /// Screen lines per entry.
    pub row_stride: u16,
}

/// Largest value of `f` over the texts, 0 for none.
pub open spec fn max_len16(lines: Seq<Seq<char>>, k: int) -> int
    decreases k,
{
    if k <= 0 {
        0
    } else {
        max_of(max_len16(lines, k - 1), lines[k - 1].len() as int % 0x10000)
    }
}

/// Width of a popup showing `lines` (already truncated): the longest line
/// plus borders and margins, at most the terminal width minus 4.
pub open spec fn popup_width_spec(lines: Seq<Seq<char>>, cols: int) -> int {
    min_of(min_of(max_len16(lines, lines.len() as int) + 4, 0xffff), sub_nat(cols, 4))
}

fn popup_width(lines: &Vec<String>, cols: u16) -> (w: u16)
    ensures
        w == popup_width_spec(strings_view(lines@), cols as int),
{
    let ghost v = strings_view(lines@);
    let mut m: u16 = 0;
    let mut i: usize = 0;
    while i < lines.len()
        invariant
            i <= lines@.len(),
            v == strings_view(lines@),
            m == max_len16(v, i as int),
        decreases lines.len() - i,
    {
        let n: u16 = (chars_of(lines[i].as_str()).len() % 0x10000) as u16;
        assert(v[i as int] == lines@[i as int]@);
        if n > m {
            m = n;
        }
        i = i + 1;
    }
    let w = m.saturating_add(4);
    let lim = cols.saturating_sub(4);
    if w < lim {
        w
    } else {
        lim
    }
}

/// The thin box of a popup, in the border colour.
pub open spec fn box_ops(left: int, top: int, width: int, height: int) -> Seq<OpSpec> {
    let border = Some(theme_spec().border);
    let inner = sub_nat(height, 2);
    seq![OpSpec::Text { row: top as u16, col: left as u16, text: box_top_spec(width as nat), fg: border, bg: None }]
        + Seq::new(
        (inner * 2) as nat,
        |k: int|
            OpSpec::Text {
                row: (top + 1 + k / 2) as u16,
                col: (if k % 2 == 0 {
                    left
                } else {
                    left + width - 1
                }) as u16,
                text: seq!['│'],
                fg: border,
                bg: None,
            },
    ) + seq![
        OpSpec::Text {
            row: (top + height - 1) as u16,
            col: left as u16,
            text: box_bottom_spec(width as nat),
            fg: border,
            bg: None,
        },
    ]
}

fn push_box(ops: &mut Vec<DrawOp>, left: u16, top: u16, width: u16, height: u16)
    requires
        left + width >= 1,
        height >= 2,
        left + width <= 0xffff,
        top + height <= 0xffff,
    ensures
        ops_view(final(ops)@) == ops_view(old(ops)@) + box_ops(
            left as int,
            top as int,
            width as int,
            height as int,
        ),
{
    let border = Some(theme().border);
    let (top_line, bottom_line) = frame_top_bottom(width);
    let ghost base = ops_view(ops@);
    push_op(ops, DrawOp::Text { row: top, col: left, text: top_line, fg: border, bg: None });
    let ghost head = ops_view(ops@);
    let ghost sides = Seq::new(
        ((height - 2) * 2) as nat,
        |k: int|
            OpSpec::Text {
                row: (top + 1 + k / 2) as u16,
                col: (if k % 2 == 0 {
                    left as int
                } else {
                    left + width - 1
                }) as u16,
                text: seq!['│'],
                fg: border,
                bg: None,
            },
    );
    let mut row: u16 = top + 1;
    while row < top + height - 1
        invariant
            top + 1 <= row <= top + height - 1,
            height >= 2,
            left + width >= 1,
            left + width <= 0xffff,
            top + height <= 0xffff,
            border == Some(theme_spec().border),
            sides == Seq::new(
                ((height - 2) * 2) as nat,
                |k: int|
                    OpSpec::Text {
                        row: (top + 1 + k / 2) as u16,
                        col: (if k % 2 == 0 {
                            left as int
                        } else {
                            left + width - 1
                        }) as u16,
                        text: seq!['│'],
                        fg: border,
                        bg: None,
                    },
            ),
            ops_view(ops@) == head + sides.take((row - top - 1) * 2),
        decreases top + height - 1 - row,
    {
        proof {
            reveal_strlit("│");
        }
        push_op(ops, text_op(row, left, "│", border, None));
        push_op(ops, text_op(row, left + width - 1, "│", border, None));
        row = row + 1;
        assert("│"@ =~= seq!['│']);
        assert(ops_view(ops@) =~~= head + sides.take((row - top - 1) * 2));
    }
    assert(sides.take((height - 2) * 2) =~= sides);
    push_op(
        ops,
        DrawOp::Text { row: top + height - 1, col: left, text: bottom_line, fg: border, bg: None },
    );
    assert(ops_view(ops@) =~~= base + box_ops(left as int, top as int, width as int, height as int));
}

/// The option lines `0..k` of a popup: each truncated to the content width,
/// the selected one on the highlight background over the whole interior.
pub open spec fn popup_lines_ops(
    lines: Seq<Seq<char>>,
    left: int,
    top: int,
    width: int,
    selected: int,
    k: int,
) -> Seq<OpSpec>
    decreases k,
{
    if k <= 0 {
        Seq::empty()
    } else {
        let idx = k - 1;
        let row = (top + 1 + idx) as u16;
        let text = truncate_spec(lines[idx], sub_nat(width, 4) as nat);
        let prev = popup_lines_ops(lines, left, top, width, selected, k - 1);
        if idx == selected {
            prev + seq![
                OpSpec::Fill {
                    row,
                    col: (left + 2) as u16,
                    height: 1,
                    width: (width - 3) as u16,
                    ch: ' ',
                    fg: None,
                    bg: Some(theme_spec().highlight_bg),
                },
                OpSpec::Text {
                    row,
                    col: (left + 2) as u16,
                    text,
                    fg: Some(theme_spec().text),
                    bg: Some(theme_spec().highlight_bg),
                },
            ]
        } else {
            prev.push(
                OpSpec::Text {
                    row,
                    col: (left + 2) as u16,
                    text,
                    fg: Some(theme_spec().text),
                    bg: Some(theme_spec().popup_bg),
                },
            )
        }
    }
}

/// A popup at `(left, top)`: solid background, box, then its first `shown`
/// lines.
pub open spec fn popup_ops(
    lines: Seq<Seq<char>>,
    left: int,
    top: int,
    width: int,
    height: int,
    selected: int,
    shown: int,
) -> Seq<OpSpec> {
    seq![
        OpSpec::Fill {
            row: top as u16,
            col: left as u16,
            height: height as u16,
            width: width as u16,
            ch: ' ',
            fg: None,
            bg: Some(theme_spec().popup_bg),
        },
    ] + box_ops(left, top, width, height) + popup_lines_ops(lines, left, top, width, selected, shown)
}

fn push_popup(
    ops: &mut Vec<DrawOp>,
    lines: &Vec<String>,
    left: u16,
    top: u16,
    width: u16,
    height: u16,
    selected: usize,
    shown: usize,
)
    requires
        width >= 3 || selected >= shown,
        left + width >= 1,
        left + 2 <= 0xffff,
        height >= 3,
        shown <= lines@.len(),
        top + 1 + shown <= 0xffff,
        left + width <= 0xffff,
        top + height <= 0xffff,
    ensures
        ops_view(final(ops)@) == ops_view(old(ops)@) + popup_ops(
            strings_view(lines@),
            left as int,
            top as int,
            width as int,
            height as int,
            selected as int,
            shown as int,
        ),
{
    let t = theme();
    let ghost base = ops_view(ops@);
    push_op(
        ops,
        DrawOp::Fill {
            row: top,
            col: left,
            height,
            width,
            ch: ' ',
            fg: None,
            bg: Some(t.popup_bg),
        },
    );
    push_box(ops, left, top, width, height);
    let ghost head = ops_view(ops@);
    let ghost v = strings_view(lines@);
    let content_w: usize = width.saturating_sub(4) as usize;
    let mut idx: usize = 0;
    while idx < shown
        invariant
            idx <= shown,
            shown <= lines@.len(),
            top + 1 + shown <= 0xffff,
            left + width <= 0xffff,
            width >= 3 || selected >= shown,
            left + 2 <= 0xffff,
            t == theme_spec(),
            content_w == sub_nat(width as int, 4),
            v == strings_view(lines@),
            ops_view(ops@) == head + popup_lines_ops(
                v,
                left as int,
                top as int,
                width as int,
                selected as int,
                idx as int,
            ),
        decreases shown - idx,
    {
        let row: u16 = top + 1 + idx as u16;
        let text = truncate(lines[idx].as_str(), content_w);
        assert(v[idx as int] == lines@[idx as int]@);
        if idx == selected {
            push_op(
                ops,
                DrawOp::Fill {
                    row,
                    col: left + 2,
                    height: 1,
                    width: width - 3,
                    ch: ' ',
                    fg: None,
                    bg: Some(t.highlight_bg),
                },
            );
            push_op(
                ops,
                DrawOp::Text {
                    row,
                    col: left + 2,
                    text,
                    fg: Some(t.text),
                    bg: Some(t.highlight_bg),
                },
            );
        } else {
            push_op(
                ops,
                DrawOp::Text { row, col: left + 2, text, fg: Some(t.text), bg: Some(t.popup_bg) },
            );
        }
        idx = idx + 1;
        assert(ops_view(ops@) =~~= head + popup_lines_ops(
            v,
            left as int,
            top as int,
            width as int,
            selected as int,
            idx as int,
        ));
    }
    assert(ops_view(ops@) =~~= base + popup_ops(
        v,
        left as int,
        top as int,
        width as int,
        height as int,
        selected as int,
        shown as int,
    ));
}

// ---------------------------------------------------------------------------
// Command palette
// ---------------------------------------------------------------------------
/// Screen line the palette stands above: the line after the body for the
/// elevated layout, the body's last line (the prompt) for the legacy one.
pub open spec fn prompt_row_spec(style: BottomStyle, body_top: int, body_height: int) -> int {
    let end = min_of(body_top + body_height, 0xffff);
    match style {
        BottomStyle::Elevated => end,
        BottomStyle::Legacy => sub_nat(end, 1),
    }
}

/// The lines of the palette: the matching commands (selected one marked),
/// or a notice when none matches, each truncated to the terminal width
/// minus 8.
pub open spec fn menu_lines_spec(input: Seq<char>, menu_index: int, cols: int) -> Seq<Seq<char>> {
    let cmds = filter_commands_spec(input);
    let raw = if cmds.len() == 0 {
        seq!["nenhum comando encontrado"@]
    } else {
        menu_raw_lines(cmds, menu_index)
    };
    truncate_all(raw, sub_nat(cols, 8) as nat)
}

/// The palette lines before truncation.
pub open spec fn menu_raw_lines(cmds: Seq<(Seq<char>, Seq<char>)>, menu_index: int) -> Seq<Seq<char>> {
    Seq::new(cmds.len(), |i: int| command_item_line_spec(cmds[i].0, cmds[i].1, i == menu_index))
}

/// Each line truncated to `w` characters.
pub open spec fn truncate_all(lines: Seq<Seq<char>>, w: nat) -> Seq<Seq<char>> {
    lines.map_values(|l: Seq<char>| truncate_spec(l, w))
}

/// Height of a popup of `n` lines: borders included, between 3 and the room
/// available (at least 3).
pub open spec fn popup_height_spec(n: int, room: int) -> int {
    let h = min_of(n % 0x10000 + 2, 0xffff);
    let hi = max_of(room, 3);
    if h < 3 {
        3
    } else if h > hi {
        hi
    } else {
        h
    }
}

/// The operations of the palette and its click layout.
pub open spec fn menu_popup_spec(
    style: BottomStyle,
    cols: int,
    body_top: int,
    body_height: int,
    input: Seq<char>,
    menu_index: int,
) -> (Seq<OpSpec>, Layout) {
    let prompt_row = prompt_row_spec(style, body_top, body_height);
    let lines = menu_lines_spec(input, menu_index, cols);
    let width = popup_width_spec(lines, cols);
    let height = popup_height_spec(lines.len() as int, sub_nat(prompt_row, body_top));
    let top = sub_nat(prompt_row, height);
    let shown = min_of(lines.len() as int, sub_nat(height, 2));
    (
        popup_ops(lines, LAYOUT_MARGIN_COLS as int, top, width, height, menu_index, shown),
        Layout {
            top: (top + 1) as u16,
            rows_offset: 0,
            row_count: filter_commands_spec(input).len() as usize,
            row_stride: 1,
        },
    )
}

/// How many lines of the palette are drawn.
pub open spec fn menu_shown_spec(
    style: BottomStyle,
    cols: int,
    body_top: int,
    body_height: int,
    input: Seq<char>,
    menu_index: int,
) -> int {
    let prompt_row = prompt_row_spec(style, body_top, body_height);
    let lines = menu_lines_spec(input, menu_index, cols);
    let height = popup_height_spec(lines.len() as int, sub_nat(prompt_row, body_top));
    min_of(lines.len() as int, sub_nat(height, 2))
}

/// Whether the palette draws its selected line.
pub fn menu_selected_shown(
    style: BottomStyle,
    cols: u16,
    body_top: u16,
    body_height: u16,
    input: &str,
    menu_index: usize,
) -> (b: bool)
    ensures
        b == (menu_index < menu_shown_spec(
            style,
            cols as int,
            body_top as int,
            body_height as int,
            input@,
            menu_index as int,
        )),
{
    let end = body_top.saturating_add(body_height);
    let prompt_row = match style {
        BottomStyle::Elevated => end,
        BottomStyle::Legacy => end.saturating_sub(1),
    };
    let filtered = filter_commands(input);
    let n: usize = if filtered.len() == 0 {
        1
    } else {
        filtered.len()
    };
    proof {
        let lines = menu_lines_spec(input@, menu_index as int, cols as int);
        assert(lines.len() == n);
    }
    let n16: u16 = (n % 0x10000) as u16;
    let h = n16.saturating_add(2);
    let room = prompt_row.saturating_sub(body_top);
    let hi = if room > 3 {
        room
    } else {
        3
    };
    let height: u16 = if h < 3 {
        3
    } else if h > hi {
        hi
    } else {
        h
    };
    let max_lines: usize = (height as usize).saturating_sub(2);
    let shown: usize = if n < max_lines {
        n
    } else {
        max_lines
    };
    menu_index < shown
}

/// Draws the command palette above the prompt (over whatever the home
/// screen drew) and returns the layout of its entries for mouse clicks.
/// When the selected line is drawn the terminal needs 7 columns: in a
/// narrower popup its highlight would be less than nothing.
#[verifier::rlimit(40)]
pub fn render_menu_popup(
    frame: &mut Frame,
    style: BottomStyle,
    cols: u16,
    body_top: u16,
    body_height: u16,
    input: &str,
    menu_index: usize,
) -> (layout: Layout)
    requires
        old(frame).wf(),
        cols >= 7 || menu_index >= menu_shown_spec(
            style,
            cols as int,
            body_top as int,
            body_height as int,
            input@,
            menu_index as int,
        ),
    ensures
        paints(
            *old(frame),
            *final(frame),
            menu_popup_spec(style, cols as int, body_top as int, body_height as int, input@, menu_index as int).0,
        ),
        layout == menu_popup_spec(
            style,
            cols as int,
            body_top as int,
            body_height as int,
            input@,
            menu_index as int,
        ).1,
{
    let end = body_top.saturating_add(body_height);
    let prompt_row = match style {
        BottomStyle::Elevated => end,
        BottomStyle::Legacy => end.saturating_sub(1),
    };
    let filtered = filter_commands(input);
    let ghost cmds = filter_commands_spec(input@);
    let inner_w: usize = (cols as usize).saturating_sub(8);
    let mut lines: Vec<String> = Vec::new();
    if filtered.len() == 0 {
        let l = string_lit("nenhum comando encontrado");
        lines.push(truncate(l.as_str(), inner_w));
        assert(strings_view(lines@) =~= menu_lines_spec(input@, menu_index as int, cols as int));
    } else {
        let mut i: usize = 0;
        while i < filtered.len()
            invariant
                i <= filtered@.len(),
                pairs_view(filtered@) == cmds,
                cmds == filter_commands_spec(input@),
                cmds.len() > 0,
                inner_w == sub_nat(cols as int, 8),
                strings_view(lines@) == truncate_all(menu_raw_lines(cmds, menu_index as int), inner_w as nat).take(i as int),
            decreases filtered.len() - i,
        {
            let ghost before = strings_view(lines@);
            assert(pairs_view(filtered@)[i as int] == (filtered@[i as int].0@, filtered@[i as int].1@));
            let l = command_item_line(filtered[i].0.as_str(), filtered[i].1.as_str(), i == menu_index);
            let tl = truncate(l.as_str(), inner_w);
            lines.push(tl);
            proof {
                let target = truncate_all(menu_raw_lines(cmds, menu_index as int), inner_w as nat);
                assert(target[i as int] == tl@);
                assert(strings_view(lines@) =~= before.push(tl@));
                assert(target.take(i + 1) =~= target.take(i as int).push(target[i as int]));
            }
            i = i + 1;
        }
        assert(strings_view(lines@) =~= menu_lines_spec(input@, menu_index as int, cols as int));
    }
    let width = popup_width(&lines, cols);
    let n16: u16 = (lines.len() % 0x10000) as u16;
    let h = n16.saturating_add(2);
    let room = prompt_row.saturating_sub(body_top);
    let hi = if room > 3 {
        room
    } else {
        3
    };
    let height: u16 = if h < 3 {
        3
    } else if h > hi {
        hi
    } else {
        h
    };
    let top = prompt_row.saturating_sub(height);
    let max_lines: usize = (height as usize).saturating_sub(2);
    let shown: usize = if lines.len() < max_lines {
        lines.len()
    } else {
        max_lines
    };
    assert(top + height <= 0xffff);
    proof {
        assert(shown == menu_shown_spec(
            style,
            cols as int,
            body_top as int,
            body_height as int,
            input@,
            menu_index as int,
        ));
        assert(cols >= 7 ==> width >= 3);
    }
    let mut ops: Vec<DrawOp> = Vec::new();
    push_popup(&mut ops, &lines, LAYOUT_MARGIN_COLS, top, width, height, menu_index, shown);
    assert(ops_view(ops@) =~~= menu_popup_spec(
        style,
        cols as int,
        body_top as int,
        body_height as int,
        input@,
        menu_index as int,
    ).0);
    paint(frame, &ops);
    Layout { top: top + 1, rows_offset: 0, row_count: filtered.len(), row_stride: 1 }
}

// ---------------------------------------------------------------------------
// Context menu of a library entry
// ---------------------------------------------------------------------------
/// The open context menu: the entry clicked, the highlighted option and the
/// screen line it is anchored to.
#[derive(Clone, Copy, PartialEq, Eq, Debug, Structural)]
pub struct ContextMenu {
    pub entry_index: usize,
    pub selected: usize,
    pub anchor_row: u16,
}

/// The lines of the context menu of `cm`.
pub open spec fn context_lines_spec(cm: ContextMenu, session_len: int) -> Seq<Seq<char>> {
    let opts = context_menu_options_spec(cm.entry_index as int, session_len);
    Seq::new(
        opts.len(),
        |i: int|
            (if i == cm.selected {
                "> "@
            } else {
                "  "@
            }) + context_action_label_spec(opts[i]),
    )
}

/// The operations of the context menu anchored at its entry's line
/// (clamped to the body) and the rectangle `(left, top, width, height)` it
/// covers.
pub open spec fn context_popup_spec(
    cm: ContextMenu,
    session_len: int,
    cols: int,
    body_top: int,
    body_height: int,
) -> (Seq<OpSpec>, (u16, u16, u16, u16)) {
    let lines = context_lines_spec(cm, session_len);
    let width = popup_width_spec(truncate_all(lines, sub_nat(cols, 8) as nat), cols);
    let height = popup_height_spec(lines.len() as int, sub_nat(body_height, 1));
    let bottom = min_of(body_top + body_height, 0xffff);
    let top = max_of(min_of(cm.anchor_row as int, sub_nat(bottom, height)), body_top);
    (
        popup_ops(lines, LAYOUT_MARGIN_COLS as int, top, width, height, cm.selected as int, lines.len() as int),
        (LAYOUT_MARGIN_COLS, top as u16, width as u16, height as u16),
    )
}

/// Draws the context menu of `cm` over the home screen and returns the
/// rectangle it covers, for mouse clicks. A terminal needs 7 columns, as for
/// the palette.
pub fn render_context_popup(
    frame: &mut Frame,
    cm: ContextMenu,
    session_len: usize,
    cols: u16,
    body_top: u16,
    body_height: u16,
) -> (rect: (u16, u16, u16, u16))
    requires
        old(frame).wf(),
        cols >= 7,
        body_top as int + body_height as int + 6 <= 0xffff,
    ensures
        paints(
            *old(frame),
            *final(frame),
            context_popup_spec(cm, session_len as int, cols as int, body_top as int, body_height as int).0,
        ),
        rect == context_popup_spec(
            cm,
            session_len as int,
            cols as int,
            body_top as int,
            body_height as int,
        ).1,
{
    let options = context_menu_options(cm.entry_index, session_len);
    let ghost opts = context_menu_options_spec(cm.entry_index as int, session_len as int);
    let inner_w: usize = (cols as usize).saturating_sub(8);
    let mut lines: Vec<String> = Vec::new();
    let mut shortened: Vec<String> = Vec::new();
    let mut i: usize = 0;
    while i < options.len()
        invariant
            i <= options@.len(),
            options@ == opts,
            opts == context_menu_options_spec(cm.entry_index as int, session_len as int),
            inner_w == sub_nat(cols as int, 8),
            strings_view(lines@) == context_lines_spec(cm, session_len as int).take(i as int),
            strings_view(shortened@) == truncate_all(context_lines_spec(cm, session_len as int), inner_w as nat).take(i as int),
        decreases options.len() - i,
    {
        let ghost before_l = strings_view(lines@);
        let ghost before_s = strings_view(shortened@);
        let l = context_item_line(context_action_label(options[i]), i == cm.selected);
        let s = truncate(l.as_str(), inner_w);
        lines.push(l);
        shortened.push(s);
        proof {
            let target = context_lines_spec(cm, session_len as int);
            let target_s = truncate_all(target, inner_w as nat);
            assert(target[i as int] == l@);
            assert(target_s[i as int] == s@);
            assert(strings_view(lines@) =~= before_l.push(l@));
            assert(strings_view(shortened@) =~= before_s.push(s@));
            assert(target.take(i + 1) =~= target.take(i as int).push(target[i as int]));
            assert(target_s.take(i + 1) =~= target_s.take(i as int).push(target_s[i as int]));
        }
        i = i + 1;
    }
    assert(strings_view(lines@) =~= context_lines_spec(cm, session_len as int));
    assert(strings_view(shortened@) =~= truncate_all(context_lines_spec(cm, session_len as int), inner_w as nat));
    let width = popup_width(&shortened, cols);
    let n16: u16 = (lines.len() % 0x10000) as u16;
    let h = n16.saturating_add(2);
    let room = body_height.saturating_sub(1);
    let hi = if room > 3 {
        room
    } else {
        3
    };
    let height: u16 = if h < 3 {
        3
    } else if h > hi {
        hi
    } else {
        h
    };
    let bottom = body_top.saturating_add(body_height);
    let lowest = bottom.saturating_sub(height);
    let a = if cm.anchor_row < lowest {
        cm.anchor_row
    } else {
        lowest
    };
    let top = if a > body_top {
        a
    } else {
        body_top
    };
    let mut ops: Vec<DrawOp> = Vec::new();
    push_popup(&mut ops, &lines, LAYOUT_MARGIN_COLS, top, width, height, cm.selected, lines.len());
    assert(ops_view(ops@) =~~= context_popup_spec(
        cm,
        session_len as int,
        cols as int,
        body_top as int,
        body_height as int,
    ).0);
    paint(frame, &ops);
    (LAYOUT_MARGIN_COLS, top, width, height)
}

} // verus!
