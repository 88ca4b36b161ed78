//! Bottom area of the interactive UI: the elevated input card (input line,
//! badges, lower edge) and the status bar below it, with its activity
//! indicator.
use vstd::prelude::*;

use crate::draw::{op_view, ops_view, paint, paints, push_op, text_op, DrawOp, OpSpec};
use crate::frame::{theme, theme_spec, Color, Frame};
use crate::downloads::{binary_size_text, format_binary_size};
use crate::text::{
    chars_of, decimal_spec, extend_str, push_decimal, starts_with_chars, starts_with_spec, string_of,
    truncate, truncate_spec,
};
use crate::webseed::trim_end_char;

verus! {

/// Version of the program, shown in the badges row.
pub const VERSION: &'static str = "0.1.31";

/// Accent glyph on the left margin of the card.
pub const ACCENT_BLOCK: &'static str = "▌";

/// Lower left corner of the card.
pub const ACCENT_CORNER: &'static str = "╹";

/// Upper half block of the lower edge of the card.
pub const EDGE_BLOCK: char = '▀';

/// Layout of the bottom area.
#[derive(Clone, Copy, PartialEq, Eq, Debug, Structural)]
pub enum BottomStyle {
    /// Prompt at the end of the body, then the footer.
    Legacy,
    /// Elevated card (input, badges, edge) and an outer status bar.
    Elevated,
}

/// Screen lines of the bottom area and the lines it reserves below the body.
#[derive(Clone, Copy, PartialEq, Eq, Debug, Structural)]
pub struct BottomGeometry {
    pub input_row: u16,
    pub badges_row: u16,
    pub edge_row: u16,
    pub status_row: u16,
    pub reserved: u16,
}

pub open spec fn sub16(a: int, b: int) -> int {
    if a > b {
        a - b
    } else {
        0
    }
}

/// The lines of the bottom area for a terminal of `rows` lines.
pub open spec fn bottom_geometry_spec(style: BottomStyle, rows: int) -> BottomGeometry {
    match style {
        BottomStyle::Legacy => BottomGeometry {
            input_row: sub16(rows, 2) as u16,
            badges_row: sub16(rows, 2) as u16,
            edge_row: sub16(rows, 2) as u16,
            status_row: sub16(rows, 1) as u16,
            reserved: 1,
        },
        BottomStyle::Elevated => BottomGeometry {
            input_row: sub16(rows, 4) as u16,
            badges_row: sub16(rows, 3) as u16,
            edge_row: sub16(rows, 2) as u16,
            status_row: sub16(rows, 1) as u16,
            reserved: 4,
        },
    }
}

/// The lines of the bottom area: the legacy layout keeps one line, the
/// elevated one four (input, badges, edge, status), counted from the bottom.
pub fn bottom_geometry(style: BottomStyle, rows: u16) -> (g: BottomGeometry)
    ensures
        g == bottom_geometry_spec(style, rows as int),
{
    match style {
        BottomStyle::Legacy => BottomGeometry {
            input_row: rows.saturating_sub(2),
            badges_row: rows.saturating_sub(2),
            edge_row: rows.saturating_sub(2),
            status_row: rows.saturating_sub(1),
            reserved: 1,
        },
        BottomStyle::Elevated => BottomGeometry {
            input_row: rows.saturating_sub(4),
            badges_row: rows.saturating_sub(3),
            edge_row: rows.saturating_sub(2),
            status_row: rows.saturating_sub(1),
            reserved: 4,
        },
    }
}

/// What the UI has resolved for the bottom area.
pub struct BottomData<'a> {
    /// Label of the prompt (`> ` or `insira o link: `).
    pub prompt: &'a str,
    /// Text typed after the label.
    pub input: &'a str,
    /// Cursor column within the visible text.
    pub cursor_col: usize,
    /// Question of a pending delete confirmation.
    pub confirm_label: Option<String>,
    /// The prompt asks for a source to add.
    pub prompt_add_mode: bool,
    /// The command palette is open.
    pub menu_open: bool,
    /// Transient notice.
    pub notice: Option<&'a str>,
    /// Bytes downloaded over all torrents.
    pub progress_bytes: u64,
    /// Total bytes over all torrents.
    pub total_bytes: u64,
}

// ---------------------------------------------------------------------------
// Overall progress
// ---------------------------------------------------------------------------
/// The percentage of `progress` in `total`, rounded half up (0 of nothing),
/// at most the largest `u64`.
pub open spec fn percent_rounded(progress: nat, total: nat) -> nat {
    if total == 0 {
        0
    } else {
        let p = (200 * progress + total) / (2 * total);
        if p > u64::MAX {
            u64::MAX as nat
        } else {
            p
        }
    }
}

/// The label of the overall progress: the size downloaded with binary
/// prefixes, without the final `i` (`155.7K`), and the rounded percentage.
pub open spec fn progress_label_spec(progress: u64, total: u64) -> Seq<char> {
    trim_end_char(binary_size_text(progress), 'i') + " ("@ + decimal_spec(
        percent_rounded(progress as nat, total as nat),
    ) + "%)"@
}

/// The label of the overall progress of the status bar (`155.7K (78%)`).
pub fn progress_label(progress: u64, total: u64) -> (s: String)
    ensures
        s@ == progress_label_spec(progress, total),
{
    let size = chars_of(format_binary_size(progress).as_str());
    let mut end: usize = size.len();
    assert(size@.take(size.len() as int) =~= size@);
    while end > 0 && size[end - 1] == 'i'
        invariant
            end <= size.len(),
            trim_end_char(size@, 'i') == trim_end_char(size@.take(end as int), 'i'),
        decreases end,
    {
        assert(size@.take(end as int).drop_last() =~= size@.take(end - 1));
        end = end - 1;
    }
    let mut v: Vec<char> = Vec::new();
    let mut k: usize = 0;
    while k < end
        invariant
            k <= end <= size.len(),
            v@ == size@.take(k as int),
        decreases end - k,
    {
        v.push(size[k]);
        k = k + 1;
        assert(v@ =~= size@.take(k as int));
    }
    assert(trim_end_char(v@, 'i') == v@);
    let pct: u64 = if total == 0 {
        0
    } else {
        assert(200 * (progress as int) + total <= 201 * 0xffff_ffff_ffff_ffffint) by (nonlinear_arith)
            requires
                progress <= 0xffff_ffff_ffff_ffffu64,
                total <= 0xffff_ffff_ffff_ffffu64,
        ;
        let p: u128 = (200 * (progress as u128) + total as u128) / (2 * total as u128);
        if p > 0xffff_ffff_ffff_ffffu128 {
            0xffff_ffff_ffff_ffffu64
        } else {
            p as u64
        }
    };
    extend_str(&mut v, " (");
    push_decimal(&mut v, pct);
    extend_str(&mut v, "%)");
    assert(v@ =~= progress_label_spec(progress, total));
    string_of(&v)
}

// ---------------------------------------------------------------------------
// Activity indicator
// ---------------------------------------------------------------------------
#[verifier::external_type_specification]
#[verifier::external_body]
pub struct ExInstant(std::time::Instant);

/// The current instant (`Instant::now`); nothing is known of its value.
#[verifier::external_body]
fn instant_now() -> (t: std::time::Instant) {
    std::time::Instant::now()
}

/// Milliseconds elapsed since `start` (`Instant::elapsed().as_millis()`),
/// truncated to 64 bits; nothing is known of its value.
#[verifier::external_body]
fn elapsed_millis(start: &std::time::Instant) -> (ms: u64) {
    start.elapsed().as_millis() as u64
}

/// The blocks of the activity bar, lowest to highest.
pub open spec fn activity_blocks() -> Seq<char> {
    seq!['▁', '▂', '▃', '▄', '▆', '▇', '█']
}

/// `… ` and seven places: the block of its rank at place `phase % 7`, `·`
/// elsewhere.
pub open spec fn render_activity_spec(phase: nat) -> Seq<char> {
    "… "@ + Seq::new(
        7,
        |i: int|
            if i == phase % 7 {
                activity_blocks()[i]
            } else {
                '·'
            },
    )
}

/// The animated activity bar for `phase`.
pub fn render_activity(phase: u64) -> (s: String)
    ensures
        s@ == render_activity_spec(phase as nat),
{
    let mut blocks: Vec<char> = Vec::new();
    blocks.push('▁');
    blocks.push('▂');
    blocks.push('▃');
    blocks.push('▄');
    blocks.push('▆');
    blocks.push('▇');
    blocks.push('█');
    assert(blocks@ =~= activity_blocks());
    let idx: usize = (phase % 7) as usize;
    let mut v = chars_of("… ");
    let ghost head = v@;
    let mut i: usize = 0;
    while i < 7
        invariant
            i <= 7,
            idx == phase % 7,
            blocks@ == activity_blocks(),
            v@ == head + Seq::new(
                i as nat,
                |k: int|
                    if k == idx {
                        activity_blocks()[k]
                    } else {
                        '·'
                    },
            ),
        decreases 7 - i,
    {
        if i == idx {
            v.push(blocks[i]);
        } else {
            v.push('·');
        }
        i = i + 1;
        assert(v@ =~= head + Seq::new(
            i as nat,
            |k: int|
                if k == idx {
                    activity_blocks()[k]
                } else {
                    '·'
                },
        ));
    }
    assert(v@ =~= render_activity_spec(phase as nat));
    string_of(&v)
}

/// The phase of the activity bar `ms` milliseconds after it started: one
/// step every 33 ms.
pub fn activity_phase(ms: u64) -> (p: u64)
    ensures
        p == ms / 33,
{
    ms / 33
}

/// Animated activity bar whose phase advances every 33 ms since it was made.
pub struct ActivityIndicator {
    phase: u64,
    start: std::time::Instant,
}

impl ActivityIndicator {
    /// The phase of the last tick.
    pub closed spec fn phase_spec(&self) -> u64 {
        self.phase
    }

    /// The instant the indicator was made.
    pub closed spec fn start_spec(&self) -> std::time::Instant {
        self.start
    }

    /// An indicator at phase 0, started now.
    pub fn new() -> (a: ActivityIndicator)
        ensures
            a.phase_spec() == 0,
    {
        ActivityIndicator { phase: 0, start: instant_now() }
    }

    /// Moves to the phase of the time elapsed (one step per 33 ms) and
    /// returns the bar of that phase.
    pub fn tick(&mut self) -> (s: String)
        ensures
            final(self).start_spec() == old(self).start_spec(),
            s@ == render_activity_spec(final(self).phase_spec() as nat),
    {
        let phase = activity_phase(elapsed_millis(&self.start));
        self.phase = phase;
        render_activity(phase)
    }
}

// ---------------------------------------------------------------------------
// Input card
// ---------------------------------------------------------------------------
pub open spec fn accent_spec(focused: bool) -> Color {
    if focused {
        theme_spec().card_accent_active
    } else {
        theme_spec().card_accent_idle
    }
}

/// Accent glyph and card background of one card line.
pub open spec fn card_line_ops(cols: int, row: u16, accent: Color) -> Seq<OpSpec> {
    seq![
        OpSpec::Text {
            row,
            col: 0,
            text: seq!['▌'],
            fg: Some(accent),
            bg: Some(theme_spec().card_bg),
        },
        OpSpec::Fill {
            row,
            col: 1,
            height: 1,
            width: sub16(cols, 1) as u16,
            ch: ' ',
            fg: None,
            bg: Some(theme_spec().card_bg),
        },
    ]
}

/// The input line of the card: the confirmation question when one is
/// pending (no cursor), else the prompt label, the typed text truncated to
/// the room left, and the cursor after `cursor_col` characters of it.
pub open spec fn input_card_ops_spec(cols: int, row: u16, data: BottomData, focused: bool) -> Seq<
    OpSpec,
> {
    let base = card_line_ops(cols, row, accent_spec(focused));
    match data.confirm_label {
        Some(label) => base.push(
            OpSpec::Text {
                row,
                col: 3,
                text: truncate_spec(label@, sub16(cols, 5) as nat),
                fg: Some(theme_spec().home_prompt_fg),
                bg: Some(theme_spec().card_bg),
            },
        ),
        None => {
            let text_col = 3 + data.prompt@.len();
            base + seq![
                OpSpec::Text {
                    row,
                    col: 3,
                    text: data.prompt@,
                    fg: Some(theme_spec().home_prompt_fg),
                    bg: Some(theme_spec().card_bg),
                },
                OpSpec::Text {
                    row,
                    col: text_col as u16,
                    text: truncate_spec(data.input@, sub16(cols, (text_col + 2) as int) as nat),
                    fg: Some(theme_spec().text),
                    bg: Some(theme_spec().card_bg),
                },
                OpSpec::Cursor {
                    row,
                    col: min16(text_col + (data.cursor_col as int % 0x10000)) as u16,
                },
            ]
        },
    }
}

pub open spec fn min16(x: int) -> int {
    if x > 0xffff {
        0xffff
    } else {
        x
    }
}

/// Accent glyph and background of a card line.
fn push_card_line(ops: &mut Vec<DrawOp>, cols: u16, row: u16, accent: Color)
    ensures
        ops_view(final(ops)@) == ops_view(old(ops)@) + card_line_ops(cols as int, row, accent),
{
    let t = theme();
    proof {
        reveal_strlit("▌");
    }
    push_op(ops, text_op(row, 0, "▌", Some(accent), Some(t.card_bg)));
    push_op(
        ops,
        DrawOp::Fill {
            row,
            col: 1,
            height: 1,
            width: cols.saturating_sub(1),
            ch: ' ',
            fg: None,
            bg: Some(t.card_bg),
        },
    );
    assert("▌"@ =~= seq!['▌']);
    assert(ops_view(ops@).len() == ops_view(old(ops)@).len() + 2);
    assert(ops_view(ops@)[ops_view(old(ops)@).len() as int] == card_line_ops(cols as int, row, accent)[0]);
    assert(ops_view(ops@)[(ops_view(old(ops)@).len() + 1) as int] == card_line_ops(cols as int, row, accent)[1]);
    assert(ops_view(ops@) =~~= ops_view(old(ops)@) + card_line_ops(cols as int, row, accent));
}

/// Operations of the input line of the card.
pub fn input_card_ops(cols: u16, row: u16, data: &BottomData, focused: bool) -> (ops: Vec<DrawOp>)
    requires
        3 + data.prompt@.len() + 2 <= 0xffff,
    ensures
        ops_view(ops@) == input_card_ops_spec(cols as int, row, *data, focused),
{
    let t = theme();
    let accent = if focused {
        t.card_accent_active
    } else {
        t.card_accent_idle
    };
    let mut ops: Vec<DrawOp> = Vec::new();
    push_card_line(&mut ops, cols, row, accent);
    assert(ops_view(ops@) =~~= card_line_ops(cols as int, row, accent));
    match &data.confirm_label {
        Some(label) => {
            let max_w = (cols as usize).saturating_sub(5);
            let shown = truncate(label.as_str(), max_w);
            push_op(
                &mut ops,
                DrawOp::Text {
                    row,
                    col: 3,
                    text: shown,
                    fg: Some(t.home_prompt_fg),
                    bg: Some(t.card_bg),
                },
            );
        },
        None => {
            push_op(&mut ops, text_op(row, 3, data.prompt, Some(t.home_prompt_fg), Some(t.card_bg)));
            let plen = chars_of(data.prompt).len();
            let text_col: u16 = 3 + plen as u16;
            let max_w = (cols as usize).saturating_sub(text_col as usize + 2);
            let shown = truncate(data.input, max_w);
            push_op(
                &mut ops,
                DrawOp::Text { row, col: text_col, text: shown, fg: Some(t.text), bg: Some(t.card_bg) },
            );
            let cc: u16 = (data.cursor_col % 0x10000) as u16;
            let cursor_col = text_col.saturating_add(cc);
            push_op(&mut ops, DrawOp::Cursor { row, col: cursor_col });
            assert(ops_view(ops@) =~~= input_card_ops_spec(cols as int, row, *data, focused));
        },
    }
    ops
}

/// Draws the input line of the card on line `row` (nothing when the line is
/// outside the frame).
pub fn render_input_card(frame: &mut Frame, cols: u16, row: u16, data: &BottomData, focused: bool)
    requires
        old(frame).wf(),
        3 + data.prompt@.len() + 2 <= 0xffff,
    ensures
        row >= old(frame).height() ==> *final(frame) == *old(frame),
        row < old(frame).height() ==> paints(
            *old(frame),
            *final(frame),
            input_card_ops_spec(cols as int, row, *data, focused),
        ),
{
    if row >= frame.rows() {
        return ;
    }
    let ops = input_card_ops(cols, row, data, focused);
    paint(frame, &ops);
}

// ---------------------------------------------------------------------------
// Badges, edge and status bar
// ---------------------------------------------------------------------------
/// Mode shown in the badge.
pub open spec fn mode_label_spec(menu_open: bool, prompt_add_mode: bool) -> Seq<char> {
    if menu_open {
        "COMANDOS"@
    } else if prompt_add_mode {
        "ADICIONAR"@
    } else {
        "INÍCIO"@
    }
}

/// Build metadata of the badges row.
pub open spec fn meta_spec() -> Seq<char> {
    "  •  OpenTorrent  •  Versão: v"@ + VERSION@
}

/// Colour of a notice: errors in red, other notices in yellow.
pub open spec fn notice_color_spec(notice: Seq<char>) -> Color {
    if starts_with_spec(notice, "erro"@) {
        theme_spec().error
    } else {
        theme_spec().warning
    }
}

/// The badges row: mode badge, build metadata and, to their right, the
/// notice truncated to the room left.
pub open spec fn badges_row_ops_spec(cols: int, row: u16, data: BottomData, focused: bool) -> Seq<
    OpSpec,
> {
    let badge = " "@ + mode_label_spec(data.menu_open, data.prompt_add_mode) + " "@;
    let meta_col = 3 + badge.len() + 1;
    let after = meta_col + meta_spec().len();
    let ops = card_line_ops(cols, row, accent_spec(focused)) + seq![
        OpSpec::Text {
            row,
            col: 3,
            text: badge,
            fg: Some(theme_spec().card_bg),
            bg: Some(theme_spec().card_accent_active),
        },
        OpSpec::Text {
            row,
            col: meta_col as u16,
            text: meta_spec(),
            fg: Some(theme_spec().text),
            bg: Some(theme_spec().card_bg),
        },
    ];
    match data.notice {
        Some(n) => ops.push(
            OpSpec::Text {
                row,
                col: after as u16,
                text: truncate_spec(n@, sub16(cols, (after + 2) as int) as nat),
                fg: Some(notice_color_spec(n@)),
                bg: Some(theme_spec().card_bg),
            },
        ),
        None => ops,
    }
}

/// Colour of a notice.
fn notice_color(notice: &str) -> (c: Color)
    ensures
        c == notice_color_spec(notice@),
{
    let t = theme();
    if starts_with_chars(&chars_of(notice), &chars_of("erro")) {
        t.error
    } else {
        t.warning
    }
}

/// Operations of the badges row.
pub fn badges_row_ops(cols: u16, row: u16, data: &BottomData, focused: bool) -> (ops: Vec<DrawOp>)
    ensures
        ops_view(ops@) == badges_row_ops_spec(cols as int, row, *data, focused),
{
    let t = theme();
    let accent = if focused {
        t.card_accent_active
    } else {
        t.card_accent_idle
    };
    let mut ops: Vec<DrawOp> = Vec::new();
    push_card_line(&mut ops, cols, row, accent);
    let mode = if data.menu_open {
        "COMANDOS"
    } else if data.prompt_add_mode {
        "ADICIONAR"
    } else {
        "INÍCIO"
    };
    let mut b = chars_of(" ");
    crate::text::extend_str(&mut b, mode);
    crate::text::extend_str(&mut b, " ");
    let badge_len = b.len();
    proof {
        reveal_strlit("COMANDOS");
        reveal_strlit("ADICIONAR");
        reveal_strlit("INÍCIO");
        reveal_strlit(" ");
    }
    let badge = string_of(&b);
    push_op(
        &mut ops,
        DrawOp::Text {
            row,
            col: 3,
            text: badge,
            fg: Some(t.card_bg),
            bg: Some(t.card_accent_active),
        },
    );
    let mut m = chars_of("  •  OpenTorrent  •  Versão: v");
    crate::text::extend_str(&mut m, VERSION);
    proof {
        reveal_strlit("  •  OpenTorrent  •  Versão: v");
        reveal_strlit("0.1.31");
    }
    let meta_len = m.len();
    let meta = string_of(&m);
    let meta_col: u16 = 3 + badge_len as u16 + 1;
    push_op(
        &mut ops,
        DrawOp::Text { row, col: meta_col, text: meta, fg: Some(t.text), bg: Some(t.card_bg) },
    );
    let after: u16 = meta_col + meta_len as u16;
    match data.notice {
        Some(notice) => {
            let color = notice_color(notice);
            let max_w = (cols as usize).saturating_sub(after as usize + 2);
            let shown = truncate(notice, max_w);
            push_op(
                &mut ops,
                DrawOp::Text { row, col: after, text: shown, fg: Some(color), bg: Some(t.card_bg) },
            );
        },
        None => {},
    }
    assert(ops_view(ops@) =~~= badges_row_ops_spec(cols as int, row, *data, focused));
    ops
}

/// Draws the badges row of the card on line `row`.
pub fn render_badges_row(frame: &mut Frame, cols: u16, row: u16, data: &BottomData, focused: bool)
    requires
        old(frame).wf(),
    ensures
        row >= old(frame).height() ==> *final(frame) == *old(frame),
        row < old(frame).height() ==> paints(
            *old(frame),
            *final(frame),
            badges_row_ops_spec(cols as int, row, *data, focused),
        ),
{
    if row >= frame.rows() {
        return ;
    }
    let ops = badges_row_ops(cols, row, data, focused);
    paint(frame, &ops);
}

/// The lower edge of a card: the corner, then upper half blocks.
pub open spec fn edge_row_ops_spec(cols: int, row: u16) -> Seq<OpSpec> {
    seq![
        OpSpec::Text {
            row,
            col: 0,
            text: seq!['╹'],
            fg: Some(theme_spec().card_accent_idle),
            bg: None,
        },
        OpSpec::Fill {
            row,
            col: 1,
            height: 1,
            width: sub16(cols, 1) as u16,
            ch: '▀',
            fg: Some(theme_spec().card_bg),
            bg: None,
        },
    ]
}

/// Appends the operations of the lower edge of a card.
pub fn push_edge_ops(ops: &mut Vec<DrawOp>, cols: u16, row: u16)
    ensures
        ops_view(final(ops)@) == ops_view(old(ops)@) + edge_row_ops_spec(cols as int, row),
{
    let t = theme();
    proof {
        reveal_strlit("╹");
    }
    push_op(ops, text_op(row, 0, "╹", Some(t.card_accent_idle), None));
    push_op(
        ops,
        DrawOp::Fill {
            row,
            col: 1,
            height: 1,
            width: cols.saturating_sub(1),
            ch: EDGE_BLOCK,
            fg: Some(t.card_bg),
            bg: None,
        },
    );
    assert("╹"@ =~= seq!['╹']);
    assert(ops_view(ops@)[ops_view(old(ops)@).len() as int] == edge_row_ops_spec(cols as int, row)[0]);
    assert(ops_view(ops@) =~~= ops_view(old(ops)@) + edge_row_ops_spec(cols as int, row));
}

/// Draws the lower edge of the card on line `row`.
pub fn render_edge_row(frame: &mut Frame, cols: u16, row: u16)
    requires
        old(frame).wf(),
    ensures
        row >= old(frame).height() ==> *final(frame) == *old(frame),
        row < old(frame).height() ==> paints(*old(frame), *final(frame), edge_row_ops_spec(cols as int, row)),
{
    if row >= frame.rows() {
        return ;
    }
    let mut ops: Vec<DrawOp> = Vec::new();
    push_edge_ops(&mut ops, cols, row);
    assert(ops_view(ops@) =~~= edge_row_ops_spec(cols as int, row));
    paint(frame, &ops);
}

/// Reminder of the command palette, right-aligned in the status bar.
pub open spec fn menu_hint_spec() -> Seq<char> {
    "Digite / para o menu de opções"@
}

/// The status bar: footer background; the activity bar, `esc` and its
/// label on the left; the progress label and the palette reminder
/// right-aligned; the notice, when there is one, between them, truncated to
/// the room left (and not drawn when nothing of it fits).
pub open spec fn status_bar_ops_spec(
    cols: int,
    row: u16,
    data: BottomData,
    activity: Seq<char>,
    progress: Seq<char>,
) -> Seq<OpSpec> {
    let bg = Some(theme_spec().footer_bg);
    let esc_col = 1 + activity.len() % 0x10000 + 1;
    let label_col = esc_col + 4;
    let col = label_col + 13;
    let right_len = (progress.len() + 3 + menu_hint_spec().len()) % 0x10000;
    let right_col = sub16(cols, right_len as int);
    let ops = seq![
        OpSpec::Fill { row, col: 0, height: 1, width: cols as u16, ch: ' ', fg: None, bg },
        OpSpec::Text { row, col: 1, text: activity, fg: Some(theme_spec().accent), bg },
        OpSpec::Text { row, col: esc_col as u16, text: "esc"@, fg: Some(theme_spec().text), bg },
        OpSpec::Text {
            row,
            col: label_col as u16,
            text: "interromper"@,
            fg: Some(theme_spec().muted),
            bg,
        },
        OpSpec::Text { row, col: right_col as u16, text: progress, fg: Some(theme_spec().text), bg },
        OpSpec::Text {
            row,
            col: sub16(cols, menu_hint_spec().len() as int) as u16,
            text: menu_hint_spec(),
            fg: Some(theme_spec().muted),
            bg,
        },
    ];
    match data.notice {
        Some(n) => {
            let shown = truncate_spec(n@, sub16(right_col, col as int) as nat);
            if shown.len() > 0 {
                ops.push(
                    OpSpec::Text { row, col: col as u16, text: shown, fg: Some(notice_color_spec(n@)), bg },
                )
            } else {
                ops
            }
        },
        None => ops,
    }
}

/// Operations of the status bar; `progress` is the label of the overall
/// progress (`155.7K (78%)`).
pub fn status_bar_ops(cols: u16, row: u16, data: &BottomData, activity: &str, progress: &str) -> (ops:
    Vec<DrawOp>)
    requires
        activity@.len() % 0x10000 + 19 <= 0xffff,
    ensures
        ops_view(ops@) == status_bar_ops_spec(cols as int, row, *data, activity@, progress@),
{
    let t = theme();
    let bg = Some(t.footer_bg);
    let mut ops: Vec<DrawOp> = Vec::new();
    push_op(&mut ops, DrawOp::Fill { row, col: 0, height: 1, width: cols, ch: ' ', fg: None, bg });
    push_op(&mut ops, text_op(row, 1, activity, Some(t.accent), bg));
    let alen = chars_of(activity).len();
    let esc_col: u16 = 1 + (alen % 0x10000) as u16 + 1;
    push_op(&mut ops, text_op(row, esc_col, "esc", Some(t.text), bg));
    let label_col: u16 = esc_col + 4;
    push_op(&mut ops, text_op(row, label_col, "interromper", Some(t.muted), bg));
    let col: u16 = label_col + 13;
    proof {
        reveal_strlit("interromper");
    }
    let hint = "Digite / para o menu de opções";
    proof {
        reveal_strlit("Digite / para o menu de opções");
    }
    let hlen = chars_of(hint).len();
    let plen = chars_of(progress).len();
    let right_len: u16 = ((plen % 0x10000 + 3 + hlen) % 0x10000) as u16;
    proof {
        reveal_strlit("Digite / para o menu de opções");
        assert((plen % 0x10000 + 3 + hlen) % 0x10000 == (plen + 3 + hlen) % 0x10000) by {
            vstd::arithmetic::div_mod::lemma_add_mod_noop(plen as int, 3 + hlen, 0x10000);
            vstd::arithmetic::div_mod::lemma_mod_twice(plen as int, 0x10000);
        }
    }
    let right_col = cols.saturating_sub(right_len);
    push_op(&mut ops, text_op(row, right_col, progress, Some(t.text), bg));
    push_op(&mut ops, text_op(row, cols.saturating_sub(hlen as u16), hint, Some(t.muted), bg));
    match data.notice {
        Some(notice) => {
            let color = notice_color(notice);
            let shown = truncate(notice, right_col.saturating_sub(col) as usize);
            if chars_of(shown.as_str()).len() > 0 {
                push_op(&mut ops, DrawOp::Text { row, col, text: shown, fg: Some(color), bg });
            }
        },
        None => {},
    }
    assert(ops_view(ops@) =~~= status_bar_ops_spec(cols as int, row, *data, activity@, progress@));
    ops
}

/// Draws the status bar on line `row`.
pub fn render_status_bar(
    frame: &mut Frame,
    cols: u16,
    row: u16,
    data: &BottomData,
    activity: &str,
    progress: &str,
)
    requires
        old(frame).wf(),
        activity@.len() % 0x10000 + 19 <= 0xffff,
    ensures
        row >= old(frame).height() ==> *final(frame) == *old(frame),
        row < old(frame).height() ==> paints(
            *old(frame),
            *final(frame),
            status_bar_ops_spec(cols as int, row, *data, activity@, progress@),
        ),
{
    if row >= frame.rows() {
        return ;
    }
    let ops = status_bar_ops(cols, row, data, activity, progress);
    paint(frame, &ops);
}

} // verus!
