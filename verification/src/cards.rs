//! Cards and popups of the home screen: the library card (torrents and
//! pending sources, names wrapped, scrolled), the history card (completed
//! downloads, scrolled) and the floating popups (command palette, context
//! menu of a library entry).
use vstd::prelude::*;

use crate::bottom::{edge_row_ops_spec, push_edge_ops};
use crate::downloads::{
    completed_row_spec, format_completed_row, history_header, history_header_spec, CompletedItem,
    HISTORY_DATE_W, HISTORY_SIZE_W,
};
use crate::draw::{op_view, ops_view, paint, paints, push_op, text_op, DrawOp, OpSpec};
use crate::frame::{box_bottom_spec, box_top_spec, frame_top_bottom, theme, theme_spec, Color, Frame};
use crate::library::{phys_view, phys_views, LibraryColumns, LibraryMap, PhysView, PhysicalRow};
use crate::text::{chars_of, truncate, truncate_spec};
use crate::ui::{session_table_header, session_table_header_spec, ROW_PREFIX_W};

verus! {

pub open spec fn sub_nat(a: int, b: int) -> int {
    if a > b {
        a - b
    } else {
        0
    }
}

pub open spec fn min_of(a: int, b: int) -> int {
    if a < b {
        a
    } else {
        b
    }
}

pub open spec fn max_of(a: int, b: int) -> int {
    if a > b {
        a
    } else {
        b
    }
}

// ---------------------------------------------------------------------------
// Pieces shared by the cards
// ---------------------------------------------------------------------------
/// Card background over `height` lines and the accent glyph on the left
/// margin of each of them.
pub open spec fn card_background_ops(cols: u16, top: u16, height: u16, accent: Color) -> Seq<OpSpec> {
    let end = min_of(top + height, 0xffff);
    seq![
        OpSpec::Fill {
            row: top,
            col: 0,
            height,
            width: cols,
            ch: ' ',
            fg: None,
            bg: Some(theme_spec().card_bg),
        },
    ] + Seq::new(
        sub_nat(end, top as int) as nat,
        |i: int|
            OpSpec::Text {
                row: (top + i) as u16,
                col: 0,
                text: seq!['▌'],
                fg: Some(accent),
                bg: Some(theme_spec().card_bg),
            },
    )
}

fn push_card_background(ops: &mut Vec<DrawOp>, cols: u16, top: u16, height: u16, accent: Color)
    ensures
        ops_view(final(ops)@) == ops_view(old(ops)@) + card_background_ops(cols, top, height, accent),
{
    let t = theme();
    push_op(
        ops,
        DrawOp::Fill { row: top, col: 0, height, width: cols, ch: ' ', fg: None, bg: Some(t.card_bg) },
    );
    let ghost base = ops_view(ops@);
    let end = top.saturating_add(height);
    let mut r: u16 = top;
    proof {
        reveal_strlit("▌");
    }
    while r < end
        invariant
            top <= r,
            r <= end || r == top,
            end == min_of(top + height, 0xffff),
            t == theme_spec(),
            ops_view(ops@) == base + Seq::new(
                (r - top) as nat,
                |i: int|
                    OpSpec::Text {
                        row: (top + i) as u16,
                        col: 0,
                        text: seq!['▌'],
                        fg: Some(accent),
                        bg: Some(theme_spec().card_bg),
                    },
            ),
        decreases end - r,
    {
        proof {
            reveal_strlit("▌");
        }
        push_op(ops, text_op(r, 0, "▌", Some(accent), Some(t.card_bg)));
        r = r + 1;
        assert("▌"@ =~= seq!['▌']);
        assert(ops_view(ops@) =~~= base + Seq::new(
            (r - top) as nat,
            |i: int|
                OpSpec::Text {
                    row: (top + i) as u16,
                    col: 0,
                    text: seq!['▌'],
                    fg: Some(accent),
                    bg: Some(theme_spec().card_bg),
                },
        ));
    }
    assert(ops_view(ops@) =~~= ops_view(old(ops)@) + card_background_ops(cols, top, height, accent));
}

/// Height of the scrollbar thumb: the visible share of the track, at least 1.
pub open spec fn thumb_h_spec(track: int, visible: int, total: int) -> int {
    max_of(track * visible / total, 1)
}

/// Offset of the thumb: proportional to the scroll position.
pub open spec fn thumb_offset_spec(track: int, visible: int, total: int, scroll: int) -> int {
    (track - thumb_h_spec(track, visible, total)) * scroll / (total - visible)
}

/// The scrollbar on the last column: `█` on the thumb, `░` elsewhere, over
/// the card lines but the last; only when the content exceeds the card.
pub open spec fn scrollbar_ops(
    cols: u16,
    top: u16,
    height: u16,
    visible: int,
    total: int,
    scroll: int,
    thumb: Color,
) -> Seq<OpSpec> {
    if total > visible {
        let track = height - 1;
        let th = thumb_h_spec(track, visible, total);
        let off = thumb_offset_spec(track, visible, total, scroll);
        Seq::new(
            track as nat,
            |i: int|
                OpSpec::Text {
                    row: (top + i) as u16,
                    col: sub_nat(cols as int, 1) as u16,
                    text: if off <= i < off + th {
                        seq!['█']
                    } else {
                        seq!['░']
                    },
                    fg: if off <= i < off + th {
                        Some(thumb)
                    } else {
                        Some(theme_spec().muted)
                    },
                    bg: Some(theme_spec().card_bg),
                },
        )
    } else {
        Seq::empty()
    }
}

fn push_scrollbar(
    ops: &mut Vec<DrawOp>,
    cols: u16,
    top: u16,
    height: u16,
    visible: usize,
    total: usize,
    scroll: usize,
    thumb: Color,
)
    requires
        height >= 4,
        top + height <= 0xffff,
        visible <= height,
        total > visible ==> scroll <= total - visible,
    ensures
        ops_view(final(ops)@) == ops_view(old(ops)@) + scrollbar_ops(
            cols,
            top,
            height,
            visible as int,
            total as int,
            scroll as int,
            thumb,
        ),
{
    if total <= visible {
        assert(ops_view(ops@) =~= ops_view(old(ops)@) + Seq::<OpSpec>::empty());
        return ;
    }
    let t = theme();
    let track: u16 = height - 1;
    proof {
        assert(track as int * visible as int <= track as int * total as int) by (nonlinear_arith)
            requires
                visible < total,
        ;
        assert(track as int * visible as int / total as int <= track as int) by (nonlinear_arith)
            requires
                track as int * visible as int <= track as int * total as int,
                total > 0,
        ;
        assert(track as int * visible as int <= 0xffff * 0xffff) by (nonlinear_arith)
            requires
                track <= 0xffff,
                visible <= 0xffff,
        ;
    }
    let share: u64 = (track as u64 * visible as u64) / total as u64;
    let th: u16 = if share > 1 {
        share as u16
    } else {
        1
    };
    let max_scroll: usize = total - visible;
    proof {
        assert((track - th) as int * scroll as int / max_scroll as int <= (track - th) as int) by (
        nonlinear_arith)
            requires
                scroll <= max_scroll,
                max_scroll > 0,
                track >= th,
        ;
        assert((track - th) as int * scroll as int <= 0xffff * 0xffff_ffff_ffff_ffffu128) by (
        nonlinear_arith)
            requires
                track - th <= 0xffff,
                scroll <= 0xffff_ffff_ffff_ffffu128,
        ;
    }
    let off: u128 = ((track - th) as u128 * scroll as u128) / max_scroll as u128;
    let ghost base = ops_view(ops@);
    let sb_col = cols.saturating_sub(1);
    proof {
        reveal_strlit("█");
        reveal_strlit("░");
    }
    let mut i: u16 = 0;
    while i < track
        invariant
            i <= track,
            track == height - 1,
            top + height <= 0xffff,
            th == thumb_h_spec(track as int, visible as int, total as int),
            off == thumb_offset_spec(track as int, visible as int, total as int, scroll as int),
            total > visible,
            sb_col == sub_nat(cols as int, 1),
            t == theme_spec(),
            ops_view(ops@) == base + scrollbar_ops(
                cols,
                top,
                height,
                visible as int,
                total as int,
                scroll as int,
                thumb,
            ).take(i as int),
        decreases track - i,
    {
        proof {
            reveal_strlit("█");
            reveal_strlit("░");
        }
        let in_thumb = (i as u128) >= off && (i as u128) < off + th as u128;
        if in_thumb {
            push_op(ops, text_op(top + i, sb_col, "█", Some(thumb), Some(t.card_bg)));
        } else {
            push_op(ops, text_op(top + i, sb_col, "░", Some(t.muted), Some(t.card_bg)));
        }
        i = i + 1;
        assert("█"@ =~= seq!['█']);
        assert("░"@ =~= seq!['░']);
        assert(ops_view(ops@) =~~= base + scrollbar_ops(
            cols,
            top,
            height,
            visible as int,
            total as int,
            scroll as int,
            thumb,
        ).take(i as int));
    }
    assert(scrollbar_ops(cols, top, height, visible as int, total as int, scroll as int, thumb).take(
        track as int,
    ) =~= scrollbar_ops(cols, top, height, visible as int, total as int, scroll as int, thumb));
}

// ---------------------------------------------------------------------------
// Library card
// ---------------------------------------------------------------------------
/// What drawing the library card leaves for the UI: the clamped scroll
/// offset, the map from screen lines to items and the card's region.
#[derive(Clone, Debug)]
pub struct LibraryCardOutcome {
    pub scroll: usize,
    pub map: Option<LibraryMap>,
    pub region: Option<(u16, u16)>,
}

/// Operations of the visible physical lines `scroll..scroll + k`: the
/// selected entry gets the highlight background, the bar of a first line
/// is drawn over its text in the entry's colour.
pub open spec fn library_items_ops(
    lines: Seq<PhysView>,
    scroll: int,
    items_top: int,
    content_w: int,
    total_items: int,
    row_index: int,
    k: int,
) -> Seq<OpSpec>
    decreases k,
{
    if k <= 0 {
        Seq::empty()
    } else {
        let prev = library_items_ops(lines, scroll, items_top, content_w, total_items, row_index, k - 1);
        let p = lines[scroll + k - 1];
        let row = (items_top + k - 1) as u16;
        let selected = p.0 < total_items && p.0 == row_index;
        let bg = if selected {
            theme_spec().highlight_bg
        } else {
            theme_spec().card_bg
        };
        let hl = if selected {
            seq![
                OpSpec::Fill {
                    row,
                    col: 3,
                    height: 1,
                    width: content_w as u16,
                    ch: ' ',
                    fg: None,
                    bg: Some(bg),
                },
            ]
        } else {
            Seq::empty()
        };
        let text = seq![OpSpec::Text { row, col: 3, text: p.1, fg: Some(theme_spec().text), bg: Some(bg) }];
        let bar = match p.2 {
            Some(b) => seq![
                OpSpec::Text {
                    row,
                    col: (3 + ROW_PREFIX_W) as u16,
                    text: b.0,
                    fg: Some(b.1),
                    bg: Some(bg),
                },
            ],
            None => Seq::empty(),
        };
        prev + hl + text + bar
    }
}

/// Scroll offset clamped so that the last page stays full.
pub open spec fn clamp_scroll(scroll: int, total: int, visible: int) -> int {
    min_of(scroll, sub_nat(total, visible))
}

/// Number of lines the card shows for items: all but title, header and edge.
pub open spec fn rows_for_items(height: int) -> int {
    sub_nat(height, 3)
}

/// The operations of the library card at `top`, `height` lines tall:
/// background and green accent, title, table header, the visible lines
/// from the clamped scroll offset on, the scrollbar and the lower edge.
pub open spec fn library_card_ops_spec(
    cols: u16,
    top: u16,
    height: u16,
    c: LibraryColumns,
    lines: Seq<PhysView>,
    total_items: int,
    row_index: int,
    scroll: int,
) -> Seq<OpSpec> {
    let visible = rows_for_items(height as int);
    let s = clamp_scroll(scroll, lines.len() as int, visible);
    let shown = min_of(visible, lines.len() - s);
    card_background_ops(cols, top, height, theme_spec().card_accent_library) + seq![
        OpSpec::Text {
            row: top,
            col: 3,
            text: "Biblioteca de downloads"@,
            fg: Some(theme_spec().text),
            bg: Some(theme_spec().card_bg),
        },
        OpSpec::Text {
            row: (top + 1) as u16,
            col: 3,
            text: session_table_header_spec(c.name_width as nat, c.show_metrics, c.bar_w as nat),
            fg: Some(theme_spec().muted),
            bg: Some(theme_spec().card_bg),
        },
    ] + library_items_ops(lines, s, top + 2, c.content_w as int, total_items, row_index, shown)
        + scrollbar_ops(
        cols,
        top,
        height,
        visible,
        lines.len() as int,
        s,
        theme_spec().card_accent_library,
    ) + edge_row_ops_spec(cols as int, (top + height - 1) as u16)
}

/// Draws the library card: `physical` are its lines (see
/// `library_physical_rows`), `total_items` the number of entries, `scroll`
/// the current scroll offset. A card under 4 lines is not drawn and leaves
/// no map nor region. The map sends each physical line to its item.
pub fn render_library_card(
    frame: &mut Frame,
    cols: u16,
    top: u16,
    height: u16,
    c: &LibraryColumns,
    physical: &Vec<PhysicalRow>,
    total_items: usize,
    row_index: usize,
    scroll: usize,
) -> (out: LibraryCardOutcome)
    requires
        old(frame).wf(),
        top + height <= 0xffff,
        c.content_w <= cols,
    ensures
        height < 4 ==> *final(frame) == *old(frame) && out.scroll == scroll && out.map is None
            && out.region is None,
        height >= 4 ==> {
            &&& paints(
                *old(frame),
                *final(frame),
                library_card_ops_spec(
                    cols,
                    top,
                    height,
                    *c,
                    phys_views(physical@),
                    total_items as int,
                    row_index as int,
                    scroll as int,
                ),
            )
            &&& out.scroll == clamp_scroll(
                scroll as int,
                physical@.len() as int,
                rows_for_items(height as int),
            )
            &&& out.map matches Some(m) && m.top == top + 2 && m.rows@ == phys_views(
                physical@,
            ).map_values(|p: PhysView| p.0 as usize)
            &&& out.region == Some((top, height))
        },
{
    if height < 4 {
        return LibraryCardOutcome { scroll, map: None, region: None };
    }
    let t = theme();
    let mut ops: Vec<DrawOp> = Vec::new();
    push_card_background(&mut ops, cols, top, height, t.card_accent_library);
    push_op(&mut ops, text_op(top, 3, "Biblioteca de downloads", Some(t.text), Some(t.card_bg)));
    let header = session_table_header(c.name_width, c.show_metrics, c.bar_w);
    push_op(
        &mut ops,
        DrawOp::Text { row: top + 1, col: 3, text: header, fg: Some(t.muted), bg: Some(t.card_bg) },
    );
    let ghost lines = phys_views(physical@);
    let ghost head = ops_view(ops@);
    let visible: usize = (height - 3) as usize;
    let total = physical.len();
    let max_scroll = total.saturating_sub(visible);
    let s = if scroll < max_scroll {
        scroll
    } else {
        max_scroll
    };
    let shown: usize = if visible < total - s {
        visible
    } else {
        total - s
    };
    let items_top: u16 = top + 2;
    let mut i: usize = 0;
    while i < shown
        invariant
            i <= shown,
            shown <= visible,
            s + shown <= total,
            total == physical@.len(),
            visible == height - 3,
            top + height <= 0xffff,
            items_top == top + 2,
            c.content_w <= cols,
            t == theme_spec(),
            lines == phys_views(physical@),
            ops_view(ops@) == head + library_items_ops(
                lines,
                s as int,
                items_top as int,
                c.content_w as int,
                total_items as int,
                row_index as int,
                i as int,
            ),
        decreases shown - i,
    {
        let ghost before = ops_view(ops@);
        let p = &physical[s + i];
        let row: u16 = items_top + i as u16;
        let selected = p.item_idx < total_items && p.item_idx == row_index;
        let bg = if selected {
            t.highlight_bg
        } else {
            t.card_bg
        };
        if selected {
            push_op(
                &mut ops,
                DrawOp::Fill {
                    row,
                    col: 3,
                    height: 1,
                    width: c.content_w as u16,
                    ch: ' ',
                    fg: None,
                    bg: Some(bg),
                },
            );
        }
        push_op(&mut ops, text_op(row, 3, p.line.as_str(), Some(t.text), Some(bg)));
        match &p.bar {
            Some((bar, color)) => {
                push_op(
                    &mut ops,
                    text_op(row, 3 + ROW_PREFIX_W as u16, bar.as_str(), Some(*color), Some(bg)),
                );
            },
            None => {},
        }
        proof {
            assert(lines[s + i] == phys_view(physical@[s + i]));
        }
        i = i + 1;
        assert(ops_view(ops@) =~~= head + library_items_ops(
            lines,
            s as int,
            items_top as int,
            c.content_w as int,
            total_items as int,
            row_index as int,
            i as int,
        ));
    }
    push_scrollbar(&mut ops, cols, top, height, visible, total, s, t.card_accent_library);
    push_edge_ops(&mut ops, cols, top + height - 1);
    assert(ops_view(ops@) =~~= library_card_ops_spec(
        cols,
        top,
        height,
        *c,
        lines,
        total_items as int,
        row_index as int,
        scroll as int,
    ));
    paint(frame, &ops);
    let mut rows: Vec<usize> = Vec::new();
    let mut k: usize = 0;
    while k < physical.len()
        invariant
            k <= physical@.len(),
            rows@ == phys_views(physical@).map_values(|p: PhysView| p.0 as usize).take(k as int),
        decreases physical.len() - k,
    {
        rows.push(physical[k].item_idx);
        k = k + 1;
        assert(rows@ =~= phys_views(physical@).map_values(|p: PhysView| p.0 as usize).take(
            k as int,
        ));
    }
    assert(rows@ =~= phys_views(physical@).map_values(|p: PhysView| p.0 as usize));
    LibraryCardOutcome {
        scroll: s,
        map: Some(LibraryMap { top: items_top, rows }),
        region: Some((top, height)),
    }
}

// ---------------------------------------------------------------------------
// History card
// ---------------------------------------------------------------------------
/// Width of the name column of the history grid for a content area
/// `content_w` wide.
pub open spec fn history_name_w(content_w: int) -> int {
    sub_nat(content_w, HISTORY_DATE_W + 1 + HISTORY_SIZE_W)
}

/// `text` is the line of `item` in a history grid whose name column is
/// `name_w` wide, truncated to `content_w`, for some date text.
pub open spec fn history_text_of(text: Seq<char>, item: CompletedItem, name_w: nat, content_w: nat) -> bool {
    exists|date: Seq<char>|
        text == truncate_spec(
            #[trigger] completed_row_spec(
                date,
                item.name@,
                crate::downloads::binary_size_text(item.size),
                name_w,
            ),
            content_w,
        )
}

/// The lines of the history grid for `items`, each truncated to the content
/// width of a terminal `cols` wide; the date column reads the local time.
pub fn history_row_texts(items: &Vec<CompletedItem>, cols: u16) -> (texts: Vec<String>)
    ensures
        texts@.len() == items@.len(),
        forall|i: int|
            0 <= i < items@.len() ==> history_text_of(
                (#[trigger] texts@[i])@,
                items@[i],
                history_name_w(sub_nat(cols as int, 4)) as nat,
                sub_nat(cols as int, 4) as nat,
            ),
{
    let content_w: usize = (cols as usize).saturating_sub(4);
    let name_w = content_w.saturating_sub(HISTORY_DATE_W + 1 + HISTORY_SIZE_W);
    let mut texts: Vec<String> = Vec::new();
    let mut i: usize = 0;
    while i < items.len()
        invariant
            i <= items@.len(),
            texts@.len() == i,
            content_w == sub_nat(cols as int, 4),
            name_w == history_name_w(content_w as int),
            forall|j: int|
                0 <= j < i ==> history_text_of(
                    (#[trigger] texts@[j])@,
                    items@[j],
                    name_w as nat,
                    content_w as nat,
                ),
        decreases items.len() - i,
    {
        let row = format_completed_row(&items[i], name_w);
        let text = truncate(row.as_str(), content_w);
        let ghost before = texts@;
        let ghost d = choose|date: Seq<char>|
            row@ == completed_row_spec(
                date,
                items@[i as int].name@,
                crate::downloads::binary_size_text(items@[i as int].size),
                name_w as nat,
            );
        texts.push(text);
        proof {
            assert(texts@[i as int]@ == truncate_spec(
                completed_row_spec(
                    d,
                    items@[i as int].name@,
                    crate::downloads::binary_size_text(items@[i as int].size),
                    name_w as nat,
                ),
                content_w as nat,
            ));
            assert(history_text_of(texts@[i as int]@, items@[i as int], name_w as nat, content_w as nat));
            assert forall|j: int| 0 <= j < i + 1 implies history_text_of(
                (#[trigger] texts@[j])@,
                items@[j],
                name_w as nat,
                content_w as nat,
            ) by {
                if j < i {
                    assert(texts@[j] == before[j]);
                }
            }
        }
        i = i + 1;
    }
    texts
}

/// Operations of the visible history lines `scroll..scroll + k`.
pub open spec fn history_items_ops(texts: Seq<Seq<char>>, scroll: int, items_top: int, k: int) -> Seq<
    OpSpec,
>
    decreases k,
{
    if k <= 0 {
        Seq::empty()
    } else {
        history_items_ops(texts, scroll, items_top, k - 1).push(
            OpSpec::Text {
                row: (items_top + k - 1) as u16,
                col: 3,
                text: texts[scroll + k - 1],
                fg: Some(theme_spec().text),
                bg: Some(theme_spec().card_bg),
            },
        )
    }
}

/// The operations of the history card: background and orange accent,
/// title, grid header, the visible lines from the clamped scroll offset on
/// (or a notice when there is none), the scrollbar and the lower edge.
pub open spec fn history_card_ops_spec(
    cols: u16,
    top: u16,
    height: u16,
    texts: Seq<Seq<char>>,
    scroll: int,
) -> Seq<OpSpec> {
    let visible = rows_for_items(height as int);
    let s = clamp_scroll(scroll, texts.len() as int, visible);
    let shown = min_of(visible, texts.len() - s);
    let name_w = history_name_w(sub_nat(cols as int, 4));
    card_background_ops(cols, top, height, theme_spec().card_accent_alt) + seq![
        OpSpec::Text {
            row: top,
            col: 3,
            text: "Histórico de downloads"@,
            fg: Some(theme_spec().text),
            bg: Some(theme_spec().card_bg),
        },
        OpSpec::Text {
            row: (top + 1) as u16,
            col: 3,
            text: history_header_spec(name_w as nat),
            fg: Some(theme_spec().muted),
            bg: Some(theme_spec().card_bg),
        },
    ] + (if texts.len() == 0 {
        seq![
            OpSpec::Text {
                row: (top + 2) as u16,
                col: 3,
                text: "nenhum download completo"@,
                fg: Some(theme_spec().muted),
                bg: Some(theme_spec().card_bg),
            },
        ]
    } else {
        history_items_ops(texts, s, top + 2, shown)
    }) + scrollbar_ops(cols, top, height, visible, texts.len() as int, s, theme_spec().card_accent_alt)
        + edge_row_ops_spec(cols as int, (top + height - 1) as u16)
}

/// What drawing the history card leaves: clamped scroll and region.
#[derive(Clone, Copy, Debug)]
pub struct HistoryCardOutcome {
    pub scroll: usize,
    pub region: Option<(u16, u16)>,
}

/// Draws the history card with the lines `texts` (see
/// `history_row_texts`); a card under 4 lines is not drawn.
pub fn render_history_card(
    frame: &mut Frame,
    cols: u16,
    top: u16,
    height: u16,
    texts: &Vec<String>,
    scroll: usize,
) -> (out: HistoryCardOutcome)
    requires
        old(frame).wf(),
        top + height <= 0xffff,
    ensures
        height < 4 ==> *final(frame) == *old(frame) && out.scroll == scroll && out.region is None,
        height >= 4 ==> {
            &&& paints(
                *old(frame),
                *final(frame),
                history_card_ops_spec(
                    cols,
                    top,
                    height,
                    crate::wrap::strings_view(texts@),
                    scroll as int,
                ),
            )
            &&& out.scroll == clamp_scroll(
                scroll as int,
                texts@.len() as int,
                rows_for_items(height as int),
            )
            &&& out.region == Some((top, height))
        },
{
    if height < 4 {
        return HistoryCardOutcome { scroll, region: None };
    }
    let t = theme();
    let mut ops: Vec<DrawOp> = Vec::new();
    push_card_background(&mut ops, cols, top, height, t.card_accent_alt);
    push_op(&mut ops, text_op(top, 3, "Histórico de downloads", Some(t.text), Some(t.card_bg)));
    let content_w: usize = (cols as usize).saturating_sub(4);
    let name_w = content_w.saturating_sub(HISTORY_DATE_W + 1 + HISTORY_SIZE_W);
    let header = history_header(name_w);
    push_op(
        &mut ops,
        DrawOp::Text { row: top + 1, col: 3, text: header, fg: Some(t.muted), bg: Some(t.card_bg) },
    );
    let ghost view = crate::wrap::strings_view(texts@);
    let ghost head = ops_view(ops@);
    let visible: usize = (height - 3) as usize;
    let total = texts.len();
    let max_scroll = total.saturating_sub(visible);
    let s = if scroll < max_scroll {
        scroll
    } else {
        max_scroll
    };
    let shown: usize = if visible < total - s {
        visible
    } else {
        total - s
    };
    let items_top: u16 = top + 2;
    if total == 0 {
        push_op(
            &mut ops,
            text_op(items_top, 3, "nenhum download completo", Some(t.muted), Some(t.card_bg)),
        );
    } else {
        let mut i: usize = 0;
        while i < shown
            invariant
                i <= shown,
                shown <= visible,
                s + shown <= total,
                total == texts@.len(),
                visible == height - 3,
                top + height <= 0xffff,
                items_top == top + 2,
                t == theme_spec(),
                view == crate::wrap::strings_view(texts@),
                ops_view(ops@) == head + history_items_ops(view, s as int, items_top as int, i as int),
            decreases shown - i,
        {
            push_op(
                &mut ops,
                text_op(items_top + i as u16, 3, texts[s + i].as_str(), Some(t.text), Some(t.card_bg)),
            );
            assert(view[s + i] == texts@[s + i]@);
            i = i + 1;
            assert(ops_view(ops@) =~~= head + history_items_ops(
                view,
                s as int,
                items_top as int,
                i as int,
            ));
        }
    }
    push_scrollbar(&mut ops, cols, top, height, visible, total, s, t.card_accent_alt);
    push_edge_ops(&mut ops, cols, top + height - 1);
    assert(ops_view(ops@) =~~= history_card_ops_spec(cols, top, height, view, scroll as int));
    paint(frame, &ops);
    HistoryCardOutcome { scroll: s, region: Some((top, height)) }
}

} // verus!
