//! Drawing as data: a renderer lists the texts and fills it draws, in order,
//! and `paint` applies them to a frame. Each renderer states exactly which
//! operations it emits; what the frame then holds follows from `painted`.
use vstd::prelude::*;

use crate::frame::{Cell, Color, Frame};

verus! {

/// One drawing operation.
#[derive(Clone, Debug)]
pub enum DrawOp {
    /// `text` from `(row, col)` on, clipped to the frame.
    Text { row: u16, col: u16, text: String, fg: Option<Color>, bg: Option<Color> },
    /// The rectangle of `height` lines by `width` columns at `(row, col)`.
    Fill {
        row: u16,
        col: u16,
        height: u16,
        width: u16,
        ch: char,
        fg: Option<Color>,
        bg: Option<Color>,
    },
    /// Places the terminal cursor.
    Cursor { row: u16, col: u16 },
}

/// A drawing operation as plain values.
pub enum OpSpec {
    Text { row: u16, col: u16, text: Seq<char>, fg: Option<Color>, bg: Option<Color> },
    Fill {
        row: u16,
        col: u16,
        height: u16,
        width: u16,
        ch: char,
        fg: Option<Color>,
        bg: Option<Color>,
    },
    Cursor { row: u16, col: u16 },
}

pub open spec fn op_view(op: DrawOp) -> OpSpec {
    match op {
        DrawOp::Text { row, col, text, fg, bg } => OpSpec::Text { row, col, text: text@, fg, bg },
        DrawOp::Fill { row, col, height, width, ch, fg, bg } => OpSpec::Fill {
            row,
            col,
            height,
            width,
            ch,
            fg,
            bg,
        },
        DrawOp::Cursor { row, col } => OpSpec::Cursor { row, col },
    }
}

pub open spec fn ops_view(v: Seq<DrawOp>) -> Seq<OpSpec> {
    v.map_values(|op: DrawOp| op_view(op))
}

/// The cell an operation leaves at `(r, c)` of a frame `w` by `h`, if it
/// touches that cell.
pub open spec fn op_cell(op: OpSpec, w: nat, h: nat, r: int, c: int) -> Option<Cell> {
    match op {
        OpSpec::Text { row, col, text, fg, bg } => if r == row && col <= c < col + text.len() && r
            < h && c < w {
            Some(Cell { ch: text[c - col], fg, bg })
        } else {
            None
        },
        OpSpec::Fill { row, col, height, width, ch, fg, bg } => if row <= r < row + height && col
            <= c < col + width && r < h && c < w {
            Some(Cell { ch, fg, bg })
        } else {
            None
        },
        OpSpec::Cursor { .. } => None,
    }
}

/// The cell at `(r, c)` of `f` after the operations `ops`, in order.
pub open spec fn painted(f: Frame, ops: Seq<OpSpec>, r: int, c: int) -> Cell
    decreases ops.len(),
{
    if ops.len() == 0 {
        f.at(r, c)
    } else {
        match op_cell(ops.last(), f.width(), f.height(), r, c) {
            Some(cell) => cell,
            None => painted(f, ops.drop_last(), r, c),
        }
    }
}

/// The cursor of `f` after the operations `ops`: the last one placed.
pub open spec fn painted_cursor(f: Frame, ops: Seq<OpSpec>) -> Option<(u16, u16)>
    decreases ops.len(),
{
    if ops.len() == 0 {
        f.cursor_spec()
    } else {
        match ops.last() {
            OpSpec::Cursor { row, col } => Some((row, col)),
            _ => painted_cursor(f, ops.drop_last()),
        }
    }
}

/// `g` is `f` after the operations `ops`.
pub open spec fn paints(f: Frame, g: Frame, ops: Seq<OpSpec>) -> bool {
    &&& g.wf()
    &&& g.width() == f.width()
    &&& g.height() == f.height()
    &&& g.cursor_spec() == painted_cursor(f, ops)
    &&& forall|r: int, c: int| #[trigger] g.at(r, c) == painted(f, ops, r, c)
}

/// Applies the operations to the frame, in order.
pub fn paint(frame: &mut Frame, ops: &Vec<DrawOp>)
    requires
        old(frame).wf(),
    ensures
        paints(*old(frame), *final(frame), ops_view(ops@)),
{
    let ghost f0 = *frame;
    let mut i: usize = 0;
    while i < ops.len()
        invariant
            i <= ops.len(),
            f0.wf(),
            paints(f0, *frame, ops_view(ops@).take(i as int)),
        decreases ops.len() - i,
    {
        let ghost before = *frame;
        proof {
            let t = ops_view(ops@).take(i + 1);
            assert(t.drop_last() =~= ops_view(ops@).take(i as int));
            assert(t.last() == op_view(ops@[i as int]));
        }
        match &ops[i] {
            DrawOp::Text { row, col, text, fg, bg } => {
                frame.put_styled(*row, *col, text.as_str(), *fg, *bg);
            },
            DrawOp::Fill { row, col, height, width, ch, fg, bg } => {
                frame.fill_rect(*row, *col, *height, *width, *ch, *fg, *bg);
            },
            DrawOp::Cursor { row, col } => {
                frame.set_cursor(*row, *col);
            },
        }
        proof {
            let t = ops_view(ops@).take(i + 1);
            assert forall|r: int, c: int| #[trigger] frame.at(r, c) == painted(f0, t, r, c) by {
                assert(frame.at(r, c) == match op_cell(t.last(), f0.width(), f0.height(), r, c) {
                    Some(cell) => cell,
                    None => before.at(r, c),
                });
            }
        }
        i = i + 1;
    }
    assert(ops_view(ops@).take(ops.len() as int) =~= ops_view(ops@));
}

/// A text operation.
pub fn text_op(row: u16, col: u16, text: &str, fg: Option<Color>, bg: Option<Color>) -> (op: DrawOp)
    ensures
        op_view(op) == (OpSpec::Text { row, col, text: text@, fg, bg }),
{
    DrawOp::Text { row, col, text: crate::ui::string_lit(text), fg, bg }
}

/// Appends an operation.
pub fn push_op(ops: &mut Vec<DrawOp>, op: DrawOp)
    ensures
        ops_view(final(ops)@) == ops_view(old(ops)@).push(op_view(op)),
{
    ops.push(op);
    assert(ops_view(ops@) =~= ops_view(old(ops)@).push(op_view(op)));
}

} // verus!
