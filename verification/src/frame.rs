//! Screen buffer of the interactive UI: a grid of cells (character plus
//! optional foreground/background colours) that the renderers draw into, and
//! the difference between two frames as the runs of changed cells that must
//! be rewritten on the terminal.
use vstd::prelude::*;

use crate::text::{chars_of, push_repeat, repeat_spec, string_of};

verus! {

/// Terminal colours (the palette of the terminal backend).
#[derive(Clone, Copy, PartialEq, Eq, Debug, Structural)]
pub enum Color {
    Reset,
    Black,
    DarkGrey,
    Red,
    DarkRed,
    Green,
    DarkGreen,
    Yellow,
    DarkYellow,
    Blue,
    DarkBlue,
    Magenta,
    DarkMagenta,
    Cyan,
    DarkCyan,
    White,
    Grey,
    Rgb { r: u8, g: u8, b: u8 },
    AnsiValue(u8),
}

/// One cell of the screen buffer: a character and optional colours (`None`
/// is the terminal's default colour).
#[derive(Clone, Copy, PartialEq, Eq, Debug, Structural)]
pub struct Cell {
    pub ch: char,
    pub fg: Option<Color>,
    pub bg: Option<Color>,
}

pub open spec fn blank_cell() -> Cell {
    Cell { ch: ' ', fg: None, bg: None }
}

impl Cell {
    /// A space with default colours.
    pub fn blank() -> (c: Cell)
        ensures
            c == blank_cell(),
    {
        Cell { ch: ' ', fg: None, bg: None }
    }

    /// The character of the cell.
    pub fn ch(&self) -> (c: char)
        ensures
            c == self.ch,
    {
        self.ch
    }

    /// The foreground colour of the cell.
    pub fn fg(&self) -> (c: Option<Color>)
        ensures
            c == self.fg,
    {
        self.fg
    }
}

/// `r * w + c` addresses one cell only.
proof fn lemma_cell_index(r1: int, c1: int, r2: int, c2: int, w: int)
    requires
        0 <= c1 < w,
        0 <= c2 < w,
        0 <= r1,
        0 <= r2,
        r1 * w + c1 == r2 * w + c2,
    ensures
        r1 == r2,
        c1 == c2,
{
    if r1 < r2 {
        assert(r1 * w + w <= r2 * w) by (nonlinear_arith)
            requires
                r1 < r2,
                0 < w,
        ;
    } else if r2 < r1 {
        assert(r2 * w + w <= r1 * w) by (nonlinear_arith)
            requires
                r2 < r1,
                0 < w,
        ;
    }
}

/// `r * w + c` lies inside a grid of `h` rows of `w` cells.
proof fn lemma_cell_in_grid(r: int, c: int, w: int, h: int)
    requires
        0 <= r < h,
        0 <= c < w,
    ensures
        0 <= r * w + c < h * w,
        r * w + c < w * h,
        0 <= r * w,
{
    assert(h * w == w * h) by (nonlinear_arith);
    assert(r * w + c < h * w) by (nonlinear_arith)
        requires
            0 <= r < h,
            0 <= c < w,
    ;
    assert(0 <= r * w) by (nonlinear_arith)
        requires
            0 <= r,
            0 <= c < w,
    ;
}

/// The screen buffer: `rows` lines of `cols` cells, and the position the
/// terminal cursor should take (`None`: hidden).
pub struct Frame {
    grid: Vec<Cell>,
    cols: u16,
    rows: u16,
    cursor: Option<(u16, u16)>,
}

impl Frame {
    /// The grid holds exactly `cols * rows` cells.
    pub closed spec fn wf(&self) -> bool {
        self.grid@.len() == self.cols as int * self.rows as int
    }

    /// Number of columns.
    pub closed spec fn width(&self) -> nat {
        self.cols as nat
    }

    /// Number of rows.
    pub closed spec fn height(&self) -> nat {
        self.rows as nat
    }

    /// Requested cursor position.
    pub closed spec fn cursor_spec(&self) -> Option<(u16, u16)> {
        self.cursor
    }

    /// The cell at `(r, c)`; a blank cell outside the grid.
    pub closed spec fn at(&self, r: int, c: int) -> Cell {
        if 0 <= r < self.rows && 0 <= c < self.cols {
            self.grid@[r * self.cols + c]
        } else {
            blank_cell()
        }
    }

    /// A blank frame of `cols` by `rows` cells with a hidden cursor.
    pub fn new(cols: u16, rows: u16) -> (f: Frame)
        ensures
            f.wf(),
            f.width() == cols,
            f.height() == rows,
            f.cursor_spec() is None,
            forall|r: int, c: int| #[trigger] f.at(r, c) == blank_cell(),
    {
        proof {
            assert(cols as int * rows as int <= 0xffff * 0xffff) by (nonlinear_arith)
                requires
                    cols <= 0xffff,
                    rows <= 0xffff,
            ;
        }
        let n = cols as usize * rows as usize;
        let mut grid: Vec<Cell> = Vec::new();
        let mut i: usize = 0;
        while i < n
            invariant
                i <= n,
                grid@.len() == i,
                forall|k: int| 0 <= k < i ==> grid@[k] == blank_cell(),
            decreases n - i,
        {
            grid.push(Cell::blank());
            i = i + 1;
        }
        let f = Frame { grid, cols, rows, cursor: None };
        assert forall|r: int, c: int| #[trigger] f.at(r, c) == blank_cell() by {
            if 0 <= r < rows && 0 <= c < cols {
                lemma_cell_in_grid(r, c, cols as int, rows as int);
            }
        }
        f
    }

    /// Number of columns.
    pub fn cols(&self) -> (n: u16)
        ensures
            n == self.width(),
    {
        self.cols
    }

    /// Number of rows.
    pub fn rows(&self) -> (n: u16)
        ensures
            n == self.height(),
    {
        self.rows
    }

    /// Requested cursor position (`None`: hidden).
    pub fn cursor(&self) -> (c: Option<(u16, u16)>)
        ensures
            c == self.cursor_spec(),
    {
        self.cursor
    }

    /// The cell at `(row, col)`; a blank cell outside the grid.
    pub fn cell(&self, row: u16, col: u16) -> (c: Cell)
        requires
            self.wf(),
        ensures
            c == self.at(row as int, col as int),
    {
        if row >= self.rows || col >= self.cols {
            return Cell::blank();
        }
        let n = self.grid.len();
        proof {
            lemma_cell_in_grid(row as int, col as int, self.cols as int, self.rows as int);
        }
        self.grid[row as usize * self.cols as usize + col as usize]
    }

    /// Overwrites the cell at `(row, col)`, which lies in the grid.
    fn set_cell(&mut self, row: u16, col: u16, cell: Cell)
        requires
            row < old(self).height(),
            col < old(self).width(),
            old(self).wf(),
        ensures
            final(self).wf(),
            final(self).width() == old(self).width(),
            final(self).height() == old(self).height(),
            final(self).cursor_spec() == old(self).cursor_spec(),
            forall|r: int, c: int| #[trigger]
                final(self).at(r, c) == if r == row && c == col {
                    cell
                } else {
                    old(self).at(r, c)
                },
    {
        let n = self.grid.len();
        proof {
            lemma_cell_in_grid(row as int, col as int, self.cols as int, self.rows as int);
        }
        let idx = row as usize * self.cols as usize + col as usize;
        self.grid.set(idx, cell);
        proof {
            assert forall|r: int, c: int| #[trigger]
                self.at(r, c) == if r == row && c == col {
                    cell
                } else {
                    old(self).at(r, c)
                } by {
                if 0 <= r < self.rows && 0 <= c < self.cols {
                    lemma_cell_in_grid(r, c, self.cols as int, self.rows as int);
                    if r * self.cols + c == idx {
                        lemma_cell_index(r, c, row as int, col as int, self.cols as int);
                    }
                }
            }
        }
    }

    /// Writes `text` from `(row, col)` on with the given colours; the
    /// characters that fall outside the grid are dropped.
    pub fn put_styled(&mut self, row: u16, col: u16, text: &str, fg: Option<Color>, bg: Option<Color>)
        requires
            old(self).wf(),
        ensures
            final(self).wf(),
            final(self).width() == old(self).width(),
            final(self).height() == old(self).height(),
            final(self).cursor_spec() == old(self).cursor_spec(),
            forall|r: int, c: int| #[trigger]
                final(self).at(r, c) == if r == row && col <= c < col + text@.len() && r
                    < old(self).height() && c < old(self).width() {
                    Cell { ch: text@[c - col], fg, bg }
                } else {
                    old(self).at(r, c)
                },
    {
        let chars = chars_of(text);
        if row >= self.rows || col >= self.cols {
            return ;
        }
        let avail: usize = (self.cols - col) as usize;
        let mut i: usize = 0;
        while i < chars.len() && i < avail
            invariant
                i <= chars.len(),
                i <= avail,
                avail == old(self).width() - col,
                row < old(self).height(),
                chars@ == text@,
                self.wf(),
                self.width() == old(self).width(),
                self.height() == old(self).height(),
                self.cursor_spec() == old(self).cursor_spec(),
                forall|r: int, c: int| #[trigger]
                    self.at(r, c) == if r == row && col <= c < col + i {
                        Cell { ch: text@[c - col], fg, bg }
                    } else {
                        old(self).at(r, c)
                    },
            decreases chars.len() - i,
        {
            let c = col + i as u16;
            self.set_cell(row, c, Cell { ch: chars[i], fg, bg });
            i = i + 1;
        }
    }

    /// Writes `text` from `(row, col)` on with a foreground colour only.
    pub fn put_colored(&mut self, row: u16, col: u16, text: &str, fg: Option<Color>)
        requires
            old(self).wf(),
        ensures
            final(self).wf(),
            final(self).width() == old(self).width(),
            final(self).height() == old(self).height(),
            final(self).cursor_spec() == old(self).cursor_spec(),
            forall|r: int, c: int| #[trigger]
                final(self).at(r, c) == if r == row && col <= c < col + text@.len() && r
                    < old(self).height() && c < old(self).width() {
                    Cell { ch: text@[c - col], fg, bg: None }
                } else {
                    old(self).at(r, c)
                },
    {
        self.put_styled(row, col, text, fg, None);
    }

    /// Writes `text` from `(row, col)` on, cyan when `cyan` holds.
    pub fn put(&mut self, row: u16, col: u16, text: &str, cyan: bool)
        requires
            old(self).wf(),
        ensures
            final(self).wf(),
            final(self).width() == old(self).width(),
            final(self).height() == old(self).height(),
            final(self).cursor_spec() == old(self).cursor_spec(),
            forall|r: int, c: int| #[trigger]
                final(self).at(r, c) == if r == row && col <= c < col + text@.len() && r
                    < old(self).height() && c < old(self).width() {
                    Cell {
                        ch: text@[c - col],
                        fg: if cyan {
                            Some(Color::Cyan)
                        } else {
                            None
                        },
                        bg: None,
                    }
                } else {
                    old(self).at(r, c)
                },
    {
        let fg = if cyan {
            Some(Color::Cyan)
        } else {
            None
        };
        self.put_styled(row, col, text, fg, None);
    }

    /// Fills `width` cells of line `row` from column `col` on (clipped to the
    /// grid) with `ch` and the given colours.
    pub fn fill(&mut self, row: u16, col: u16, width: u16, ch: char, fg: Option<Color>, bg: Option<Color>)
        requires
            old(self).wf(),
        ensures
            final(self).wf(),
            final(self).width() == old(self).width(),
            final(self).height() == old(self).height(),
            final(self).cursor_spec() == old(self).cursor_spec(),
            forall|r: int, c: int| #[trigger]
                final(self).at(r, c) == if r == row && col <= c < col + width && r
                    < old(self).height() && c < old(self).width() {
                    Cell { ch, fg, bg }
                } else {
                    old(self).at(r, c)
                },
    {
        if row >= self.rows {
            return ;
        }
        let end: usize = if (col as usize + width as usize) < self.cols as usize {
            col as usize + width as usize
        } else {
            self.cols as usize
        };
        let mut i: usize = col as usize;
        while i < end
            invariant
                col <= i,
                i <= end || i == col,
                end <= old(self).width(),
                end == col + width || end == old(self).width(),
                end <= col + width,
                row < old(self).height(),
                self.wf(),
                self.width() == old(self).width(),
                self.height() == old(self).height(),
                self.cursor_spec() == old(self).cursor_spec(),
                forall|r: int, c: int| #[trigger]
                    self.at(r, c) == if r == row && col <= c < i {
                        Cell { ch, fg, bg }
                    } else {
                        old(self).at(r, c)
                    },
            decreases end - i,
        {
            self.set_cell(row, i as u16, Cell { ch, fg, bg });
            i = i + 1;
        }
    }

    /// Fills the rectangle of `height` lines by `width` columns whose top
    /// left corner is `(row, col)` (clipped to the grid).
    pub fn fill_rect(
        &mut self,
        row: u16,
        col: u16,
        height: u16,
        width: u16,
        ch: char,
        fg: Option<Color>,
        bg: Option<Color>,
    )
        requires
            old(self).wf(),
        ensures
            final(self).wf(),
            final(self).width() == old(self).width(),
            final(self).height() == old(self).height(),
            final(self).cursor_spec() == old(self).cursor_spec(),
            forall|r: int, c: int| #[trigger]
                final(self).at(r, c) == if row <= r < row + height && col <= c < col + width && r
                    < old(self).height() && c < old(self).width() {
                    Cell { ch, fg, bg }
                } else {
                    old(self).at(r, c)
                },
    {
        let end: u16 = row.saturating_add(height);
        let mut r: u16 = row;
        while r < end
            invariant
                row <= r,
                r <= end || r == row,
                end == if row + height > 0xffff {
                    0xffff
                } else {
                    row + height
                },
                self.wf(),
                self.width() == old(self).width(),
                self.height() == old(self).height(),
                self.cursor_spec() == old(self).cursor_spec(),
                forall|rr: int, c: int| #[trigger]
                    self.at(rr, c) == if row <= rr < r && col <= c < col + width && rr
                        < old(self).height() && c < old(self).width() {
                        Cell { ch, fg, bg }
                    } else {
                        old(self).at(rr, c)
                    },
            decreases end - r,
        {
            self.fill(r, col, width, ch, fg, bg);
            r = r + 1;
        }
    }

    /// Requests the terminal cursor at `(row, col)`.
    pub fn set_cursor(&mut self, row: u16, col: u16)
        requires
            old(self).wf(),
        ensures
            final(self).wf(),
            final(self).width() == old(self).width(),
            final(self).height() == old(self).height(),
            final(self).cursor_spec() == Some((row, col)),
            forall|r: int, c: int| #[trigger] final(self).at(r, c) == old(self).at(r, c),
    {
        self.cursor = Some((row, col));
    }
}


/// The cells of the frame, line after line.
impl Frame {
    pub closed spec fn cells(&self) -> Seq<Cell> {
        self.grid@
    }
}

/// Number of positions among the first `n` whose cells differ in `a` and `b`.
pub open spec fn count_changed(a: Seq<Cell>, b: Seq<Cell>, n: nat) -> nat
    decreases n,
{
    if n == 0 {
        0
    } else {
        count_changed(a, b, (n - 1) as nat) + (if a[n - 1] != b[n - 1] {
            1nat
        } else {
            0nat
        })
    }
}

/// The common length of two sequences.
pub open spec fn common_len(a: Seq<Cell>, b: Seq<Cell>) -> nat {
    if a.len() < b.len() {
        a.len()
    } else {
        b.len()
    }
}

/// A run of changed cells on one line that share their colours: written
/// to the terminal with one cursor move and one print.
#[derive(Debug)]
pub struct Run {
    pub row: u16,
    pub start: u16,
    pub text: String,
    pub fg: Option<Color>,
    pub bg: Option<Color>,
}

/// The cell at `(r, c)` changed from `prev` to `cur`.
pub open spec fn changed(cur: Frame, prev: Frame, r: int, c: int) -> bool {
    cur.at(r, c) != prev.at(r, c)
}

/// Column just after the run.
pub open spec fn run_end(run: Run) -> int {
    run.start + run.text@.len()
}

/// `run` is a maximal run of changed cells of `cur` with uniform colours.
pub open spec fn run_ok(cur: Frame, prev: Frame, run: Run) -> bool {
    &&& run.text@.len() >= 1
    &&& run.row < cur.height()
    &&& run_end(run) <= cur.width()
    &&& forall|k: int|
        0 <= k < run.text@.len() ==> changed(cur, prev, run.row as int, run.start + k) && #[trigger]
            cur.at(run.row as int, run.start + k) == (Cell {
                ch: run.text@[k],
                fg: run.fg,
                bg: run.bg,
            })
    &&& run_end(run) < cur.width() ==> (!changed(cur, prev, run.row as int, run_end(run))
        || cur.at(run.row as int, run_end(run)).fg != run.fg || cur.at(
        run.row as int,
        run_end(run),
    ).bg != run.bg)
}

/// Run `a` lies before run `b` on the screen, without overlap.
pub open spec fn run_before(a: Run, b: Run) -> bool {
    a.row < b.row || (a.row == b.row && run_end(a) <= b.start)
}

/// Cell `(r, c)` belongs to one of `runs`.
pub open spec fn covered(runs: Seq<Run>, r: int, c: int) -> bool {
    exists|i: int|
        0 <= i < runs.len() && runs[i].row == r && runs[i].start <= c < run_end(
            #[trigger] runs[i],
        )
}

/// `runs` are exactly the maximal uniform runs of the cells of `cur` that
/// differ from `prev`, in screen order.
pub open spec fn describes_diff(cur: Frame, prev: Frame, runs: Seq<Run>) -> bool {
    &&& forall|i: int| 0 <= i < runs.len() ==> run_ok(cur, prev, #[trigger] runs[i])
    &&& forall|i: int, j: int| 0 <= i < j < runs.len() ==> run_before(runs[i], runs[j])
    &&& forall|r: int, c: int|
        0 <= r < cur.height() && 0 <= c < cur.width() && changed(cur, prev, r, c) ==> covered(
            runs,
            r,
            c,
        )
}

impl Frame {
    /// Number of cells that differ from `prev` (over the common length).
    pub fn diff_count(&self, prev: &Frame) -> (n: usize)
        ensures
            n == count_changed(self.cells(), prev.cells(), common_len(self.cells(), prev.cells())),
    {
        let m: usize = if self.grid.len() < prev.grid.len() {
            self.grid.len()
        } else {
            prev.grid.len()
        };
        let mut n: usize = 0;
        let mut i: usize = 0;
        while i < m
            invariant
                i <= m,
                m == common_len(self.grid@, prev.grid@),
                n <= i,
                n == count_changed(self.grid@, prev.grid@, i as nat),
            decreases m - i,
        {
            if self.grid[i] != prev.grid[i] {
                n = n + 1;
            }
            i = i + 1;
        }
        n
    }
}

impl Frame {
    /// The runs of cells that changed from `prev`: maximal, uniformly
    /// coloured, in screen order (what the terminal must rewrite).
    pub fn diff_runs(&self, prev: &Frame) -> (runs: Vec<Run>)
        requires
            self.wf(),
            prev.wf(),
        ensures
            describes_diff(*self, *prev, runs@),
    {
        let mut runs: Vec<Run> = Vec::new();
        let mut row: u16 = 0;
        while row < self.rows
            invariant
                self.wf(),
                prev.wf(),
                row <= self.height(),
                forall|i: int| 0 <= i < runs@.len() ==> run_ok(*self, *prev, #[trigger] runs@[i]),
                forall|i: int| 0 <= i < runs@.len() ==> #[trigger] runs@[i].row < row,
                forall|i: int, j: int|
                    0 <= i < j < runs@.len() ==> run_before(runs@[i], runs@[j]),
                forall|r: int, c: int|
                    0 <= r < row && 0 <= c < self.width() && changed(*self, *prev, r, c) ==> covered(
                        runs@,
                        r,
                        c,
                    ),
            decreases self.height() - row,
        {
            let mut col: u16 = 0;
            while col < self.cols
                invariant
                    self.wf(),
                    prev.wf(),
                    row < self.height(),
                    col <= self.width(),
                    forall|i: int| 0 <= i < runs@.len() ==> run_ok(*self, *prev, #[trigger] runs@[i]),
                    forall|i: int|
                        0 <= i < runs@.len() ==> #[trigger] runs@[i].row < row || (runs@[i].row == row
                            && run_end(runs@[i]) <= col),
                    forall|i: int, j: int|
                        0 <= i < j < runs@.len() ==> run_before(runs@[i], runs@[j]),
                    forall|r: int, c: int|
                        ((0 <= r < row && 0 <= c < self.width()) || (r == row && 0 <= c < col))
                            && changed(*self, *prev, r, c) ==> covered(runs@, r, c),
                decreases self.width() - col,
            {
                let cur = self.cell(row, col);
                if cur == prev.cell(row, col) {
                    col = col + 1;
                    continue;
                }
                let start = col;
                let mut text: Vec<char> = Vec::new();
                text.push(cur.ch);
                col = col + 1;
                while col < self.cols
                    invariant
                        self.wf(),
                        prev.wf(),
                        row < self.height(),
                        start < col <= self.width(),
                        text@.len() == col - start,
                        cur == self.at(row as int, start as int),
                        forall|k: int|
                            0 <= k < text@.len() ==> changed(*self, *prev, row as int, start + k)
                                && #[trigger] self.at(row as int, start + k) == (Cell {
                                ch: text@[k],
                                fg: cur.fg,
                                bg: cur.bg,
                            }),
                    ensures
                        col < self.width() ==> (!changed(*self, *prev, row as int, col as int)
                            || self.at(row as int, col as int).fg != cur.fg || self.at(
                            row as int,
                            col as int,
                        ).bg != cur.bg),
                    decreases self.width() - col,
                {
                    let c = self.cell(row, col);
                    if c == prev.cell(row, col) || c.fg != cur.fg || c.bg != cur.bg {
                        break;
                    }
                    text.push(c.ch);
                    col = col + 1;
                }
                let run = Run { row, start, text: string_of(&text), fg: cur.fg, bg: cur.bg };
                let ghost old_runs = runs@;
                runs.push(run);
                proof {
                    assert(run_ok(*self, *prev, runs@[runs@.len() - 1]));
                    assert forall|r: int, c: int|
                        ((0 <= r < row && 0 <= c < self.width()) || (r == row && 0 <= c < col))
                            && changed(*self, *prev, r, c) implies covered(runs@, r, c) by {
                        if r == row && start <= c < col {
                            assert(runs@[runs@.len() - 1].start <= c < run_end(
                                runs@[runs@.len() - 1],
                            ));
                        } else {
                            let i = choose|i: int|
                                0 <= i < old_runs.len() && old_runs[i].row == r && old_runs[i].start
                                    <= c < run_end(#[trigger] old_runs[i]);
                            assert(runs@[i] == old_runs[i]);
                        }
                    }
                }
            }
            row = row + 1;
        }
        runs
    }
}

// ---------------------------------------------------------------------------
// Theme and boxes
// ---------------------------------------------------------------------------
/// The colour palette of the dark theme.
#[derive(Clone, Copy, Debug, PartialEq, Eq, Structural)]
pub struct Theme {
    /// Borders of boxes.
    pub border: Color,
    /// Primary text.
    pub text: Color,
    /// Accent / highlight.
    pub accent: Color,
    /// Foreground of the home prompt (readable over the footer).
    pub home_prompt_fg: Color,
    /// Success / completed downloads.
    pub success: Color,
    /// Progress gauge at 100%.
    pub progress_done: Color,
    /// Progress gauge with a low download rate.
    pub progress_low: Color,
    /// Warnings.
    pub warning: Color,
    /// Errors.
    pub error: Color,
    /// Secondary text and hints.
    pub muted: Color,
    /// Background of the selected item.
    pub highlight_bg: Color,
    /// Background of the header.
    pub header_bg: Color,
    /// Background of the footer.
    pub footer_bg: Color,
    /// Background of the floating popups.
    pub popup_bg: Color,
    /// Background of the elevated cards.
    pub card_bg: Color,
    /// Accent bar of the input card while focused.
    pub card_accent_active: Color,
    /// Accent bar of the input card while idle.
    pub card_accent_idle: Color,
    /// Accent bar of the history card.
    pub card_accent_alt: Color,
    /// Accent bar of the library card.
    pub card_accent_library: Color,
}

/// The palette of the interface.
pub open spec fn theme_spec() -> Theme {
    Theme {
        border: Color::DarkGrey,
        text: Color::White,
        accent: Color::Cyan,
        home_prompt_fg: Color::White,
        success: Color::Green,
        progress_done: Color::DarkGreen,
        progress_low: Color::Rgb { r: 255, g: 140, b: 0 },
        warning: Color::Yellow,
        error: Color::Red,
        muted: Color::DarkGrey,
        highlight_bg: Color::DarkBlue,
        header_bg: Color::Blue,
        footer_bg: Color::DarkGrey,
        popup_bg: Color::DarkGrey,
        card_bg: Color::Rgb { r: 24, g: 24, b: 27 },
        card_accent_active: Color::Rgb { r: 59, g: 130, b: 246 },
        card_accent_idle: Color::DarkGrey,
        card_accent_alt: Color::Rgb { r: 249, g: 115, b: 22 },
        card_accent_library: Color::Rgb { r: 57, g: 255, b: 20 },
    }
}

/// The palette of the interface.
pub fn theme() -> (t: Theme)
    ensures
        t == theme_spec(),
{
    Theme {
        border: Color::DarkGrey,
        text: Color::White,
        accent: Color::Cyan,
        home_prompt_fg: Color::White,
        success: Color::Green,
        progress_done: Color::DarkGreen,
        progress_low: Color::Rgb { r: 255, g: 140, b: 0 },
        warning: Color::Yellow,
        error: Color::Red,
        muted: Color::DarkGrey,
        highlight_bg: Color::DarkBlue,
        header_bg: Color::Blue,
        footer_bg: Color::DarkGrey,
        popup_bg: Color::DarkGrey,
        card_bg: Color::Rgb { r: 24, g: 24, b: 27 },
        card_accent_active: Color::Rgb { r: 59, g: 130, b: 246 },
        card_accent_idle: Color::DarkGrey,
        card_accent_alt: Color::Rgb { r: 249, g: 115, b: 22 },
        card_accent_library: Color::Rgb { r: 57, g: 255, b: 20 },
    }
}

/// Top line of a thin box `width` columns wide: `┌─…─┐`.
pub open spec fn box_top_spec(width: nat) -> Seq<char> {
    seq!['┌'] + repeat_spec('─', if width >= 2 {
        (width - 2) as nat
    } else {
        0
    }) + seq!['┐']
}

/// Bottom line of a thin box `width` columns wide: `└─…─┘`.
pub open spec fn box_bottom_spec(width: nat) -> Seq<char> {
    seq!['└'] + repeat_spec('─', if width >= 2 {
        (width - 2) as nat
    } else {
        0
    }) + seq!['┘']
}

/// Top and bottom lines of a thin-lined box `width` columns wide.
pub fn frame_top_bottom(width: u16) -> (lines: (String, String))
    ensures
        lines.0@ == box_top_spec(width as nat),
        lines.1@ == box_bottom_spec(width as nat),
{
    let inner: usize = if width >= 2 {
        (width - 2) as usize
    } else {
        0
    };
    let mut top: Vec<char> = Vec::new();
    top.push('┌');
    push_repeat(&mut top, '─', inner);
    top.push('┐');
    let mut bottom: Vec<char> = Vec::new();
    bottom.push('└');
    push_repeat(&mut bottom, '─', inner);
    bottom.push('┘');
    assert(top@ =~= box_top_spec(width as nat));
    assert(bottom@ =~= box_bottom_spec(width as nat));
    (string_of(&top), string_of(&bottom))
}

/// The text written at `(row, col)` covers cell `(r, c)` of a `w` by `h` grid.
pub open spec fn covers(row: int, col: int, text: Seq<char>, r: int, c: int, w: nat, h: nat) -> bool {
    r == row && col <= c < col + text.len() && r < h && c < w
}

/// The cell of a thin box at `(left, top)`, `width` by `height`, drawn over
/// `old` in a `w` by `h` grid.
pub open spec fn boxed_cell(
    old: Cell,
    left: int,
    top: int,
    width: nat,
    height: nat,
    r: int,
    c: int,
    w: nat,
    h: nat,
    border: Color,
) -> Cell {
    let bottom_row = top + height - 1;
    if covers(bottom_row, left, box_bottom_spec(width), r, c, w, h) {
        Cell { ch: box_bottom_spec(width)[c - left], fg: Some(border), bg: None }
    } else if top < r < bottom_row && r < h && (c == left + width - 1) && c < w {
        Cell { ch: '│', fg: Some(border), bg: None }
    } else if top < r < bottom_row && r < h && c == left && c < w {
        Cell { ch: '│', fg: Some(border), bg: None }
    } else if covers(top, left, box_top_spec(width), r, c, w, h) {
        Cell { ch: box_top_spec(width)[c - left], fg: Some(border), bg: None }
    } else {
        old
    }
}

/// Draws a thin-lined box in the border colour of the theme.
pub fn draw_box(frame: &mut Frame, left: u16, top: u16, width: u16, height: u16)
    requires
        old(frame).wf(),
        1 <= width,
        1 <= height,
        left + width <= 0xffff,
        top + height <= 0xffff,
    ensures
        final(frame).wf(),
        final(frame).width() == old(frame).width(),
        final(frame).height() == old(frame).height(),
        final(frame).cursor_spec() == old(frame).cursor_spec(),
        forall|r: int, c: int| #[trigger]
            final(frame).at(r, c) == boxed_cell(
                old(frame).at(r, c),
                left as int,
                top as int,
                width as nat,
                height as nat,
                r,
                c,
                old(frame).width(),
                old(frame).height(),
                theme_spec().border,
            ),
{
    let border = theme().border;
    let (top_line, bottom_line) = frame_top_bottom(width);
    frame.put_colored(top, left, top_line.as_str(), Some(border));
    let ghost after_top = *frame;
    let last: u16 = top + height - 1;
    let mut row: u16 = top + 1;
    while row < last
        invariant
            last == top + height - 1,
            frame.wf(),
            top + 1 <= row,
            row <= top + height - 1 || row == top + 1,
            top + height <= 0xffff,
            left + width <= 0xffff,
            1 <= width,
            frame.width() == old(frame).width(),
            frame.height() == old(frame).height(),
            frame.cursor_spec() == old(frame).cursor_spec(),
            forall|r: int, c: int| #[trigger]
                frame.at(r, c) == if top < r < row && r < old(frame).height() && (c == left + width
                    - 1) && c < old(frame).width() {
                    Cell { ch: '│', fg: Some(border), bg: None }
                } else if top < r < row && r < old(frame).height() && c == left && c < old(
                    frame,
                ).width() {
                    Cell { ch: '│', fg: Some(border), bg: None }
                } else {
                    after_top.at(r, c)
                },
        decreases top + height - 1 - row,
    {
        proof {
            reveal_strlit("│");
        }
        frame.put_colored(row, left, "│", Some(border));
        frame.put_colored(row, left + width - 1, "│", Some(border));
        row = row + 1;
    }
    frame.put_colored(last, left, bottom_line.as_str(), Some(border));
}

} // verus!
