//! The library of the interactive UI: the torrents of the session and the
//! sources still being added, their order on screen, the column layout of
//! the library card and the physical lines (names wrapped) it shows.
use vstd::prelude::*;

use crate::frame::{theme, theme_spec, Color};
use crate::text::{chars_of, repeat_spec, string_of, truncate, truncate_spec};
use crate::ui::{
    empty_metrics_text, metrics_columns_spec, session_table_line, session_table_line_spec,
    string_lit, METRICS_FIXED_W, NAME_W_MIN, PROGRESS_COL_W, ROW_FIXED_W, ROW_PREFIX_W, STATE_W,
    MIN_BAR_W,
};
use crate::wrap::{strings_view, wrap_text, wrap_text_spec};

verus! {

broadcast use vstd::seq_lib::group_to_multiset_ensures;

// ---------------------------------------------------------------------------
// Torrents of the session
// ---------------------------------------------------------------------------
/// State of a torrent in the session.
#[derive(Clone, Copy, PartialEq, Eq, Debug, Structural)]
pub enum TorrentState {
    Initializing,
    Live,
    Paused,
    Error,
}

/// `a` and `b` hold the same characters.
pub fn chars_equal(a: &str, b: &str) -> (r: bool)
    ensures
        r == (a@ == b@),
{
    let x = chars_of(a);
    let y = chars_of(b);
    if x.len() != y.len() {
        return false;
    }
    let mut i: usize = 0;
    while i < x.len()
        invariant
            i <= x.len(),
            x.len() == y.len(),
            x@ == a@,
            y@ == b@,
            x@.take(i as int) == y@.take(i as int),
        decreases x.len() - i,
    {
        if x[i] != y[i] {
            assert(x@[i as int] != y@[i as int]);
            return false;
        }
        i = i + 1;
        assert(x@.take(i as int) =~= x@.take(i - 1).push(x@[i - 1]));
        assert(y@.take(i as int) =~= y@.take(i - 1).push(y@[i - 1]));
    }
    assert(x@ =~= x@.take(x.len() as int));
    assert(y@ =~= y@.take(y.len() as int));
    true
}

/// The state named by its display text (`live`, `paused`, `error`); any
/// other text reads as initializing.
pub open spec fn state_from_display_spec(s: Seq<char>) -> TorrentState {
    if s == "live"@ {
        TorrentState::Live
    } else if s == "paused"@ {
        TorrentState::Paused
    } else if s == "error"@ {
        TorrentState::Error
    } else {
        TorrentState::Initializing
    }
}

/// The state named by its display text, as the daemon reports it.
pub fn state_from_display(s: &str) -> (st: TorrentState)
    ensures
        st == state_from_display_spec(s@),
{
    if chars_equal(s, "live") {
        TorrentState::Live
    } else if chars_equal(s, "paused") {
        TorrentState::Paused
    } else if chars_equal(s, "error") {
        TorrentState::Error
    } else {
        TorrentState::Initializing
    }
}

/// Text of the status column.
pub open spec fn state_label_spec(state: TorrentState, finished: bool) -> Seq<char> {
    if finished {
        "concluído"@
    } else {
        match state {
            TorrentState::Live => "em andamento"@,
            TorrentState::Paused => "pausado"@,
            TorrentState::Error => "erro"@,
            TorrentState::Initializing => "inicializando"@,
        }
    }
}

/// Text of the status column: `concluído` once finished, else the state.
pub fn state_label(state: TorrentState, finished: bool) -> (s: &'static str)
    ensures
        s@ == state_label_spec(state, finished),
{
    if finished {
        "concluído"
    } else {
        match state {
            TorrentState::Live => "em andamento",
            TorrentState::Paused => "pausado",
            TorrentState::Error => "erro",
            TorrentState::Initializing => "inicializando",
        }
    }
}

/// A torrent of the session as the library shows it.
#[derive(Clone, Debug)]
pub struct SessionRow {
    pub id: usize,
    pub name: String,
    pub state: TorrentState,
    pub progress_bytes: u64,
    pub total_bytes: u64,
    pub finished: bool,
    /// Estimated remaining seconds, when known.
    pub eta_seconds: Option<u64>,
    /// Bytes uploaded in the session.
    pub uploaded_bytes: u64,
}

/// A torrent being downloaded: live and not finished.
pub open spec fn processing_spec(row: SessionRow) -> bool {
    !row.finished && row.state == TorrentState::Live
}

/// Whether the row is a torrent being downloaded (live, not finished).
pub fn is_processing_row(row: &SessionRow) -> (b: bool)
    ensures
        b == processing_spec(*row),
{
    !row.finished && row.state == TorrentState::Live
}

/// `a` may stand before `b` in the library: downloads first, then the most
/// recently added (highest id) first.
pub open spec fn row_before(a: SessionRow, b: SessionRow) -> bool {
    (processing_spec(a) && !processing_spec(b)) || (processing_spec(a) == processing_spec(b)
        && a.id >= b.id)
}

/// Whether `a` may stand before `b` in the library.
pub fn goes_before(a: &SessionRow, b: &SessionRow) -> (r: bool)
    ensures
        r == row_before(*a, *b),
{
    let pa = is_processing_row(a);
    let pb = is_processing_row(b);
    (pa && !pb) || (pa == pb && a.id >= b.id)
}

/// Rows in library order.
pub open spec fn grid_sorted(s: Seq<SessionRow>) -> bool {
    forall|i: int, j: int| 0 <= i < j < s.len() ==> row_before(#[trigger] s[i], #[trigger] s[j])
}

/// `a` has the rank of `r`: both being downloaded or not, and the same id.
pub open spec fn same_rank(a: SessionRow, r: SessionRow) -> bool {
    processing_spec(a) == processing_spec(r) && a.id == r.id
}

/// The rows of the rank of `r`, in their order.
pub open spec fn rank_rows(s: Seq<SessionRow>, r: SessionRow) -> Seq<SessionRow>
    decreases s.len(),
{
    if s.len() == 0 {
        s
    } else {
        let rest = rank_rows(s.drop_last(), r);
        if same_rank(s.last(), r) {
            rest.push(s.last())
        } else {
            rest
        }
    }
}

proof fn lemma_rank_rows_add(a: Seq<SessionRow>, b: Seq<SessionRow>, r: SessionRow)
    ensures
        rank_rows(a + b, r) == rank_rows(a, r) + rank_rows(b, r),
    decreases b.len(),
{
    if b.len() == 0 {
        assert(a + b =~= a);
        assert(rank_rows(a, r) + rank_rows(b, r) =~= rank_rows(a, r));
    } else {
        lemma_rank_rows_add(a, b.drop_last(), r);
        assert((a + b).drop_last() =~= a + b.drop_last());
        assert((a + b).last() == b.last());
        if same_rank(b.last(), r) {
            assert(rank_rows(a, r) + rank_rows(b.drop_last(), r).push(b.last()) =~= (rank_rows(a, r)
                + rank_rows(b.drop_last(), r)).push(b.last()));
        }
    }
}

proof fn lemma_rank_rows_none(s: Seq<SessionRow>, r: SessionRow)
    requires
        forall|k: int| 0 <= k < s.len() ==> !same_rank(#[trigger] s[k], r),
    ensures
        rank_rows(s, r) == Seq::<SessionRow>::empty(),
    decreases s.len(),
{
    if s.len() > 0 {
        assert forall|k: int| 0 <= k < s.drop_last().len() implies !same_rank(#[trigger] s.drop_last()[k], r) by {
            assert(s.drop_last()[k] == s[k]);
        }
        lemma_rank_rows_none(s.drop_last(), r);
        assert(!same_rank(s[s.len() - 1], r));
    }
}

/// Orders the rows of the library: torrents being downloaded first and,
/// within each group, the most recently added (highest id) first. Rows of
/// equal rank keep their order (a stable sort).
pub fn sort_rows_for_grid(rows: &mut Vec<SessionRow>)
    ensures
        final(rows)@.to_multiset() == old(rows)@.to_multiset(),
        final(rows)@.len() == old(rows)@.len(),
        grid_sorted(final(rows)@),
        forall|r: SessionRow| #[trigger] rank_rows(final(rows)@, r) == rank_rows(old(rows)@, r),
{
    let ghost orig = rows@;
    let mut out: Vec<SessionRow> = Vec::new();
    while rows.len() > 0
        invariant
            out@.to_multiset().add(rows@.to_multiset()) == orig.to_multiset(),
            out@.len() + rows@.len() == orig.len(),
            grid_sorted(out@),
            forall|r: SessionRow| #[trigger] rank_rows(orig, r) == rank_rows(out@, r) + rank_rows(rows@, r),
        decreases rows.len(),
    {
        let ghost before_rows = rows@;
        let x = rows.remove(0);
        let mut p: usize = 0;
        while p < out.len() && goes_before(&out[p], &x)
            invariant
                p <= out.len(),
                forall|k: int| 0 <= k < p ==> row_before(#[trigger] out@[k], x),
            decreases out.len() - p,
        {
            p = p + 1;
        }
        let ghost before_out = out@;
        proof {
            if p < out.len() {
                assert(!row_before(out@[p as int], x));
                assert forall|k: int| p <= k < out.len() implies !row_before(#[trigger] out@[k], x) by {
                    if k > p {
                        assert(row_before(out@[p as int], out@[k]));
                    }
                }
            }
        }
        out.insert(p, x);
        proof {
            assert(before_rows.remove(0) == rows@);
            assert(out@ == before_out.insert(p as int, x));
            assert forall|i: int, j: int| 0 <= i < j < out@.len() implies row_before(
                #[trigger] out@[i],
                #[trigger] out@[j],
            ) by {
                if j < p {
                    assert(out@[i] == before_out[i] && out@[j] == before_out[j]);
                } else if j == p {
                    assert(out@[i] == before_out[i]);
                } else if i < p {
                    assert(out@[i] == before_out[i] && out@[j] == before_out[j - 1]);
                } else if i == p {
                    assert(out@[j] == before_out[j - 1]);
                    assert(!row_before(before_out[j - 1], x));
                } else {
                    assert(out@[i] == before_out[i - 1] && out@[j] == before_out[j - 1]);
                }
            }
            assert(before_rows.to_multiset() == rows@.to_multiset().insert(x));
            assert(out@.to_multiset() == before_out.to_multiset().insert(x));
            assert(out@.to_multiset().add(rows@.to_multiset()) =~= before_out.to_multiset().add(
                before_rows.to_multiset(),
            ));
            let tk = before_out.take(p as int);
            let sk = before_out.skip(p as int);
            assert(out@ =~= tk + seq![x] + sk);
            assert(before_out =~= tk + sk);
            assert(before_rows =~= seq![x] + rows@);
            assert forall|r: SessionRow| #[trigger] rank_rows(orig, r) == rank_rows(out@, r) + rank_rows(rows@, r) by {
                lemma_rank_rows_add(tk + seq![x], sk, r);
                lemma_rank_rows_add(tk, seq![x], r);
                lemma_rank_rows_add(tk, sk, r);
                lemma_rank_rows_add(seq![x], rows@, r);
                assert(seq![x].drop_last() =~= Seq::<SessionRow>::empty());
                if same_rank(x, r) {
                    assert forall|k: int| 0 <= k < sk.len() implies !same_rank(#[trigger] sk[k], r) by {
                        assert(sk[k] == before_out[p + k]);
                        assert(!row_before(before_out[p + k], x));
                    }
                    lemma_rank_rows_none(sk, r);
                    assert(rank_rows(out@, r) + rank_rows(rows@, r) =~= rank_rows(before_out, r) + rank_rows(before_rows, r));
                } else {
                    assert(rank_rows(Seq::<SessionRow>::empty(), r) =~= Seq::<SessionRow>::empty());
                    assert(rank_rows(seq![x], r) =~= Seq::<SessionRow>::empty());
                    assert(rank_rows(out@, r) + rank_rows(rows@, r) =~= rank_rows(before_out, r) + rank_rows(before_rows, r));
                }
            }
        }
    }
    assert forall|r: SessionRow| #[trigger] rank_rows(out@, r) == rank_rows(orig, r) by {
        assert(rows@ =~= Seq::<SessionRow>::empty());
        assert(rank_rows(out@, r) + rank_rows(rows@, r) =~= rank_rows(out@, r));
    }
    assert(rows@.to_multiset() =~= vstd::multiset::Multiset::empty());
    assert(out@.to_multiset().add(rows@.to_multiset()) =~= out@.to_multiset());
    *rows = out;
}

// ---------------------------------------------------------------------------
// Sources being added and deletion targets
// ---------------------------------------------------------------------------
/// Status of a source added in the background.
#[derive(Clone, Debug)]
pub enum PendingStatus {
    /// Being resolved and added.
    Resolving,
    /// Failed; the message is shown on its line.
    Error(String),
    /// Finished with a notice (e.g. already managed).
    Done(String),
}

/// A source added in the background, not yet in the session.
#[derive(Clone, Debug)]
pub struct PendingTorrent {
    pub source: String,
    pub status: PendingStatus,
}

/// Target of a requested deletion: a torrent of the session, or a pending
/// source (only its request is dropped).
#[derive(Clone, Debug)]
pub enum DeleteTarget {
    Torrent { id: usize, name: String },
    Pending { name: String },
}

/// Name shown in the confirmation.
pub open spec fn delete_target_name(t: DeleteTarget) -> Seq<char> {
    match t {
        DeleteTarget::Torrent { name, .. } => name@,
        DeleteTarget::Pending { name } => name@,
    }
}

impl DeleteTarget {
    /// Name shown in the confirmation.
    pub fn name(&self) -> (s: &str)
        ensures
            s@ == delete_target_name(*self),
    {
        match self {
            DeleteTarget::Torrent { name, .. } => name.as_str(),
            DeleteTarget::Pending { name } => name.as_str(),
        }
    }
}

/// Screen line of each physical line of the library card: the item shown
/// on line `top + k` is `rows[k]`.
#[derive(Clone, Debug)]
pub struct LibraryMap {
    /// Screen line of the first physical line of items.
    pub top: u16,
    /// Item (torrents, then pending sources) of each physical line.
    pub rows: Vec<usize>,
}

impl LibraryMap {
    /// The item shown on screen line `row`, if the line holds one.
    pub fn index_at(&self, row: u16) -> (r: Option<usize>)
        ensures
            r == (if row >= self.top && row - self.top < self.rows@.len() {
                Some(self.rows@[row - self.top])
            } else {
                None
            }),
    {
        if row < self.top {
            return None;
        }
        let k = (row - self.top) as usize;
        if k < self.rows.len() {
            Some(self.rows[k])
        } else {
            None
        }
    }
}

// ---------------------------------------------------------------------------
// Columns of the library card
// ---------------------------------------------------------------------------
/// Column layout of the library card for a terminal width.
#[derive(Clone, Copy, PartialEq, Eq, Debug, Structural)]
pub struct LibraryColumns {
    /// Width of the content area (accent, margin and scrollbar excluded).
    pub content_w: usize,
    /// Whether the network columns are shown.
    pub show_metrics: bool,
    /// Width of the columns before the progress bar.
    pub prefix_w: usize,
    /// Width of the progress column.
    pub bar_w: usize,
    /// Width of the name column.
    pub name_width: usize,
    /// Column where the name starts (indent of continuation lines).
    pub name_col: usize,
}

pub open spec fn sat_sub(a: int, b: int) -> int {
    if a > b {
        a - b
    } else {
        0
    }
}

pub open spec fn min_int(a: int, b: int) -> int {
    if a < b {
        a
    } else {
        b
    }
}

pub open spec fn max_int(a: int, b: int) -> int {
    if a > b {
        a
    } else {
        b
    }
}

/// The layout: the network columns only when there is room; the progress
/// column shrinks (down to `MIN_BAR_W`) before the name does.
pub open spec fn library_columns_spec(cols: int) -> LibraryColumns {
    let content_w = sat_sub(cols, 4);
    let show_metrics = content_w >= ROW_FIXED_W + METRICS_FIXED_W + 15;
    let extra = if show_metrics {
        METRICS_FIXED_W as int
    } else {
        0
    };
    let prefix_w = ROW_PREFIX_W + 1 + STATE_W + 1 + extra;
    let room = sat_sub(content_w, prefix_w);
    let bar_w = min_int(
        max_int(min_int(PROGRESS_COL_W as int, sat_sub(room, NAME_W_MIN as int)), MIN_BAR_W as int),
        max_int(room, 1),
    );
    let name_width = max_int(sat_sub(room, bar_w), 1);
    LibraryColumns {
        content_w: content_w as usize,
        show_metrics,
        prefix_w: prefix_w as usize,
        bar_w: bar_w as usize,
        name_width: name_width as usize,
        name_col: (prefix_w + bar_w) as usize,
    }
}

/// Column layout of the library card for a terminal `cols` wide.
pub fn library_columns(cols: u16) -> (c: LibraryColumns)
    ensures
        c == library_columns_spec(cols as int),
        c.name_col == c.prefix_w + c.bar_w,
        c.name_width >= 1,
        c.bar_w >= 1,
{
    let content_w: usize = (cols as usize).saturating_sub(4);
    let show_metrics = content_w >= ROW_FIXED_W + METRICS_FIXED_W + 15;
    let extra: usize = if show_metrics {
        METRICS_FIXED_W
    } else {
        0
    };
    let prefix_w: usize = ROW_PREFIX_W + 1 + STATE_W + 1 + extra;
    let room = content_w.saturating_sub(prefix_w);
    let a: usize = if PROGRESS_COL_W < room.saturating_sub(NAME_W_MIN) {
        PROGRESS_COL_W
    } else {
        room.saturating_sub(NAME_W_MIN)
    };
    let b: usize = if a > MIN_BAR_W {
        a
    } else {
        MIN_BAR_W
    };
    let room1: usize = if room > 1 {
        room
    } else {
        1
    };
    let bar_w: usize = if b < room1 {
        b
    } else {
        room1
    };
    let rest = room.saturating_sub(bar_w);
    let name_width: usize = if rest > 1 {
        rest
    } else {
        1
    };
    LibraryColumns { content_w, show_metrics, prefix_w, bar_w, name_width, name_col: prefix_w + bar_w }
}

// ---------------------------------------------------------------------------
// Physical lines of the library card
// ---------------------------------------------------------------------------
/// What the app computes for a torrent line from its live statistics: the
/// progress bar text (`bar_w` wide), its colour and the network columns.
#[derive(Clone, Debug)]
pub struct RowVisual {
    pub bar: String,
    pub color: Color,
    pub metrics: String,
}

/// A physical line of the library card: its item, its text and, on the
/// first line of an item, the coloured progress bar drawn over the text.
#[derive(Clone, Debug)]
pub struct PhysicalRow {
    pub item_idx: usize,
    pub line: String,
    pub bar: Option<(String, Color)>,
}

/// A physical line as plain values: item, text, bar text and colour.
pub type PhysView = (int, Seq<char>, Option<(Seq<char>, Color)>);

pub open spec fn phys_view(p: PhysicalRow) -> PhysView {
    (
        p.item_idx as int,
        p.line@,
        match p.bar {
            Some(b) => Some((b.0@, b.1)),
            None => None,
        },
    )
}

pub open spec fn phys_views(v: Seq<PhysicalRow>) -> Seq<PhysView> {
    v.map_values(|p: PhysicalRow| phys_view(p))
}

/// Marker of the selected entry.
pub open spec fn marker_spec(selected: bool) -> Seq<char> {
    if selected {
        "> "@
    } else {
        "  "@
    }
}

/// The lines of one entry: the table line (name truncated) with its bar,
/// then the continuation lines of the wrapped name, indented to the name
/// column.
pub open spec fn entry_lines_spec(
    idx: int,
    selected: bool,
    bar: Seq<char>,
    color: Color,
    state: Seq<char>,
    name: Seq<char>,
    metrics: Option<Seq<char>>,
    c: LibraryColumns,
) -> Seq<PhysView> {
    let base = session_table_line_spec(
        marker_spec(selected),
        idx as nat,
        bar,
        state,
        name,
        c.name_width as nat,
        metrics,
    );
    seq![(idx, base, Some((bar, color)))] + tail_lines(wrap_text_spec(name, c.name_width as nat)).map_values(
        cont_line(idx, c.name_col as nat),
    )
}

/// The lines after the first (none for an empty list).
pub open spec fn tail_lines(s: Seq<Seq<char>>) -> Seq<Seq<char>> {
    if s.len() > 0 {
        s.drop_first()
    } else {
        s
    }
}

/// A continuation line of entry `idx`: the chunk indented by `indent`.
pub open spec fn cont_line(idx: int, indent: nat) -> spec_fn(Seq<char>) -> PhysView {
    |chunk: Seq<char>| (idx, repeat_spec(' ', indent) + chunk, None::<(Seq<char>, Color)>)
}

/// The lines of the first `k` torrents of the session.
pub open spec fn session_lines_spec(
    rows: Seq<SessionRow>,
    vis: Seq<RowVisual>,
    row_index: int,
    c: LibraryColumns,
    k: int,
) -> Seq<PhysView>
    decreases k,
{
    if k <= 0 {
        Seq::empty()
    } else {
        let r = rows[k - 1];
        let v = vis[k - 1];
        session_lines_spec(rows, vis, row_index, c, k - 1) + entry_lines_spec(
            k - 1,
            k - 1 == row_index,
            v.bar@,
            v.color,
            state_label_spec(r.state, r.finished),
            r.name@,
            if c.show_metrics {
                Some(v.metrics@)
            } else {
                None
            },
            c,
        )
    }
}

/// The lines of the first `k` pending sources, numbered from `start`, and
/// the next number: finished ones are not shown and take no number.
pub open spec fn pending_lines_spec(
    pending: Seq<PendingTorrent>,
    start: int,
    row_index: int,
    c: LibraryColumns,
    bar: Seq<char>,
    k: int,
) -> (Seq<PhysView>, int)
    decreases k,
{
    if k <= 0 {
        (Seq::empty(), start)
    } else {
        let prev = pending_lines_spec(pending, start, row_index, c, bar, k - 1);
        let idx = prev.1;
        let pt = pending[k - 1];
        let metrics = if c.show_metrics {
            Some(metrics_columns_spec("—"@, "—"@, "—"@, "—"@))
        } else {
            None
        };
        match pt.status {
            PendingStatus::Resolving => (
                prev.0 + entry_lines_spec(
                    idx,
                    idx == row_index,
                    bar,
                    theme_spec().accent,
                    "inicializando"@,
                    pt.source@,
                    metrics,
                    c,
                ),
                idx + 1,
            ),
            PendingStatus::Error(e) => (
                prev.0 + entry_lines_spec(
                    idx,
                    idx == row_index,
                    bar,
                    theme_spec().error,
                    truncate_spec(e@, STATE_W as nat),
                    pt.source@,
                    metrics,
                    c,
                ),
                idx + 1,
            ),
            PendingStatus::Done(_) => prev,
        }
    }
}

/// All physical lines of the library card: the torrents, then the pending
/// sources, or a notice line when both lists are empty.
pub open spec fn library_lines_spec(
    rows: Seq<SessionRow>,
    vis: Seq<RowVisual>,
    pending: Seq<PendingTorrent>,
    pending_bar: Seq<char>,
    row_index: int,
    c: LibraryColumns,
) -> Seq<PhysView> {
    if rows.len() == 0 && pending.len() == 0 {
        seq![(0, "nenhum torrent na fila"@, None)]
    } else {
        session_lines_spec(rows, vis, row_index, c, rows.len() as int) + pending_lines_spec(
            pending,
            rows.len() as int,
            row_index,
            c,
            pending_bar,
            pending.len() as int,
        ).0
    }
}

/// Appends the lines of one entry.
fn push_entry_lines(
    out: &mut Vec<PhysicalRow>,
    idx: usize,
    selected: bool,
    bar: &str,
    color: Color,
    state: &str,
    name: &str,
    metrics: Option<&str>,
    c: &LibraryColumns,
)
    ensures
        phys_views(final(out)@) == phys_views(old(out)@) + entry_lines_spec(
            idx as int,
            selected,
            bar@,
            color,
            state@,
            name@,
            match metrics {
                Some(m) => Some(m@),
                None => None,
            },
            *c,
        ),
{
    let marker = if selected {
        "> "
    } else {
        "  "
    };
    let base = session_table_line(marker, idx, bar, state, name, c.name_width, metrics);
    let ghost start = phys_views(out@);
    let b = string_lit(bar);
    out.push(PhysicalRow { item_idx: idx, line: base, bar: Some((b, color)) });
    let ghost first = phys_views(out@);
    assert(first =~= start.push((idx as int, base@, Some((bar@, color)))));
    let chunks = wrap_text(name, c.name_width);
    let ghost conts = tail_lines(wrap_text_spec(name@, c.name_width as nat)).map_values(
        cont_line(idx as int, c.name_col as nat),
    );
    let mut i: usize = 1;
    while i < chunks.len()
        invariant
            1 <= i <= chunks.len() || (chunks.len() == 0 && i == 1),
            strings_view(chunks@) == wrap_text_spec(name@, c.name_width as nat),
            conts == tail_lines(wrap_text_spec(name@, c.name_width as nat)).map_values(
                cont_line(idx as int, c.name_col as nat),
            ),
            conts.len() + 1 == chunks@.len() || (chunks@.len() == 0 && conts.len() == 0),
            phys_views(out@) == first + conts.take(i - 1),
        decreases chunks.len() - i,
    {
        let ghost before = phys_views(out@);
        let mut v: Vec<char> = Vec::new();
        crate::text::push_repeat(&mut v, ' ', c.name_col);
        crate::text::extend_str(&mut v, chunks[i].as_str());
        let line = string_of(&v);
        out.push(PhysicalRow { item_idx: idx, line, bar: None });
        proof {
            assert(strings_view(chunks@)[i as int] == chunks@[i as int]@);
            assert(conts[i - 1] == (idx as int, line@, None::<(Seq<char>, Color)>));
            assert(phys_views(out@) =~= before.push((idx as int, line@, None)));
            assert(conts.take(i as int) =~= conts.take(i - 1).push(conts[i - 1]));
        }
        i = i + 1;
    }
    proof {
        if chunks.len() == 0 {
            assert(conts =~= Seq::empty());
        } else {
            assert(conts.take(i - 1) =~= conts);
        }
        assert(phys_views(out@) =~= start + (seq![(idx as int, base@, Some((bar@, color)))] + conts));
    }
}

/// The physical lines of the library card: each torrent (then each pending
/// source) gives its table line, with the name truncated, and the
/// continuation lines of its wrapped name; `> ` marks entry `row_index`.
/// `visuals[i]` holds the bar, colour and network columns of `rows[i]`,
/// `pending_bar` the (empty) bar of the pending sources.
pub fn library_physical_rows(
    rows: &Vec<SessionRow>,
    visuals: &Vec<RowVisual>,
    pending: &Vec<PendingTorrent>,
    pending_bar: &str,
    row_index: usize,
    c: &LibraryColumns,
) -> (out: Vec<PhysicalRow>)
    requires
        visuals@.len() == rows@.len(),
        rows@.len() + pending@.len() <= usize::MAX,
    ensures
        phys_views(out@) == library_lines_spec(
            rows@,
            visuals@,
            pending@,
            pending_bar@,
            row_index as int,
            *c,
        ),
{
    let mut out: Vec<PhysicalRow> = Vec::new();
    if rows.len() == 0 && pending.len() == 0 {
        let line = string_lit("nenhum torrent na fila");
        out.push(PhysicalRow { item_idx: 0, line, bar: None });
        assert(phys_views(out@) =~= seq![(0int, "nenhum torrent na fila"@, None)]);
        return out;
    }
    let mut i: usize = 0;
    while i < rows.len()
        invariant
            i <= rows@.len(),
            visuals@.len() == rows@.len(),
            phys_views(out@) == session_lines_spec(rows@, visuals@, row_index as int, *c, i as int),
        decreases rows.len() - i,
    {
        let r = &rows[i];
        let v = &visuals[i];
        let metrics: Option<&str> = if c.show_metrics {
            Some(v.metrics.as_str())
        } else {
            None
        };
        push_entry_lines(
            &mut out,
            i,
            i == row_index,
            v.bar.as_str(),
            v.color,
            state_label(r.state, r.finished),
            r.name.as_str(),
            metrics,
            c,
        );
        i = i + 1;
    }
    let ghost session = phys_views(out@);
    let t = theme();
    let empty = empty_metrics_text();
    let mut idx: usize = rows.len();
    let mut k: usize = 0;
    while k < pending.len()
        invariant
            k <= pending@.len(),
            rows@.len() <= idx <= rows@.len() + k,
            rows@.len() + pending@.len() <= usize::MAX,
            t == theme_spec(),
            empty@ == metrics_columns_spec("—"@, "—"@, "—"@, "—"@),
            session == session_lines_spec(rows@, visuals@, row_index as int, *c, rows@.len() as int),
            ({
                let p = pending_lines_spec(pending@, rows@.len() as int, row_index as int, *c, pending_bar@, k as int);
                phys_views(out@) == session + p.0 && idx == p.1
            }),
        decreases pending.len() - k,
    {
        let pt = &pending[k];
        let metrics: Option<&str> = if c.show_metrics {
            Some(empty.as_str())
        } else {
            None
        };
        let ghost before = phys_views(out@);
        match &pt.status {
            PendingStatus::Resolving => {
                push_entry_lines(
                    &mut out,
                    idx,
                    idx == row_index,
                    pending_bar,
                    t.accent,
                    "inicializando",
                    pt.source.as_str(),
                    metrics,
                    c,
                );
                assert(phys_views(out@) =~= session + (pending_lines_spec(pending@, rows@.len() as int, row_index as int, *c, pending_bar@, k as int).0 + entry_lines_spec(idx as int, idx == row_index, pending_bar@, t.accent, "inicializando"@, pt.source@, match metrics { Some(m) => Some(m@), None => None }, *c)));
                idx = idx + 1;
            },
            PendingStatus::Error(err) => {
                let state = truncate(err.as_str(), STATE_W);
                push_entry_lines(
                    &mut out,
                    idx,
                    idx == row_index,
                    pending_bar,
                    t.error,
                    state.as_str(),
                    pt.source.as_str(),
                    metrics,
                    c,
                );
                assert(phys_views(out@) =~= session + (pending_lines_spec(pending@, rows@.len() as int, row_index as int, *c, pending_bar@, k as int).0 + entry_lines_spec(idx as int, idx == row_index, pending_bar@, t.error, state@, pt.source@, match metrics { Some(m) => Some(m@), None => None }, *c)));
                idx = idx + 1;
            },
            PendingStatus::Done(_) => {},
        }
        k = k + 1;
    }
    out
}

/// In the library order, the live torrents still downloading come first;
/// every other row (initializing, paused, failed or finished) comes after
/// them; and within each of the two groups the highest id comes first.
pub proof fn lemma_grid_order(s: Seq<SessionRow>)
    requires
        grid_sorted(s),
    ensures
        forall|i: int, j: int|
            0 <= i < j < s.len() ==> ({
                let di = (#[trigger] s[i]).state == TorrentState::Live && !s[i].finished;
                let dj = (#[trigger] s[j]).state == TorrentState::Live && !s[j].finished;
                &&& dj ==> di
                &&& di == dj ==> s[i].id >= s[j].id
            }),
{
    assert forall|i: int, j: int| 0 <= i < j < s.len() implies ({
        let di = (#[trigger] s[i]).state == TorrentState::Live && !s[i].finished;
        let dj = (#[trigger] s[j]).state == TorrentState::Live && !s[j].finished;
        &&& dj ==> di
        &&& di == dj ==> s[i].id >= s[j].id
    }) by {
        assert(row_before(s[i], s[j]));
    }
}

} // verus!
