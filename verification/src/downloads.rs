//! Completed downloads: their order in the history (newest first, then by
//! name) and the aligned lines of the history grid.
use vstd::prelude::*;

use crate::text::{
    chars_of, extend_str, pad_end_spec, pad_start_spec, push_padded_end, push_padded_start,
    string_of, truncate_chars, truncate_spec,
};

verus! {

broadcast use vstd::seq_lib::group_to_multiset_ensures;

/// A completed download found in the output folder.
#[derive(Clone, Debug)]
pub struct CompletedItem {
    /// Full path of the file.
    pub path: String,
    /// File name.
    pub name: String,
    /// Size in bytes.
    pub size: u64,
    /// Last modification, in nanoseconds from the Unix epoch.
    pub modified: i64,
}

/// Width of the date column (`dd/mm/aaaa hh:mm`).
pub const HISTORY_DATE_W: usize = 16;

/// Width of the size column.
pub const HISTORY_SIZE_W: usize = 14;

// ---------------------------------------------------------------------------
// Order of the history
// ---------------------------------------------------------------------------
/// `a` is not after `b` in the lexicographic order of characters (which is
/// the byte order of their UTF-8 text).
pub open spec fn lex_le(a: Seq<char>, b: Seq<char>) -> bool
    decreases a.len(),
{
    if a.len() == 0 {
        true
    } else if b.len() == 0 {
        false
    } else if a[0] < b[0] {
        true
    } else if a[0] > b[0] {
        false
    } else {
        lex_le(a.drop_first(), b.drop_first())
    }
}

proof fn lemma_lex_trans(a: Seq<char>, b: Seq<char>, c: Seq<char>)
    requires
        lex_le(a, b),
        lex_le(b, c),
    ensures
        lex_le(a, c),
    decreases a.len(),
{
    if a.len() > 0 && b.len() > 0 && c.len() > 0 {
        if a[0] == b[0] && b[0] == c[0] {
            lemma_lex_trans(a.drop_first(), b.drop_first(), c.drop_first());
        }
    }
}

proof fn lemma_lex_total(a: Seq<char>, b: Seq<char>)
    ensures
        lex_le(a, b) || lex_le(b, a),
    decreases a.len(),
{
    if a.len() > 0 && b.len() > 0 && a[0] == b[0] {
        lemma_lex_total(a.drop_first(), b.drop_first());
    }
}

/// `lex_le(a@, b@)`.
fn name_le(a: &str, b: &str) -> (r: bool)
    ensures
        r == lex_le(a@, b@),
{
    let x = chars_of(a);
    let y = chars_of(b);
    let mut i: usize = 0;
    assert(x@.skip(0) =~= x@);
    assert(y@.skip(0) =~= y@);
    while i < x.len() && i < y.len() && x[i] == y[i]
        invariant
            i <= x.len(),
            i <= y.len(),
            x@.take(i as int) == y@.take(i as int),
            lex_le(x@, y@) == lex_le(x@.skip(i as int), y@.skip(i as int)),
        decreases x.len() - i,
    {
        assert(x@.skip(i as int).drop_first() =~= x@.skip(i + 1));
        assert(y@.skip(i as int).drop_first() =~= y@.skip(i + 1));
        i = i + 1;
        assert(x@.take(i as int) =~= x@.take(i - 1).push(x@[i - 1]));
        assert(y@.take(i as int) =~= y@.take(i - 1).push(y@[i - 1]));
    }
    if i == x.len() {
        true
    } else if i == y.len() {
        false
    } else {
        x[i] < y[i]
    }
}

/// `a` may stand before `b` in the history: newer first, then by name.
pub open spec fn completed_before(a: CompletedItem, b: CompletedItem) -> bool {
    a.modified > b.modified || (a.modified == b.modified && lex_le(a.name@, b.name@))
}

/// Items in history order.
pub open spec fn history_sorted(s: Seq<CompletedItem>) -> bool {
    forall|i: int, j: int|
        0 <= i < j < s.len() ==> completed_before(#[trigger] s[i], #[trigger] s[j])
}

proof fn lemma_before_trans(a: CompletedItem, b: CompletedItem, c: CompletedItem)
    requires
        completed_before(a, b),
        completed_before(b, c),
    ensures
        completed_before(a, c),
{
    if a.modified == b.modified && b.modified == c.modified {
        lemma_lex_trans(a.name@, b.name@, c.name@);
    }
}

/// Whether `a` may stand before `b` in the history.
fn goes_before(a: &CompletedItem, b: &CompletedItem) -> (r: bool)
    ensures
        r == completed_before(*a, *b),
{
    a.modified > b.modified || (a.modified == b.modified && name_le(a.name.as_str(), b.name.as_str()))
}

/// `a` has the same place as `r` in the history order: same time and name.
pub open spec fn same_key(a: CompletedItem, r: CompletedItem) -> bool {
    a.modified == r.modified && a.name@ == r.name@
}

/// The items with the place of `r`, in their order.
pub open spec fn key_items(s: Seq<CompletedItem>, r: CompletedItem) -> Seq<CompletedItem>
    decreases s.len(),
{
    if s.len() == 0 {
        s
    } else {
        let rest = key_items(s.drop_last(), r);
        if same_key(s.last(), r) {
            rest.push(s.last())
        } else {
            rest
        }
    }
}

proof fn lemma_key_items_add(a: Seq<CompletedItem>, b: Seq<CompletedItem>, r: CompletedItem)
    ensures
        key_items(a + b, r) == key_items(a, r) + key_items(b, r),
    decreases b.len(),
{
    if b.len() == 0 {
        assert(a + b =~= a);
        assert(key_items(a, r) + key_items(b, r) =~= key_items(a, r));
    } else {
        lemma_key_items_add(a, b.drop_last(), r);
        assert((a + b).drop_last() =~= a + b.drop_last());
        assert((a + b).last() == b.last());
        if same_key(b.last(), r) {
            assert(key_items(a, r) + key_items(b.drop_last(), r).push(b.last()) =~= (key_items(a, r)
                + key_items(b.drop_last(), r)).push(b.last()));
        }
    }
}

proof fn lemma_key_items_none(s: Seq<CompletedItem>, r: CompletedItem)
    requires
        forall|k: int| 0 <= k < s.len() ==> !same_key(#[trigger] s[k], r),
    ensures
        key_items(s, r) == Seq::<CompletedItem>::empty(),
    decreases s.len(),
{
    if s.len() > 0 {
        assert forall|k: int| 0 <= k < s.drop_last().len() implies !same_key(#[trigger] s.drop_last()[k], r) by {
            assert(s.drop_last()[k] == s[k]);
        }
        lemma_key_items_none(s.drop_last(), r);
        assert(!same_key(s[s.len() - 1], r));
    }
}

/// The completed downloads found in the output folder, in the order of the
/// history: the most recently modified first and, at equal times, by name,
/// so that the grid does not reorder between frames; items of the same time
/// and name keep the order they were found in.
pub fn list_completed_downloads(found: Vec<CompletedItem>) -> (items: Vec<CompletedItem>)
    ensures
        items@.to_multiset() == found@.to_multiset(),
        items@.len() == found@.len(),
        history_sorted(items@),
        forall|r: CompletedItem| #[trigger] key_items(items@, r) == key_items(found@, r),
{
    let mut rows = found;
    let ghost orig = rows@;
    let mut out: Vec<CompletedItem> = Vec::new();
    while rows.len() > 0
        invariant
            out@.to_multiset().add(rows@.to_multiset()) == orig.to_multiset(),
            out@.len() + rows@.len() == orig.len(),
            history_sorted(out@),
            forall|r: CompletedItem| #[trigger] key_items(orig, r) == key_items(out@, r) + key_items(rows@, r),
        decreases rows.len(),
    {
        let ghost before_rows = rows@;
        let x = rows.remove(0);
        let mut p: usize = 0;
        while p < out.len() && goes_before(&out[p], &x)
            invariant
                p <= out.len(),
                forall|k: int| 0 <= k < p ==> completed_before(#[trigger] out@[k], x),
            decreases out.len() - p,
        {
            p = p + 1;
        }
        let ghost before_out = out@;
        proof {
            if p < out.len() {
                assert(!completed_before(out@[p as int], x));
                assert forall|k: int| p <= k < out.len() implies !completed_before(
                    #[trigger] out@[k],
                    x,
                ) by {
                    if k > p && completed_before(out@[k], x) {
                        assert(completed_before(out@[p as int], out@[k]));
                        lemma_before_trans(out@[p as int], out@[k], x);
                    }
                }
                if out@[p as int].modified == x.modified {
                    lemma_lex_total(out@[p as int].name@, x.name@);
                }
            }
        }
        out.insert(p, x);
        proof {
            assert(out@ == before_out.insert(p as int, x));
            assert forall|i: int, j: int| 0 <= i < j < out@.len() implies completed_before(
                #[trigger] out@[i],
                #[trigger] out@[j],
            ) by {
                if j < p {
                    assert(out@[i] == before_out[i] && out@[j] == before_out[j]);
                } else if j == p {
                    assert(out@[i] == before_out[i]);
                } else if i < p {
                    assert(out@[i] == before_out[i] && out@[j] == before_out[j - 1]);
                } else if i == p {
                    assert(out@[j] == before_out[j - 1]);
                    assert(!completed_before(before_out[j - 1], x));
                    if before_out[j - 1].modified == x.modified {
                        lemma_lex_total(before_out[j - 1].name@, x.name@);
                    }
                } else {
                    assert(out@[i] == before_out[i - 1] && out@[j] == before_out[j - 1]);
                }
            }
            assert(before_rows.remove(0) == rows@);
            assert forall|r: CompletedItem| #[trigger] key_items(orig, r) == key_items(out@, r)
                + key_items(rows@, r) by {
                assert(before_rows =~= seq![x] + rows@);
                lemma_key_items_add(seq![x], rows@, r);
                assert(before_out =~= before_out.take(p as int) + before_out.skip(p as int));
                lemma_key_items_add(before_out.take(p as int), before_out.skip(p as int), r);
                assert(out@ =~= before_out.take(p as int) + seq![x] + before_out.skip(p as int));
                lemma_key_items_add(before_out.take(p as int) + seq![x], before_out.skip(p as int), r);
                lemma_key_items_add(before_out.take(p as int), seq![x], r);
                assert(seq![x].drop_last() =~= Seq::<CompletedItem>::empty());
                assert(key_items(Seq::<CompletedItem>::empty(), r) =~= Seq::<CompletedItem>::empty());
                assert(key_items(seq![x].drop_last(), r) =~= Seq::<CompletedItem>::empty());
                assert(seq![x].last() == x);
                if same_key(x, r) {
                    assert forall|k: int| 0 <= k < before_out.skip(p as int).len() implies !same_key(
                        #[trigger] before_out.skip(p as int)[k],
                        r,
                    ) by {
                        let y = before_out.skip(p as int)[k];
                        assert(y == before_out[p + k]);
                        if same_key(y, r) {
                            lemma_lex_total(x.name@, x.name@);
                            assert(completed_before(y, x));
                        }
                    }
                    lemma_key_items_none(before_out.skip(p as int), r);
                }
                let ka = key_items(before_out.take(p as int), r);
                let kb = key_items(before_out.skip(p as int), r);
                let kx = key_items(seq![x], r);
                let kr = key_items(rows@, r);
                assert(key_items(orig, r) == (ka + kb) + (kx + kr));
                assert(key_items(out@, r) == (ka + kx) + kb);
                if same_key(x, r) {
                    assert(kb =~= Seq::<CompletedItem>::empty());
                    assert((ka + kb) + (kx + kr) =~= ((ka + kx) + kb) + kr);
                } else {
                    assert(kx =~= Seq::<CompletedItem>::empty());
                    assert((ka + kb) + (kx + kr) =~= ((ka + kx) + kb) + kr);
                }
            }
            assert(before_rows.to_multiset() == rows@.to_multiset().insert(x));
            assert(out@.to_multiset() == before_out.to_multiset().insert(x));
            assert(out@.to_multiset().add(rows@.to_multiset()) =~= before_out.to_multiset().add(
                before_rows.to_multiset(),
            ));
        }
    }
    assert(rows@.to_multiset() =~= vstd::multiset::Multiset::empty());
    assert(out@.to_multiset().add(rows@.to_multiset()) =~= out@.to_multiset());
    assert forall|r: CompletedItem| #[trigger] key_items(out@, r) == key_items(orig, r) by {
        assert(key_items(rows@, r) =~= Seq::<CompletedItem>::empty());
        assert(key_items(out@, r) + key_items(rows@, r) =~= key_items(out@, r));
    }
    out
}

// ---------------------------------------------------------------------------
// Lines of the history grid
// ---------------------------------------------------------------------------
/// Header of the history grid: date and name left-aligned, size
/// right-aligned.
pub open spec fn history_header_spec(name_w: nat) -> Seq<char> {
    pad_end_spec("DATA CRIAÇÃO"@, HISTORY_DATE_W as nat) + " "@ + pad_end_spec("NOME"@, name_w)
        + " "@ + pad_start_spec("TAMANHO"@, HISTORY_SIZE_W as nat)
}

/// Header of the history grid for a name column `name_w` wide.
pub fn history_header(name_w: usize) -> (s: String)
    ensures
        s@ == history_header_spec(name_w as nat),
{
    let mut v: Vec<char> = Vec::new();
    push_padded_end(&mut v, &chars_of("DATA CRIAÇÃO"), HISTORY_DATE_W);
    extend_str(&mut v, " ");
    push_padded_end(&mut v, &chars_of("NOME"), name_w);
    extend_str(&mut v, " ");
    push_padded_start(&mut v, &chars_of("TAMANHO"), HISTORY_SIZE_W);
    assert(v@ =~= history_header_spec(name_w as nat));
    string_of(&v)
}

/// A line of the history grid from its date text, name (truncated to
/// `name_w`) and size text, aligned as the header.
pub open spec fn completed_row_spec(date: Seq<char>, name: Seq<char>, size: Seq<char>, name_w: nat) -> Seq<
    char,
> {
    pad_end_spec(date, HISTORY_DATE_W as nat) + " "@ + pad_end_spec(truncate_spec(name, name_w), name_w)
        + " "@ + pad_start_spec(size, HISTORY_SIZE_W as nat)
}

/// A line of the history grid from the texts of its columns.
pub fn completed_row_text(date: &str, name: &str, size: &str, name_w: usize) -> (s: String)
    ensures
        s@ == completed_row_spec(date@, name@, size@, name_w as nat),
{
    let mut v: Vec<char> = Vec::new();
    push_padded_end(&mut v, &chars_of(date), HISTORY_DATE_W);
    extend_str(&mut v, " ");
    let short = truncate_chars(&chars_of(name), name_w);
    push_padded_end(&mut v, &short, name_w);
    extend_str(&mut v, " ");
    push_padded_start(&mut v, &chars_of(size), HISTORY_SIZE_W);
    assert(v@ =~= completed_row_spec(date@, name@, size@, name_w as nat));
    string_of(&v)
}

/// The text `size_format::SizeFormatterBinary` gives for a number of bytes
/// (`700.0Mi`, `3`, …).
pub uninterp spec fn binary_size_text(bytes: u64) -> Seq<char>;

/// The size with binary prefixes (`size_format::SizeFormatterBinary` shown
/// with `Display`): a function of the number alone.
#[verifier::external_body]
pub(crate) fn format_binary_size(bytes: u64) -> (s: String)
    ensures
        s@ == binary_size_text(bytes),
{
    size_format::SizeFormatterBinary::new(bytes).to_string()
}

/// The local date and time of an instant given in nanoseconds from the Unix
/// epoch, as `dd/mm/aaaa hh:mm` (chrono's `DateTime::from_timestamp_nanos`,
/// shown in the `Local` time zone with `format`). Its digits depend on the
/// time zone of the machine, so only its length is stated: every `i64` of
/// nanoseconds falls in the years 1677 to 2262, which chrono writes with
/// four digits, and the other fields take two each.
#[verifier::external_body]
fn local_date_text(nanos: i64) -> (s: String)
    ensures
        s@.len() == 16,
{
    chrono::DateTime::from_timestamp_nanos(nanos)
        .with_timezone(&chrono::Local)
        .format("%d/%m/%Y %H:%M")
        .to_string()
}

/// A line of the history grid for `item`: its local modification date, its
/// name truncated to `name_w` and its size with binary prefixes.
pub fn format_completed_row(item: &CompletedItem, name_w: usize) -> (s: String)
    ensures
        exists|date: Seq<char>|
            date.len() == 16 && s@ == completed_row_spec(
                date,
                item.name@,
                binary_size_text(item.size),
                name_w as nat,
            ),
{
    let date = local_date_text(item.modified);
    let size = format_binary_size(item.size);
    let s = completed_row_text(date.as_str(), item.name.as_str(), size.as_str(), name_w);
    assert(s@ == completed_row_spec(date@, item.name@, binary_size_text(item.size), name_w as nat));
    s
}

} // verus!
