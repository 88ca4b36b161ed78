//! Word wrapping of long names in the library card: words are packed
//! greedily into lines of at most `max` characters, and a word longer than a
//! line (a magnet link, a URL) is cut into pieces of `max` characters.
use vstd::prelude::*;

use crate::text::{chars_of, is_whitespace, is_ws_spec, string_of};

verus! {

/// The characters of each vector.
pub open spec fn nested_view(v: Seq<Vec<char>>) -> Seq<Seq<char>> {
    v.map_values(|w: Vec<char>| w@)
}

/// The characters of each string.
pub open spec fn strings_view(v: Seq<String>) -> Seq<Seq<char>> {
    v.map_values(|s: String| s@)
}

/// State of `split_whitespace` after reading `s`: the finished words and the
/// word being read.
pub open spec fn split_state(s: Seq<char>) -> (Seq<Seq<char>>, Seq<char>)
    decreases s.len(),
{
    if s.len() == 0 {
        (Seq::empty(), Seq::empty())
    } else {
        let st = split_state(s.drop_last());
        let c = s.last();
        if is_ws_spec(c) {
            if st.1.len() > 0 {
                (st.0.push(st.1), Seq::empty())
            } else {
                st
            }
        } else {
            (st.0, st.1.push(c))
        }
    }
}

/// The words of `s`: the maximal runs of non-whitespace characters.
pub open spec fn words_spec(s: Seq<char>) -> Seq<Seq<char>> {
    let st = split_state(s);
    if st.1.len() > 0 {
        st.0.push(st.1)
    } else {
        st.0
    }
}

/// Lines and current line after cutting `w` into pieces of `m` characters,
/// each piece starting a new line.
pub open spec fn push_chunks(lines: Seq<Seq<char>>, cur: Seq<char>, w: Seq<char>, m: nat) -> (
    Seq<Seq<char>>,
    Seq<char>,
)
    decreases w.len(),
{
    if w.len() == 0 {
        (lines, cur)
    } else {
        let k = if m == 0 || m >= w.len() {
            w.len()
        } else {
            m
        };
        let lines2 = if cur.len() > 0 {
            lines.push(cur)
        } else {
            lines
        };
        push_chunks(lines2, w.take(k as int), w.skip(k as int), m)
    }
}

/// One greedy step: `w` joins the current line when it fits, else starts a
/// new one; a word longer than a line is cut.
pub open spec fn wrap_word(st: (Seq<Seq<char>>, Seq<char>), w: Seq<char>, m: nat) -> (
    Seq<Seq<char>>,
    Seq<char>,
) {
    if w.len() <= m {
        if st.1.len() > 0 && st.1.len() + 1 + w.len() <= m {
            (st.0, st.1 + seq![' '] + w)
        } else if st.1.len() == 0 {
            (st.0, w)
        } else {
            (st.0.push(st.1), w)
        }
    } else {
        let lines = if st.1.len() > 0 {
            st.0.push(st.1)
        } else {
            st.0
        };
        push_chunks(lines, Seq::empty(), w, m)
    }
}

/// The greedy packing of the words `ws`.
pub open spec fn wrap_words(ws: Seq<Seq<char>>, m: nat) -> (Seq<Seq<char>>, Seq<char>)
    decreases ws.len(),
{
    if ws.len() == 0 {
        (Seq::empty(), Seq::empty())
    } else {
        wrap_word(wrap_words(ws.drop_last(), m), ws.last(), m)
    }
}

/// The lines of `text` wrapped at `m` characters: the text itself when it
/// fits (or when `m` is 0), else the greedy packing of its words.
pub open spec fn wrap_text_spec(text: Seq<char>, m: nat) -> Seq<Seq<char>> {
    if m == 0 || text.len() <= m {
        seq![text]
    } else {
        let st = wrap_words(words_spec(text), m);
        if st.1.len() > 0 {
            st.0.push(st.1)
        } else {
            st.0
        }
    }
}

/// No line is longer than `m`.
pub open spec fn lines_fit(lines: Seq<Seq<char>>, m: nat) -> bool {
    forall|j: int| 0 <= j < lines.len() ==> (#[trigger] lines[j]).len() <= m
}

proof fn lemma_push_chunks_fit(lines: Seq<Seq<char>>, cur: Seq<char>, w: Seq<char>, m: nat)
    requires
        m > 0,
        lines_fit(lines, m),
        cur.len() <= m,
    ensures
        lines_fit(push_chunks(lines, cur, w, m).0, m),
        push_chunks(lines, cur, w, m).1.len() <= m,
    decreases w.len(),
{
    if w.len() > 0 {
        let k = if m >= w.len() {
            w.len()
        } else {
            m
        };
        let lines2 = if cur.len() > 0 {
            lines.push(cur)
        } else {
            lines
        };
        assert(lines_fit(lines2, m)) by {
            assert forall|j: int| 0 <= j < lines2.len() implies (#[trigger] lines2[j]).len() <= m by {
                if j < lines.len() {
                    assert(lines2[j] == lines[j]);
                }
            }
        }
        lemma_push_chunks_fit(lines2, w.take(k as int), w.skip(k as int), m);
    }
}

proof fn lemma_wrap_words_fit(ws: Seq<Seq<char>>, m: nat)
    requires
        m > 0,
    ensures
        lines_fit(wrap_words(ws, m).0, m),
        wrap_words(ws, m).1.len() <= m,
    decreases ws.len(),
{
    if ws.len() > 0 {
        lemma_wrap_words_fit(ws.drop_last(), m);
        let st = wrap_words(ws.drop_last(), m);
        let w = ws.last();
        if st.1.len() > 0 {
            assert(lines_fit(st.0.push(st.1), m)) by {
                assert forall|j: int| 0 <= j < st.0.push(st.1).len() implies (#[trigger] st.0.push(
                    st.1,
                )[j]).len() <= m by {
                    if j < st.0.len() {
                        assert(st.0.push(st.1)[j] == st.0[j]);
                    }
                }
            }
        }
        if w.len() > m {
            let lines = if st.1.len() > 0 {
                st.0.push(st.1)
            } else {
                st.0
            };
            lemma_push_chunks_fit(lines, Seq::empty(), w, m);
        }
    }
}

/// No wrapped line is longer than `max` (for `max > 0`).
pub proof fn lemma_wrap_text_fits(text: Seq<char>, max: nat)
    requires
        max > 0,
    ensures
        lines_fit(wrap_text_spec(text, max), max),
{
    if text.len() > max {
        let st = wrap_words(words_spec(text), max);
        lemma_wrap_words_fit(words_spec(text), max);
        if st.1.len() > 0 {
            assert forall|j: int| 0 <= j < st.0.push(st.1).len() implies (#[trigger] st.0.push(
                st.1,
            )[j]).len() <= max by {
                if j < st.0.len() {
                    assert(st.0.push(st.1)[j] == st.0[j]);
                }
            }
        }
    }
}

/// The characters of `s` that are not blank, in order.
pub open spec fn solid(s: Seq<char>) -> Seq<char>
    decreases s.len(),
{
    if s.len() == 0 {
        s
    } else {
        let r = solid(s.drop_last());
        if is_ws_spec(s.last()) {
            r
        } else {
            r.push(s.last())
        }
    }
}

/// The lines laid end to end.
pub open spec fn flat(ls: Seq<Seq<char>>) -> Seq<char>
    decreases ls.len(),
{
    if ls.len() == 0 {
        Seq::empty()
    } else {
        flat(ls.drop_last()) + ls.last()
    }
}

/// The non-blank characters of the finished lines, then of the current one.
pub open spec fn kept(st: (Seq<Seq<char>>, Seq<char>)) -> Seq<char> {
    solid(flat(st.0)) + solid(st.1)
}

proof fn lemma_solid_add(a: Seq<char>, b: Seq<char>)
    ensures
        solid(a + b) == solid(a) + solid(b),
    decreases b.len(),
{
    if b.len() == 0 {
        assert(a + b =~= a);
        assert(solid(a) + solid(b) =~= solid(a));
    } else {
        lemma_solid_add(a, b.drop_last());
        assert((a + b).drop_last() =~= a + b.drop_last());
        assert((a + b).last() == b.last());
        if !is_ws_spec(b.last()) {
            assert(solid(a + b.drop_last()).push(b.last()) =~= solid(a) + solid(b.drop_last()).push(
                b.last(),
            ));
        }
    }
}

proof fn lemma_kept_push(lines: Seq<Seq<char>>, cur: Seq<char>)
    ensures
        solid(flat(lines.push(cur))) == solid(flat(lines)) + solid(cur),
{
    assert(lines.push(cur).drop_last() =~= lines);
    lemma_solid_add(flat(lines), cur);
}

proof fn lemma_split_state_kept(s: Seq<char>)
    ensures
        kept(split_state(s)) == solid(s),
    decreases s.len(),
{
    if s.len() > 0 {
        let st = split_state(s.drop_last());
        lemma_split_state_kept(s.drop_last());
        if is_ws_spec(s.last()) {
            if st.1.len() > 0 {
                lemma_kept_push(st.0, st.1);
                assert(solid(Seq::<char>::empty()) =~= Seq::<char>::empty());
                assert(kept(split_state(s)) =~= solid(flat(st.0)) + solid(st.1));
            }
        } else {
            assert(st.1.push(s.last()).drop_last() =~= st.1);
            assert(solid(st.1.push(s.last())) == solid(st.1).push(s.last()));
            assert(s.drop_last().push(s.last()) =~= s);
            assert(kept(split_state(s)) =~= kept(st).push(s.last()));
        }
    }
}

proof fn lemma_push_chunks_kept(lines: Seq<Seq<char>>, cur: Seq<char>, w: Seq<char>, m: nat)
    ensures
        kept(push_chunks(lines, cur, w, m)) == kept((lines, cur)) + solid(w),
    decreases w.len(),
{
    if w.len() == 0 {
        assert(kept((lines, cur)) + solid(w) =~= kept((lines, cur)));
    } else {
        let k = if m == 0 || m >= w.len() {
            w.len()
        } else {
            m
        };
        let lines2 = if cur.len() > 0 {
            lines.push(cur)
        } else {
            lines
        };
        lemma_push_chunks_kept(lines2, w.take(k as int), w.skip(k as int), m);
        lemma_kept_push(lines, cur);
        assert(solid(Seq::<char>::empty()) =~= Seq::<char>::empty());
        if cur.len() == 0 {
            assert(cur =~= Seq::<char>::empty());
        }
        assert(solid(flat(lines2)) == solid(flat(lines)) + solid(cur));
        assert(w.take(k as int) + w.skip(k as int) =~= w);
        lemma_solid_add(w.take(k as int), w.skip(k as int));
        assert(kept(push_chunks(lines, cur, w, m)) =~= kept((lines, cur)) + solid(w));
    }
}

proof fn lemma_wrap_word_kept(st: (Seq<Seq<char>>, Seq<char>), w: Seq<char>, m: nat)
    ensures
        kept(wrap_word(st, w, m)) == kept(st) + solid(w),
{
    assert(solid(Seq::<char>::empty()) =~= Seq::<char>::empty());
    if w.len() <= m {
        if st.1.len() > 0 && st.1.len() + 1 + w.len() <= m {
            lemma_solid_add(st.1 + seq![' '], w);
            lemma_solid_add(st.1, seq![' ']);
            assert(seq![' '].drop_last() =~= Seq::<char>::empty());
            assert(is_ws_spec(' '));
            assert(solid(seq![' ']) =~= Seq::<char>::empty());
            assert(kept(wrap_word(st, w, m)) =~= kept(st) + solid(w));
        } else if st.1.len() == 0 {
            assert(st.1 =~= Seq::<char>::empty());
            assert(kept(wrap_word(st, w, m)) =~= kept(st) + solid(w));
        } else {
            lemma_kept_push(st.0, st.1);
            assert(kept(wrap_word(st, w, m)) =~= kept(st) + solid(w));
        }
    } else {
        let lines = if st.1.len() > 0 {
            st.0.push(st.1)
        } else {
            st.0
        };
        lemma_push_chunks_kept(lines, Seq::empty(), w, m);
        lemma_kept_push(st.0, st.1);
        if st.1.len() == 0 {
            assert(st.1 =~= Seq::<char>::empty());
        }
        assert(kept((lines, Seq::<char>::empty())) =~= kept(st));
    }
}

proof fn lemma_wrap_words_kept(ws: Seq<Seq<char>>, m: nat)
    ensures
        kept(wrap_words(ws, m)) == solid(flat(ws)),
    decreases ws.len(),
{
    if ws.len() == 0 {
        assert(kept(wrap_words(ws, m)) =~= solid(flat(ws)));
    } else {
        lemma_wrap_words_kept(ws.drop_last(), m);
        lemma_wrap_word_kept(wrap_words(ws.drop_last(), m), ws.last(), m);
        lemma_solid_add(flat(ws.drop_last()), ws.last());
    }
}

/// Wrapping drops no character but blanks: the non-blank characters of the
/// lines, laid end to end, are those of the text, in order.
pub proof fn lemma_wrap_text_keeps_text(text: Seq<char>, max: nat)
    ensures
        solid(flat(wrap_text_spec(text, max))) == solid(text),
{
    if max == 0 || text.len() <= max {
        assert(seq![text].drop_last() =~= Seq::<Seq<char>>::empty());
        assert(flat(Seq::<Seq<char>>::empty()) =~= Seq::<char>::empty());
        assert(seq![text].last() == text);
        assert(flat(seq![text]) =~= text);
    } else {
        let ws = words_spec(text);
        let st = wrap_words(ws, max);
        lemma_wrap_words_kept(ws, max);
        let sp = split_state(text);
        lemma_split_state_kept(text);
        if sp.1.len() > 0 {
            lemma_kept_push(sp.0, sp.1);
        } else {
            assert(sp.1 =~= Seq::<char>::empty());
            assert(solid(sp.1) =~= Seq::<char>::empty());
            assert(kept(sp) =~= solid(flat(sp.0)));
        }
        assert(solid(flat(ws)) == solid(text));
        if st.1.len() > 0 {
            lemma_kept_push(st.0, st.1);
        } else {
            assert(st.1 =~= Seq::<char>::empty());
            assert(solid(st.1) =~= Seq::<char>::empty());
            assert(kept(st) =~= solid(flat(st.0)));
        }
    }
}

/// The words of `s`, in order.
fn split_words(s: &Vec<char>) -> (ws: Vec<Vec<char>>)
    ensures
        nested_view(ws@) == words_spec(s@),
{
    let mut words: Vec<Vec<char>> = Vec::new();
    let mut cur: Vec<char> = Vec::new();
    let mut i: usize = 0;
    while i < s.len()
        invariant
            i <= s.len(),
            (nested_view(words@), cur@) == split_state(s@.take(i as int)),
        decreases s.len() - i,
    {
        let c = s[i];
        let ghost before = nested_view(words@);
        proof {
            assert(s@.take(i + 1).drop_last() =~= s@.take(i as int));
            assert(s@.take(i + 1).last() == c);
        }
        if is_whitespace(c) {
            if cur.len() > 0 {
                let done = cur;
                words.push(done);
                cur = Vec::new();
                assert(nested_view(words@) =~= before.push(done@));
            }
        } else {
            cur.push(c);
        }
        i = i + 1;
    }
    assert(s@.take(s.len() as int) =~= s@);
    if cur.len() > 0 {
        let ghost before = nested_view(words@);
        let done = cur;
        words.push(done);
        assert(nested_view(words@) =~= before.push(done@));
    }
    words
}

/// Cuts `w` into pieces of `m` characters, each starting a new line.
fn push_chunks_exec(lines: &mut Vec<Vec<char>>, cur: &mut Vec<char>, w: &Vec<char>, m: usize)
    requires
        m > 0,
    ensures
        (nested_view(final(lines)@), final(cur)@) == push_chunks(
            nested_view(old(lines)@),
            old(cur)@,
            w@,
            m as nat,
        ),
{
    let ghost target = push_chunks(nested_view(old(lines)@), old(cur)@, w@, m as nat);
    let mut i: usize = 0;
    assert(w@.skip(0) =~= w@);
    while i < w.len()
        invariant
            m > 0,
            i <= w.len(),
            push_chunks(nested_view(lines@), cur@, w@.skip(i as int), m as nat) == target,
        decreases w.len() - i,
    {
        let rest: usize = w.len() - i;
        let k: usize = if m >= rest {
            rest
        } else {
            m
        };
        let ghost before = nested_view(lines@);
        if cur.len() > 0 {
            let mut done: Vec<char> = Vec::new();
            std::mem::swap(cur, &mut done);
            lines.push(done);
            assert(nested_view(lines@) =~= before.push(done@));
        }
        let mut piece: Vec<char> = Vec::new();
        let mut j: usize = 0;
        while j < k
            invariant
                j <= k,
                i + k <= w.len(),
                piece@ == w@.subrange(i as int, i + j),
            decreases k - j,
        {
            piece.push(w[i + j]);
            j = j + 1;
            assert(piece@ =~= w@.subrange(i as int, i + j));
        }
        proof {
            assert(w@.skip(i as int).take(k as int) =~= piece@);
            assert(w@.skip(i as int).skip(k as int) =~= w@.skip(i + k));
        }
        *cur = piece;
        i = i + k;
    }
    assert(w@.skip(w.len() as int) =~= Seq::<char>::empty());
}

/// One greedy packing step for the word `w`.
fn wrap_word_exec(lines: &mut Vec<Vec<char>>, cur: &mut Vec<char>, w: &Vec<char>, m: usize)
    requires
        m > 0,
    ensures
        (nested_view(final(lines)@), final(cur)@) == wrap_word(
            (nested_view(old(lines)@), old(cur)@),
            w@,
            m as nat,
        ),
{
    let ghost before = nested_view(lines@);
    if w.len() <= m {
        if cur.len() > 0 && w.len() < m && cur.len() <= m - 1 - w.len() {
            cur.push(' ');
            let mut j: usize = 0;
            let ghost base = cur@;
            while j < w.len()
                invariant
                    j <= w.len(),
                    cur@ == base + w@.take(j as int),
                decreases w.len() - j,
            {
                cur.push(w[j]);
                j = j + 1;
                assert(cur@ =~= base + w@.take(j as int));
            }
            assert(cur@ =~= old(cur)@ + seq![' '] + w@);
        } else if cur.len() == 0 {
            *cur = w.clone();
        } else {
            let mut done: Vec<char> = w.clone();
            std::mem::swap(cur, &mut done);
            lines.push(done);
            assert(nested_view(lines@) =~= before.push(done@));
        }
    } else {
        if cur.len() > 0 {
            let mut done: Vec<char> = Vec::new();
            std::mem::swap(cur, &mut done);
            lines.push(done);
            assert(nested_view(lines@) =~= before.push(done@));
        } else {
            *cur = Vec::new();
        }
        assert(cur@ =~= Seq::<char>::empty());
        push_chunks_exec(lines, cur, w, m);
    }
}

/// Splits `text` into lines of at most `max_chars` characters at word
/// boundaries; words longer than a line are cut. A text that fits, or a
/// `max_chars` of 0, gives the text itself as the only line.
pub fn wrap_text(text: &str, max_chars: usize) -> (lines: Vec<String>)
    ensures
        strings_view(lines@) == wrap_text_spec(text@, max_chars as nat),
{
    let chars = chars_of(text);
    if max_chars == 0 || chars.len() <= max_chars {
        let mut one: Vec<String> = Vec::new();
        one.push(string_of(&chars));
        assert(strings_view(one@) =~= seq![text@]);
        return one;
    }
    let words = split_words(&chars);
    let mut lines: Vec<Vec<char>> = Vec::new();
    let mut cur: Vec<char> = Vec::new();
    let mut i: usize = 0;
    while i < words.len()
        invariant
            max_chars > 0,
            i <= words.len(),
            nested_view(words@) == words_spec(text@),
            (nested_view(lines@), cur@) == wrap_words(nested_view(words@).take(i as int), max_chars as nat),
        decreases words.len() - i,
    {
        proof {
            let t = nested_view(words@).take(i + 1);
            assert(t.drop_last() =~= nested_view(words@).take(i as int));
            assert(t.last() == words@[i as int]@);
        }
        wrap_word_exec(&mut lines, &mut cur, &words[i], max_chars);
        i = i + 1;
    }
    assert(nested_view(words@).take(words.len() as int) =~= nested_view(words@));
    if cur.len() > 0 {
        let ghost before = nested_view(lines@);
        let done = cur;
        lines.push(done);
        assert(nested_view(lines@) =~= before.push(done@));
    }
    let mut out: Vec<String> = Vec::new();
    let mut j: usize = 0;
    while j < lines.len()
        invariant
            j <= lines.len(),
            strings_view(out@) == nested_view(lines@).take(j as int),
        decreases lines.len() - j,
    {
        let ghost before = strings_view(out@);
        let line = string_of(&lines[j]);
        out.push(line);
        assert(strings_view(out@) =~= before.push(line@));
        j = j + 1;
        assert(nested_view(lines@).take(j as int) =~= nested_view(lines@).take(j - 1).push(
            lines@[j - 1]@,
        ));
    }
    assert(nested_view(lines@).take(lines.len() as int) =~= nested_view(lines@));
    out
}

} // verus!
