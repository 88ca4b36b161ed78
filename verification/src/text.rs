//! Character-level text primitives shared by the whole library: padding as
//! the `{:<w}` / `{:>w}` format widths do (counted in `char`s), truncation
//! with an ellipsis, decimal rendering, Unicode whitespace, searching.
use vstd::prelude::*;

verus! {

// ---------------------------------------------------------------------------
// Specifications
// ---------------------------------------------------------------------------
/// `n` copies of `c`.
pub open spec fn repeat_spec(c: char, n: nat) -> Seq<char> {
    Seq::new(n, |_i: int| c)
}

/// Left-aligned in a field of `w` characters (`{:<w}`).
pub open spec fn pad_end_spec(s: Seq<char>, w: nat) -> Seq<char> {
    if s.len() >= w {
        s
    } else {
        s + repeat_spec(' ', (w - s.len()) as nat)
    }
}

/// Right-aligned in a field of `w` characters (`{:>w}`).
pub open spec fn pad_start_spec(s: Seq<char>, w: nat) -> Seq<char> {
    if s.len() >= w {
        s
    } else {
        repeat_spec(' ', (w - s.len()) as nat) + s
    }
}

/// Zero-padded to at least `w` characters (`{:0w}` of a non-negative number).
pub open spec fn zero_pad_spec(s: Seq<char>, w: nat) -> Seq<char> {
    if s.len() >= w {
        s
    } else {
        repeat_spec('0', (w - s.len()) as nat) + s
    }
}

/// At most `max` characters; a text that does not fit keeps its first
/// `max - 1` characters followed by `…`.
pub open spec fn truncate_spec(s: Seq<char>, max: nat) -> Seq<char> {
    if s.len() <= max {
        s
    } else if max == 0 {
        seq!['…']
    } else {
        s.take(max - 1) + seq!['…']
    }
}

/// The decimal digit for `d < 10`.
pub open spec fn digit_spec(d: nat) -> char {
    ((d + 48) as u8) as char
}

/// Decimal representation of `n`, without leading zeros.
pub open spec fn decimal_spec(n: nat) -> Seq<char>
    decreases n,
{
    if n < 10 {
        seq![digit_spec(n)]
    } else {
        decimal_spec(n / 10).push(digit_spec(n % 10))
    }
}

/// `char::is_whitespace`: the `White_Space` property of Unicode.
pub open spec fn is_ws_spec(c: char) -> bool {
    let u = c as u32;
    (9 <= u && u <= 13) || u == 32 || u == 0x85 || u == 0xA0 || u == 0x1680 || (0x2000 <= u && u
        <= 0x200A) || u == 0x2028 || u == 0x2029 || u == 0x202F || u == 0x205F || u == 0x3000
}

/// Number of leading whitespace characters of `s` from index `i` on.
pub open spec fn ws_prefix_len(s: Seq<char>) -> nat
    decreases s.len(),
{
    if s.len() > 0 && is_ws_spec(s[0]) {
        1 + ws_prefix_len(s.drop_first())
    } else {
        0
    }
}

/// Number of trailing whitespace characters of `s`.
pub open spec fn ws_suffix_len(s: Seq<char>) -> nat
    decreases s.len(),
{
    if s.len() > 0 && is_ws_spec(s.last()) {
        1 + ws_suffix_len(s.drop_last())
    } else {
        0
    }
}

/// `str::trim_start`.
pub open spec fn trim_start_spec(s: Seq<char>) -> Seq<char> {
    s.skip(ws_prefix_len(s) as int)
}

/// `str::trim_end`.
pub open spec fn trim_end_spec(s: Seq<char>) -> Seq<char> {
    s.take(s.len() - ws_suffix_len(s))
}

/// `str::trim`.
pub open spec fn trim_spec(s: Seq<char>) -> Seq<char> {
    trim_end_spec(trim_start_spec(s))
}

/// `p` is a prefix of `s`.
pub open spec fn starts_with_spec(s: Seq<char>, p: Seq<char>) -> bool {
    p.len() <= s.len() && s.take(p.len() as int) == p
}

/// `p` is a suffix of `s`.
pub open spec fn ends_with_spec(s: Seq<char>, p: Seq<char>) -> bool {
    p.len() <= s.len() && s.skip(s.len() - p.len()) == p
}

/// `p` occurs in `s` at index `i`.
pub open spec fn occurs_at(s: Seq<char>, p: Seq<char>, i: int) -> bool {
    0 <= i && i + p.len() <= s.len() && s.subrange(i, i + p.len()) == p
}

/// `p` occurs somewhere in `s`.
pub open spec fn contains_spec(s: Seq<char>, p: Seq<char>) -> bool {
    exists|i: int| occurs_at(s, p, i)
}

/// `c` occurs in `s`.
pub open spec fn has_char(s: Seq<char>, c: char) -> bool {
    exists|i: int| 0 <= i < s.len() && s[i] == c
}

proof fn lemma_ws_prefix_bound(s: Seq<char>)
    ensures
        ws_prefix_len(s) <= s.len(),
        forall|i: int| 0 <= i < ws_prefix_len(s) ==> is_ws_spec(#[trigger] s[i]),
        ws_prefix_len(s) < s.len() ==> !is_ws_spec(s[ws_prefix_len(s) as int]),
    decreases s.len(),
{
    if s.len() > 0 && is_ws_spec(s[0]) {
        lemma_ws_prefix_bound(s.drop_first());
        assert forall|i: int| 0 <= i < ws_prefix_len(s) implies is_ws_spec(#[trigger] s[i]) by {
            if i > 0 {
                assert(s[i] == s.drop_first()[i - 1]);
            }
        }
    }
}

proof fn lemma_ws_suffix_bound(s: Seq<char>)
    ensures
        ws_suffix_len(s) <= s.len(),
    decreases s.len(),
{
    if s.len() > 0 && is_ws_spec(s.last()) {
        lemma_ws_suffix_bound(s.drop_last());
    }
}

// ---------------------------------------------------------------------------
// Primitives
// ---------------------------------------------------------------------------
/// Appends one character to a string (std `String::push`).
#[verifier::external_body]
pub(crate) fn push_char(s: &mut String, c: char)
    ensures
        final(s)@ == old(s)@.push(c),
{
    s.push(c);
}

/// The characters of `s`, in order.
pub fn chars_of(s: &str) -> (v: Vec<char>)
    ensures
        v@ == s@,
{
    let mut v: Vec<char> = Vec::new();
    for c in it: s.chars()
        invariant
            v@ == it.seq().take(it.index() as int),
    {
        v.push(c);
    }
    v
}

/// The string made of the characters of `v`, in order.
pub fn string_of(v: &Vec<char>) -> (s: String)
    ensures
        s@ == v@,
{
    let mut s = String::new();
    let mut i: usize = 0;
    while i < v.len()
        invariant
            i <= v.len(),
            s@ == v@.take(i as int),
        decreases v.len() - i,
    {
        push_char(&mut s, v[i]);
        i = i + 1;
        assert(s@ =~= v@.take(i as int));
    }
    assert(v@.take(v.len() as int) =~= v@);
    s
}

/// Appends all characters of `t` to `v`.
pub fn extend_chars(v: &mut Vec<char>, t: &Vec<char>)
    ensures
        final(v)@ == old(v)@ + t@,
{
    let mut i: usize = 0;
    while i < t.len()
        invariant
            i <= t.len(),
            v@ == old(v)@ + t@.take(i as int),
        decreases t.len() - i,
    {
        v.push(t[i]);
        i = i + 1;
        assert(v@ =~= old(v)@ + t@.take(i as int));
    }
    assert(t@.take(t.len() as int) =~= t@);
}

/// Appends all characters of `s` to `v`.
pub fn extend_str(v: &mut Vec<char>, s: &str)
    ensures
        final(v)@ == old(v)@ + s@,
{
    let t = chars_of(s);
    extend_chars(v, &t);
}

/// Appends `n` copies of `c` to `v`.
pub fn push_repeat(v: &mut Vec<char>, c: char, n: usize)
    ensures
        final(v)@ == old(v)@ + repeat_spec(c, n as nat),
{
    let mut i: usize = 0;
    while i < n
        invariant
            i <= n,
            v@ == old(v)@ + repeat_spec(c, i as nat),
        decreases n - i,
    {
        v.push(c);
        i = i + 1;
        assert(v@ =~= old(v)@ + repeat_spec(c, i as nat));
    }
}

/// `c` repeated `n` times.
pub fn repeat_char(c: char, n: usize) -> (s: String)
    ensures
        s@ == repeat_spec(c, n as nat),
{
    let mut v: Vec<char> = Vec::new();
    push_repeat(&mut v, c, n);
    assert(v@ =~= repeat_spec(c, n as nat));
    string_of(&v)
}

/// Appends `t` left-aligned in a field of `w` characters (`{:<w}`).
pub fn push_padded_end(v: &mut Vec<char>, t: &Vec<char>, w: usize)
    ensures
        final(v)@ == old(v)@ + pad_end_spec(t@, w as nat),
{
    extend_chars(v, t);
    if t.len() < w {
        push_repeat(v, ' ', w - t.len());
    }
    assert(v@ =~= old(v)@ + pad_end_spec(t@, w as nat));
}

/// Appends `t` right-aligned in a field of `w` characters (`{:>w}`).
pub fn push_padded_start(v: &mut Vec<char>, t: &Vec<char>, w: usize)
    ensures
        final(v)@ == old(v)@ + pad_start_spec(t@, w as nat),
{
    if t.len() < w {
        push_repeat(v, ' ', w - t.len());
    }
    extend_chars(v, t);
    assert(v@ =~= old(v)@ + pad_start_spec(t@, w as nat));
}

/// Appends the decimal representation of `n`.
pub fn push_decimal(v: &mut Vec<char>, n: u64)
    ensures
        final(v)@ == old(v)@ + decimal_spec(n as nat),
    decreases n,
{
    if n >= 10 {
        push_decimal(v, n / 10);
    }
    let d = (n % 10) as u8;
    v.push((d + 48) as char);
    assert(v@ =~= old(v)@ + decimal_spec(n as nat));
}

/// Decimal representation of `n`.
pub fn decimal(n: u64) -> (s: String)
    ensures
        s@ == decimal_spec(n as nat),
{
    let mut v: Vec<char> = Vec::new();
    push_decimal(&mut v, n);
    assert(v@ =~= decimal_spec(n as nat));
    string_of(&v)
}

/// Appends the decimal representation of `n`, zero-padded to `w` digits.
pub fn push_zero_padded(v: &mut Vec<char>, n: u64, w: usize)
    ensures
        final(v)@ == old(v)@ + zero_pad_spec(decimal_spec(n as nat), w as nat),
{
    let mut d: Vec<char> = Vec::new();
    push_decimal(&mut d, n);
    assert(d@ =~= decimal_spec(n as nat));
    if d.len() < w {
        push_repeat(v, '0', w - d.len());
    }
    extend_chars(v, &d);
    assert(v@ =~= old(v)@ + zero_pad_spec(decimal_spec(n as nat), w as nat));
}

/// Truncates `s` to `max` characters, ending in `…` when it does not fit.
pub fn truncate_chars(s: &Vec<char>, max: usize) -> (r: Vec<char>)
    ensures
        r@ == truncate_spec(s@, max as nat),
{
    if s.len() <= max {
        return s.clone();
    }
    let keep: usize = if max == 0 {
        0
    } else {
        max - 1
    };
    let mut r: Vec<char> = Vec::new();
    let mut i: usize = 0;
    while i < keep
        invariant
            keep < s.len(),
            i <= keep,
            r@ == s@.take(i as int),
        decreases keep - i,
    {
        r.push(s[i]);
        i = i + 1;
        assert(r@ =~= s@.take(i as int));
    }
    r.push('…');
    assert(r@ =~= truncate_spec(s@, max as nat));
    r
}

/// Truncates `s` to `max` characters, ending in `…` when it does not fit.
pub fn truncate(s: &str, max: usize) -> (r: String)
    ensures
        r@ == truncate_spec(s@, max as nat),
{
    let v = chars_of(s);
    let t = truncate_chars(&v, max);
    string_of(&t)
}

/// `char::is_whitespace`.
pub fn is_whitespace(c: char) -> (b: bool)
    ensures
        b == is_ws_spec(c),
{
    let u = c as u32;
    (9 <= u && u <= 13) || u == 32 || u == 0x85 || u == 0xA0 || u == 0x1680 || (0x2000 <= u && u
        <= 0x200A) || u == 0x2028 || u == 0x2029 || u == 0x202F || u == 0x205F || u == 0x3000
}

/// `str::trim_start` on a character sequence.
pub fn trim_start_chars(s: &Vec<char>) -> (r: Vec<char>)
    ensures
        r@ == trim_start_spec(s@),
{
    let mut i: usize = 0;
    assert(s@.skip(0) =~= s@);
    while i < s.len() && is_whitespace(s[i])
        invariant
            i <= s.len(),
            ws_prefix_len(s@) == i + ws_prefix_len(s@.skip(i as int)),
        decreases s.len() - i,
    {
        assert(s@.skip(i as int).drop_first() =~= s@.skip(i + 1));
        i = i + 1;
    }
    assert(ws_prefix_len(s@.skip(i as int)) == 0);
    let mut r: Vec<char> = Vec::new();
    let mut j: usize = i;
    while j < s.len()
        invariant
            i <= j <= s.len(),
            r@ == s@.subrange(i as int, j as int),
        decreases s.len() - j,
    {
        r.push(s[j]);
        j = j + 1;
        assert(r@ =~= s@.subrange(i as int, j as int));
    }
    assert(r@ =~= trim_start_spec(s@));
    r
}

/// `str::trim_end` on a character sequence.
pub fn trim_end_chars(s: &Vec<char>) -> (r: Vec<char>)
    ensures
        r@ == trim_end_spec(s@),
{
    let mut n: usize = s.len();
    assert(s@.take(n as int) =~= s@);
    while n > 0 && is_whitespace(s[n - 1])
        invariant
            n <= s.len(),
            ws_suffix_len(s@) == (s.len() - n) + ws_suffix_len(s@.take(n as int)),
        decreases n,
    {
        assert(s@.take(n as int).drop_last() =~= s@.take(n - 1));
        n = n - 1;
    }
    assert(ws_suffix_len(s@.take(n as int)) == 0);
    let mut r: Vec<char> = Vec::new();
    let mut j: usize = 0;
    while j < n
        invariant
            j <= n <= s.len(),
            r@ == s@.take(j as int),
        decreases n - j,
    {
        r.push(s[j]);
        j = j + 1;
        assert(r@ =~= s@.take(j as int));
    }
    r
}

/// `str::trim` on a character sequence.
pub fn trim_chars(s: &Vec<char>) -> (r: Vec<char>)
    ensures
        r@ == trim_spec(s@),
{
    let a = trim_start_chars(s);
    trim_end_chars(&a)
}

/// Whether `p` occurs in `s` at index `i`.
pub fn occurs_at_exec(s: &Vec<char>, p: &Vec<char>, i: usize) -> (b: bool)
    ensures
        b == occurs_at(s@, p@, i as int),
{
    if i > s.len() || p.len() > s.len() - i {
        return false;
    }
    let mut k: usize = 0;
    while k < p.len()
        invariant
            i + p.len() <= s.len(),
            k <= p.len(),
            forall|m: int| 0 <= m < k ==> s@[i + m] == p@[m],
        decreases p.len() - k,
    {
        if s[i + k] != p[k] {
            assert(s@.subrange(i as int, i + p.len())[k as int] != p@[k as int]);
            return false;
        }
        k = k + 1;
    }
    assert(s@.subrange(i as int, i + p.len()) =~= p@);
    true
}

/// Whether `s` starts with `p`.
pub fn starts_with_chars(s: &Vec<char>, p: &Vec<char>) -> (b: bool)
    ensures
        b == starts_with_spec(s@, p@),
{
    let b = occurs_at_exec(s, p, 0);
    assert(s@.subrange(0, p@.len() as int) =~= s@.take(p@.len() as int));
    b
}

/// Whether `s` ends with `p`.
pub fn ends_with_chars(s: &Vec<char>, p: &Vec<char>) -> (b: bool)
    ensures
        b == ends_with_spec(s@, p@),
{
    if p.len() > s.len() {
        return false;
    }
    let b = occurs_at_exec(s, p, s.len() - p.len());
    assert(s@.subrange(s.len() - p.len(), s.len() as int) =~= s@.skip(s.len() - p.len()));
    b
}

/// The first index at or after `from` where `p` occurs in `s`.
pub fn find_from(s: &Vec<char>, p: &Vec<char>, from: usize) -> (r: Option<usize>)
    ensures
        match r {
            Some(i) => from <= i && occurs_at(s@, p@, i as int) && forall|j: int|
                from <= j < i ==> !occurs_at(s@, p@, j),
            None => forall|j: int| from <= j ==> !occurs_at(s@, p@, j),
        },
{
    let mut i: usize = from;
    while i <= s.len()
        invariant
            from <= i,
            forall|j: int| from <= j < i ==> !occurs_at(s@, p@, j),
        decreases s.len() + 1 - i,
    {
        if occurs_at_exec(s, p, i) {
            return Some(i);
        }
        if i == s.len() {
            assert forall|j: int| from <= j implies !occurs_at(s@, p@, j) by {
                if j > i {
                    assert(!occurs_at(s@, p@, j));
                }
            }
            return None;
        }
        i = i + 1;
    }
    None
}

/// Whether `p` occurs in `s`.
pub fn contains_chars(s: &Vec<char>, p: &Vec<char>) -> (b: bool)
    ensures
        b == contains_spec(s@, p@),
{
    match find_from(s, p, 0) {
        Some(_) => true,
        None => false,
    }
}

/// Whether `c` occurs in `s`.
pub fn has_char_exec(s: &Vec<char>, c: char) -> (b: bool)
    ensures
        b == has_char(s@, c),
{
    let mut i: usize = 0;
    while i < s.len()
        invariant
            i <= s.len(),
            forall|j: int| 0 <= j < i ==> s@[j] != c,
        decreases s.len() - i,
    {
        if s[i] == c {
            return true;
        }
        i = i + 1;
    }
    false
}

} // verus!
