//! Resolution of torrent sources: which sources need a download, whether a
//! downloaded body is a torrent, looks like an HTML page, and which
//! `.torrent` links such a page holds.
use vstd::prelude::*;

use crate::ipc::join_spec;
use crate::text::{
    chars_of, contains_chars, contains_spec, ends_with_chars, ends_with_spec, is_ws_spec,
    occurs_at, occurs_at_exec, starts_with_chars, starts_with_spec, string_of, trim_chars,
    trim_spec, trim_start_chars, trim_start_spec,
};
use crate::ui::{leading_count, string_lit};
use crate::wrap::strings_view;

verus! {

// ---------------------------------------------------------------------------
// Bencode shape
// ---------------------------------------------------------------------------
pub open spec fn is_digit_byte(c: u8) -> bool {
    48 <= c <= 57
}

/// The first index at or after `p` that does not hold a decimal digit.
pub open spec fn digits_end(b: Seq<u8>, p: int) -> int
    decreases b.len() - p,
{
    if 0 <= p < b.len() && is_digit_byte(b[p]) {
        digits_end(b, p + 1)
    } else {
        p
    }
}

/// The decimal number written by the digits of `b` from `p` up to `q`.
pub open spec fn digits_val(b: Seq<u8>, p: int, q: int) -> int
    decreases q - p,
{
    if q <= p {
        0
    } else {
        digits_val(b, p, q - 1) * 10 + (b[q - 1] - 48)
    }
}

/// Where the bencode value that starts at `p` ends (the index after it),
/// if one starts there: an integer `i`, an optional sign, digits and `e`;
/// a byte string, its length in digits, `:` and that many bytes; a list `l`
/// of values up to `e`; a dictionary `d` of byte-string keys each followed
/// by a value, up to `e`.
pub open spec fn value_end_spec(b: Seq<u8>, p: int) -> Option<int>
    decreases b.len() - p, 1int,
{
    if p < 0 || p >= b.len() {
        None
    } else if b[p] == 105 {
        let s = if p + 1 < b.len() && (b[p + 1] == 45 || b[p + 1] == 43) {
            p + 2
        } else {
            p + 1
        };
        let q = digits_end(b, s);
        if q > s && q < b.len() && b[q] == 101 {
            Some(q + 1)
        } else {
            None
        }
    } else if is_digit_byte(b[p]) {
        let q = digits_end(b, p);
        if q < b.len() && b[q] == 58 && q + 1 + digits_val(b, p, q) <= b.len() {
            Some(q + 1 + digits_val(b, p, q))
        } else {
            None
        }
    } else if b[p] == 108 {
        items_end_spec(b, p + 1, false)
    } else if b[p] == 100 {
        items_end_spec(b, p + 1, true)
    } else {
        None
    }
}

/// Where the items of a list (or, with `dict`, the key/value pairs of a
/// dictionary) that start at `p` end, the closing `e` included.
pub open spec fn items_end_spec(b: Seq<u8>, p: int, dict: bool) -> Option<int>
    decreases b.len() - p, 2int,
{
    if p < 0 || p >= b.len() {
        None
    } else if b[p] == 101 {
        Some(p + 1)
    } else if dict && !is_digit_byte(b[p]) {
        None
    } else {
        match value_end_spec(b, p) {
            Some(k) => if p < k <= b.len() {
                if dict {
                    match value_end_spec(b, k) {
                        Some(v) => if k < v <= b.len() {
                            items_end_spec(b, v, dict)
                        } else {
                            None
                        },
                        None => None,
                    }
                } else {
                    items_end_spec(b, k, dict)
                }
            } else {
                None
            },
            None => None,
        }
    }
}

/// The bytes start with one complete bencode value.
pub open spec fn bencode_prefix(b: Seq<u8>) -> bool {
    value_end_spec(b, 0) is Some
}

/// A later digit never makes the number smaller.
proof fn lemma_digits_val_mono(b: Seq<u8>, p: int, i: int, j: int)
    requires
        p <= i <= j,
        forall|k: int| p <= k < j ==> is_digit_byte(#[trigger] b[k]),
    ensures
        digits_val(b, p, i) <= digits_val(b, p, j),
    decreases j - i,
{
    if i < j {
        lemma_digits_val_mono(b, p, i, j - 1);
        assert(digits_val(b, p, j) == digits_val(b, p, j - 1) * 10 + (b[j - 1] - 48));
        assert(digits_val(b, p, j - 1) >= 0) by {
            lemma_digits_val_nonneg(b, p, j - 1);
        }
    }
}

proof fn lemma_digits_val_nonneg(b: Seq<u8>, p: int, q: int)
    requires
        forall|k: int| p <= k < q ==> is_digit_byte(#[trigger] b[k]),
    ensures
        digits_val(b, p, q) >= 0,
    decreases q - p,
{
    if q > p {
        lemma_digits_val_nonneg(b, p, q - 1);
    }
}

/// Every byte from `p` to `digits_end(b, p)` is a digit, and the end is
/// within the bytes.
proof fn lemma_digits_end(b: Seq<u8>, p: int)
    requires
        0 <= p <= b.len(),
    ensures
        p <= digits_end(b, p) <= b.len(),
        forall|k: int| p <= k < digits_end(b, p) ==> is_digit_byte(#[trigger] b[k]),
    decreases b.len() - p,
{
    if p < b.len() && is_digit_byte(b[p]) {
        lemma_digits_end(b, p + 1);
    }
}

/// Index of the first non-digit at or after `p`.
fn digits_end_exec(b: &[u8], p: usize) -> (q: usize)
    requires
        p <= b@.len(),
    ensures
        q == digits_end(b@, p as int),
{
    let mut q = p;
    while q < b.len() && 48 <= b[q] && b[q] <= 57
        invariant
            p <= q <= b@.len(),
            digits_end(b@, q as int) == digits_end(b@, p as int),
        decreases b.len() - q,
    {
        q = q + 1;
    }
    q
}

/// The number written by the digits from `p` to `q`, if it is at most
/// `limit`.
fn digits_value_upto(b: &[u8], p: usize, q: usize, limit: usize) -> (r: Option<usize>)
    requires
        p <= q <= b@.len(),
        forall|k: int| p <= k < q ==> is_digit_byte(#[trigger] b@[k]),
    ensures
        r matches Some(v) ==> v == digits_val(b@, p as int, q as int) && v <= limit,
        r is None ==> digits_val(b@, p as int, q as int) > limit,
{
    let mut acc: usize = 0;
    let mut i = p;
    while i < q
        invariant
            p <= i <= q <= b@.len(),
            forall|k: int| p <= k < q ==> is_digit_byte(#[trigger] b@[k]),
            acc == digits_val(b@, p as int, i as int),
            acc <= limit,
        decreases q - i,
    {
        let d: usize = (b[i] - 48) as usize;
        assert(is_digit_byte(b@[i as int]));
        assert(digits_val(b@, p as int, i + 1) == acc * 10 + d);
        if limit < d || acc > (limit - d) / 10 {
            proof {
                assert(acc * 10 + d > limit) by (nonlinear_arith)
                    requires
                        limit < d || acc > (limit - d) / 10,
                        d <= 9,
                ;
                lemma_digits_val_mono(b@, p as int, i + 1, q as int);
            }
            return None;
        }
        assert(acc * 10 + d <= limit) by (nonlinear_arith)
            requires
                d <= limit,
                acc <= (limit - d) / 10,
        ;
        acc = acc * 10 + d;
        i = i + 1;
    }
    Some(acc)
}

/// Where the bencode value that starts at `p` ends, if one starts there.
pub fn value_end(b: &[u8], p: usize) -> (r: Option<usize>)
    requires
        p <= b@.len(),
    ensures
        match r {
            Some(e) => value_end_spec(b@, p as int) == Some(e as int),
            None => value_end_spec(b@, p as int) is None,
        },
    decreases b@.len() - p, 1int,
{
    if p >= b.len() {
        return None;
    }
    let c = b[p];
    if c == 105 {
        let s: usize = if p + 1 < b.len() && (b[p + 1] == 45 || b[p + 1] == 43) {
            p + 2
        } else {
            p + 1
        };
        let q = digits_end_exec(b, s);
        if q > s && q < b.len() && b[q] == 101 {
            Some(q + 1)
        } else {
            None
        }
    } else if 48 <= c && c <= 57 {
        let q = digits_end_exec(b, p);
        proof {
            lemma_digits_end(b@, p as int);
        }
        if q < b.len() && b[q] == 58 {
            let room: usize = b.len() - (q + 1);
            match digits_value_upto(b, p, q, room) {
                Some(n) => Some(q + 1 + n),
                None => None,
            }
        } else {
            None
        }
    } else if c == 108 {
        items_end(b, p + 1, false)
    } else if c == 100 {
        items_end(b, p + 1, true)
    } else {
        None
    }
}

/// Where the items (or key/value pairs) that start at `p` end, the closing
/// `e` included.
pub fn items_end(b: &[u8], p: usize, dict: bool) -> (r: Option<usize>)
    requires
        p <= b@.len(),
    ensures
        match r {
            Some(e) => items_end_spec(b@, p as int, dict) == Some(e as int),
            None => items_end_spec(b@, p as int, dict) is None,
        },
    decreases b@.len() - p, 2int,
{
    if p >= b.len() {
        return None;
    }
    if b[p] == 101 {
        return Some(p + 1);
    }
    if dict && !(48 <= b[p] && b[p] <= 57) {
        return None;
    }
    match value_end(b, p) {
        Some(k) => {
            if !(p < k && k <= b.len()) {
                return None;
            }
            if dict {
                match value_end(b, k) {
                    Some(v) => {
                        if k < v && v <= b.len() {
                            items_end(b, v, dict)
                        } else {
                            None
                        }
                    },
                    None => None,
                }
            } else {
                items_end(b, k, dict)
            }
        },
        None => None,
    }
}

/// Whether the bytes start with one complete bencode value.
pub fn is_bencode_prefix(b: &[u8]) -> (ok: bool)
    ensures
        ok == bencode_prefix(b@),
{
    value_end(b, 0).is_some()
}

// ---------------------------------------------------------------------------
// Outside computations
// ---------------------------------------------------------------------------
/// Whether librqbit decodes the bytes as a torrent (bencode with a
/// computable info hash).
pub uninterp spec fn torrent_parses(bytes: Seq<u8>) -> bool;

/// `librqbit::torrent_from_bytes_ext::<ByteBuf>(bytes).is_ok()`: a function
/// of the bytes alone. Its bencode reader indexes the first byte of an empty
/// buffer when a value is missing at the end, so it is called only on bytes
/// that start with one complete bencode value.
#[verifier::external_body]
fn librqbit_parses(bytes: &[u8]) -> (ok: bool)
    requires
        bencode_prefix(bytes@),
    ensures
        ok == torrent_parses(bytes@),
{
    librqbit::torrent_from_bytes_ext::<librqbit::ByteBuf>(bytes).is_ok()
}

/// The text `String::from_utf8_lossy` makes of the bytes.
pub uninterp spec fn utf8_lossy(bytes: Seq<u8>) -> Seq<char>;

/// `String::from_utf8_lossy`: a function of the bytes alone.
#[verifier::external_body]
fn from_utf8_lossy(bytes: &[u8]) -> (s: String)
    ensures
        s@ == utf8_lossy(bytes@),
{
    String::from_utf8_lossy(bytes).into_owned()
}

/// The text `str::to_lowercase` makes of `s`.
pub uninterp spec fn lowercase(s: Seq<char>) -> Seq<char>;

/// `str::to_lowercase`: a function of the text alone.
#[verifier::external_body]
fn to_lowercase(s: &str) -> (r: String)
    ensures
        r@ == lowercase(s@),
{
    s.to_lowercase()
}

/// The serialization of the URL `url::Url::parse` makes of `s`, if it
/// parses.
pub uninterp spec fn url_parse_text(s: Seq<char>) -> Option<Seq<char>>;

/// `url::Url::parse(s)`, as the serialization of the result: a function of
/// the text alone.
#[verifier::external_body]
fn url_parse(s: &str) -> (r: Option<String>)
    ensures
        r matches Some(u) ==> url_parse_text(s@) == Some(u@),
        r is None ==> url_parse_text(s@) is None,
{
    match url::Url::parse(s) {
        Ok(u) => Some(u.as_str().to_string()),
        Err(_) => None,
    }
}

/// The serialization of `value` resolved against the URL `base` (given by
/// its serialization) with `url::Url::join`, if that succeeds.
pub uninterp spec fn url_join_text(base: Seq<char>, value: Seq<char>) -> Option<Seq<char>>;

/// `url::Url::parse(base)?.join(value)`, as the serialization of the
/// result: a function of the two texts alone.
#[verifier::external_body]
fn url_join(base: &str, value: &str) -> (r: Option<String>)
    ensures
        r matches Some(u) ==> url_join_text(base@, value@) == Some(u@),
        r is None ==> url_join_text(base@, value@) is None,
{
    match url::Url::parse(base) {
        Ok(b) => match b.join(value) {
            Ok(u) => Some(u.as_str().to_string()),
            Err(_) => None,
        },
        Err(_) => None,
    }
}

/// The bytes are a torrent librqbit can add: they start with a complete
/// bencode value and librqbit decodes them.
pub open spec fn torrent_valid_spec(bytes: Seq<u8>) -> bool {
    bencode_prefix(bytes) && torrent_parses(bytes)
}

/// Whether the bytes are a torrent librqbit can add; bytes that do not start
/// with a complete bencode value are not.
pub fn is_valid_torrent(bytes: &[u8]) -> (ok: bool)
    ensures
        ok == torrent_valid_spec(bytes@),
{
    if !is_bencode_prefix(bytes) {
        return false;
    }
    librqbit_parses(bytes)
}

// ---------------------------------------------------------------------------
// Kinds of sources and bodies
// ---------------------------------------------------------------------------
/// An `http://` or `https://` source must be downloaded first; anything else
/// (magnet, info hash, local path) goes to librqbit as it is.
pub open spec fn is_http_spec(source: Seq<char>) -> bool {
    starts_with_spec(source, "http://"@) || starts_with_spec(source, "https://"@)
}

/// Whether the source is an http(s) URL to download.
pub fn is_http_source(source: &str) -> (b: bool)
    ensures
        b == is_http_spec(source@),
{
    let s = chars_of(source);
    starts_with_chars(&s, &chars_of("http://")) || starts_with_chars(&s, &chars_of("https://"))
}

/// The body looks like an HTML page: its first 8 KiB (read as UTF-8,
/// lossily) start with `<!doctype`, `<html` or `</html` once lowercased and stripped of
/// leading whitespace, or contain `<body`, `<a `, `window.location` or
/// `location.href`.
pub open spec fn looks_like_html_spec(body: Seq<u8>) -> bool {
    let n = if body.len() < 8192 {
        body.len() as int
    } else {
        8192
    };
    let head = utf8_lossy(body.take(n));
    let lower = trim_start_spec(lowercase(head));
    starts_with_spec(lower, "<!doctype"@) || starts_with_spec(lower, "<html"@) || starts_with_spec(
        lower,
        "</html"@,
    ) || contains_spec(
        head,
        "<body"@,
    ) || contains_spec(head, "<a "@) || contains_spec(head, "window.location"@) || contains_spec(
        head,
        "location.href"@,
    )
}

/// Whether the body looks like an HTML page.
pub fn looks_like_html(body: &[u8]) -> (b: bool)
    ensures
        b == looks_like_html_spec(body@),
{
    let n: usize = if body.len() < 8192 {
        body.len()
    } else {
        8192
    };
    let mut head_bytes: Vec<u8> = Vec::new();
    let mut i: usize = 0;
    while i < n
        invariant
            i <= n,
            n <= body@.len(),
            head_bytes@ == body@.take(i as int),
        decreases n - i,
    {
        head_bytes.push(body[i]);
        i = i + 1;
        assert(head_bytes@ =~= body@.take(i as int));
    }
    let head = from_utf8_lossy(head_bytes.as_slice());
    let lower = to_lowercase(head.as_str());
    let lower_t = trim_start_chars(&chars_of(lower.as_str()));
    let h = chars_of(head.as_str());
    starts_with_chars(&lower_t, &chars_of("<!doctype")) || starts_with_chars(
        &lower_t,
        &chars_of("<html"),
    ) || starts_with_chars(&lower_t, &chars_of("</html")) || contains_chars(&h, &chars_of("<body")) || contains_chars(&h, &chars_of("<a "))
        || contains_chars(&h, &chars_of("window.location")) || contains_chars(
        &h,
        &chars_of("location.href"),
    )
}

// ---------------------------------------------------------------------------
// Values after markers
// ---------------------------------------------------------------------------
/// The first occurrence of `m` in `h` at index `from` or later.
pub open spec fn find_from_spec(h: Seq<char>, m: Seq<char>, from: int) -> Option<int>
    decreases h.len() + 1 - from,
{
    if from < 0 || from + m.len() > h.len() {
        None
    } else if occurs_at(h, m, from) {
        Some(from)
    } else {
        find_from_spec(h, m, from + 1)
    }
}

/// A character that ends a value: a quote, `>`, `<`, a line break, a space
/// or `;`.
pub open spec fn is_delimiter(c: char) -> bool {
    c == '"' || c == '\'' || c == '>' || c == '<' || c == '\n' || c == '\r' || c == ' ' || c == ';'
}

/// Number of characters before the first delimiter of `s`.
pub open spec fn value_len(s: Seq<char>) -> nat
    decreases s.len(),
{
    if s.len() == 0 || is_delimiter(s[0]) {
        0
    } else {
        1 + value_len(s.drop_first())
    }
}

/// Number of leading quotes (`"` or `'`) of `s`.
pub open spec fn quotes_len(s: Seq<char>) -> nat
    decreases s.len(),
{
    if s.len() > 0 && (s[0] == '"' || s[0] == '\'') {
        1 + quotes_len(s.drop_first())
    } else {
        0
    }
}

/// The value that starts at index `start` of `h`: opening quotes skipped,
/// up to the next delimiter, trimmed.
pub open spec fn value_at(h: Seq<char>, start: int) -> Seq<char> {
    let rest = h.skip(start);
    let rest2 = rest.skip(quotes_len(rest) as int);
    trim_spec(rest2.take(value_len(rest2) as int))
}

/// The non-empty values after each occurrence of `m` found from `from` on;
/// the search resumes one character after the end of each occurrence.
pub open spec fn values_from(h: Seq<char>, m: Seq<char>, from: int) -> Seq<Seq<char>>
    decreases h.len() + 2 - from,
{
    if m.len() == 0 || from < 0 {
        Seq::empty()
    } else {
        match find_from_spec(h, m, from) {
            None => Seq::empty(),
            Some(i) => {
                proof {
                    lemma_find_from_range(h, m, from);
                }
                let start = i + m.len();
                let v = value_at(h, start);
                if start + 1 > h.len() + 1 {
                    Seq::empty()
                } else {
                    (if v.len() > 0 {
                        seq![v]
                    } else {
                        Seq::empty()
                    }) + values_from(h, m, start + 1)
                }
            },
        }
    }
}

pub proof fn lemma_find_from_range(h: Seq<char>, m: Seq<char>, from: int)
    ensures
        find_from_spec(h, m, from) matches Some(i) ==> from <= i && i + m.len() <= h.len() && occurs_at(h, m, i),
    decreases h.len() + 1 - from,
{
    if !(from < 0 || from + m.len() > h.len()) && !occurs_at(h, m, from) {
        lemma_find_from_range(h, m, from + 1);
    }
}

/// The first occurrence of `m` in `h` from `from` on.
fn find_from_exec(h: &Vec<char>, m: &Vec<char>, from: usize) -> (r: Option<usize>)
    ensures
        r matches Some(i) ==> find_from_spec(h@, m@, from as int) == Some(i as int),
        r is None ==> find_from_spec(h@, m@, from as int) is None,
{
    if m.len() > h.len() {
        return None;
    }
    let last = h.len() - m.len();
    let mut k = from;
    while k <= last
        invariant
            from <= k,
            last == h@.len() - m@.len(),
            find_from_spec(h@, m@, from as int) == find_from_spec(h@, m@, k as int),
        decreases last + 1 - k,
    {
        if occurs_at_exec(h, m, k) {
            return Some(k);
        }
        if k == last {
            assert(find_from_spec(h@, m@, (k + 1) as int) is None);
            return None;
        }
        k = k + 1;
    }
    None
}

/// Number of leading quotes.
fn quotes_len_exec(s: &Vec<char>, from: usize) -> (n: usize)
    requires
        from <= s@.len(),
    ensures
        n == quotes_len(s@.skip(from as int)),
        from + n <= s@.len(),
    decreases s.len() - from,
{
    if from < s.len() && (s[from] == '"' || s[from] == '\'') {
        assert(s@.skip(from as int).drop_first() =~= s@.skip(from + 1));
        1 + quotes_len_exec(s, from + 1)
    } else {
        0
    }
}

/// Number of characters before the first delimiter.
fn value_len_exec(s: &Vec<char>, from: usize) -> (n: usize)
    requires
        from <= s@.len(),
    ensures
        n == value_len(s@.skip(from as int)),
        from + n <= s@.len(),
    decreases s.len() - from,
{
    if from < s.len() && !(s[from] == '"' || s[from] == '\'' || s[from] == '>' || s[from] == '<'
        || s[from] == '\n' || s[from] == '\r' || s[from] == ' ' || s[from] == ';') {
        assert(s@.skip(from as int).drop_first() =~= s@.skip(from + 1));
        1 + value_len_exec(s, from + 1)
    } else {
        0
    }
}

/// The value starting at index `start`.
fn value_at_exec(h: &Vec<char>, start: usize) -> (v: Vec<char>)
    requires
        start <= h@.len(),
    ensures
        v@ == value_at(h@, start as int),
{
    let q = quotes_len_exec(h, start);
    assert(start + q <= h.len());
    let b = start + q;
    let n = value_len_exec(h, b);
    assert(b + n <= h.len());
    let mut raw: Vec<char> = Vec::new();
    let mut k: usize = 0;
    while k < n
        invariant
            k <= n,
            b + n <= h@.len(),
            h@.len() == h.len(),
            raw@ == h@.subrange(b as int, b + k),
        decreases n - k,
    {
        raw.push(h[b + k]);
        k = k + 1;
        assert(raw@ =~= h@.subrange(b as int, b + k));
    }
    proof {
        let rest = h@.skip(start as int);
        assert(rest.skip(q as int) =~= h@.skip(b as int));
        assert(h@.skip(b as int).take(n as int) =~= raw@);
    }
    trim_chars(&raw)
}

/// The values written after each occurrence of `marker` in `html` (URL
/// attributes and assignments): opening quotes skipped, up to a quote,
/// `>`, `<`, line break, space or `;`, trimmed; empty ones left out. The
/// search resumes one whole character after each occurrence and stops at
/// the end of the page.
pub fn value_after_marker(html: &str, marker: &str) -> (out: Vec<String>)
    requires
        marker@.len() > 0,
    ensures
        strings_view(out@) == values_from(html@, marker@, 0),
{
    let h = chars_of(html);
    let m = chars_of(marker);
    let mut out: Vec<String> = Vec::new();
    let mut from: usize = 0;
    let ghost target = values_from(h@, m@, 0);
    while from <= h.len()
        invariant
            m@.len() > 0,
            h@ == html@,
            m@ == marker@,
            target == values_from(html@, marker@, 0),
            strings_view(out@) + values_from(h@, m@, from as int) == target,
        decreases h.len() + 1 - from,
    {
        let ghost before = strings_view(out@);
        match find_from_exec(&h, &m, from) {
            None => {
                assert(values_from(h@, m@, from as int) =~= Seq::<Seq<char>>::empty());
                assert(strings_view(out@) =~= target);
                return out;
            },
            Some(i) => {
                proof {
                    lemma_find_from_range(h@, m@, from as int);
                }
                let start = i + m.len();
                let v = value_at_exec(&h, start);
                if v.len() > 0 {
                    out.push(string_of(&v));
                    assert(strings_view(out@) =~= before.push(v@));
                }
                assert(strings_view(out@) + values_from(h@, m@, start + 1) =~= target);
                if start == h.len() {
                    assert(values_from(h@, m@, start + 1) =~= Seq::<Seq<char>>::empty()) by {
                        lemma_find_from_range(h@, m@, start + 1);
                    }
                    assert(strings_view(out@) =~= target);
                    return out;
                }
                from = start + 1;
            },
        }
    }
    assert(values_from(h@, m@, from as int) =~= Seq::<Seq<char>>::empty()) by {
        lemma_find_from_range(h@, m@, from as int);
    }
    assert(strings_view(out@) =~= target);
    out
}

// ---------------------------------------------------------------------------
// Links of a download page
// ---------------------------------------------------------------------------
/// The markers after which a page writes a URL, in search order.
pub open spec fn markers_spec() -> Seq<Seq<char>> {
    seq![
        "window.location = "@,
        "window.location="@,
        "location.href = "@,
        "location.href="@,
        "href=\""@,
        "href='"@,
        "href="@,
    ]
}

/// The markers, in search order.
fn markers() -> (v: Vec<&'static str>)
    ensures
        v@.len() == markers_spec().len(),
        forall|i: int| 0 <= i < v@.len() ==> (#[trigger] v@[i])@ == markers_spec()[i] && v@[i]@.len() > 0,
{
    proof {
        reveal_strlit("window.location = ");
        reveal_strlit("window.location=");
        reveal_strlit("location.href = ");
        reveal_strlit("location.href=");
        reveal_strlit("href=\"");
        reveal_strlit("href='");
        reveal_strlit("href=");
    }
    let mut v: Vec<&'static str> = Vec::new();
    v.push("window.location = ");
    v.push("window.location=");
    v.push("location.href = ");
    v.push("location.href=");
    v.push("href=\"");
    v.push("href='");
    v.push("href=");
    v
}

/// The values after every marker, marker by marker.
pub open spec fn page_values(html: Seq<char>, k: int) -> Seq<Seq<char>>
    decreases k,
{
    if k <= 0 {
        Seq::empty()
    } else {
        page_values(html, k - 1) + values_from(html, markers_spec()[k - 1], 0)
    }
}

/// A value resolved to a URL: parsed when absolute (it holds `://`), else
/// joined to the page's URL.
pub open spec fn resolve_candidate_spec(value: Seq<char>, base: Seq<char>) -> Option<Seq<char>> {
    if contains_spec(value, "://"@) {
        url_parse_text(value)
    } else {
        url_join_text(base, value)
    }
}

/// The value resolved against the page's URL `base` (its serialization).
pub fn resolve_candidate(value: &str, base: &str) -> (r: Option<String>)
    ensures
        r matches Some(u) ==> resolve_candidate_spec(value@, base@) == Some(u@),
        r is None ==> resolve_candidate_spec(value@, base@) is None,
{
    if contains_chars(&chars_of(value), &chars_of("://")) {
        url_parse(value)
    } else {
        url_join(base, value)
    }
}

/// The values that resolve to URLs, resolved, in order.
pub open spec fn resolved_values(values: Seq<Seq<char>>, base: Seq<char>) -> Seq<Seq<char>>
    decreases values.len(),
{
    if values.len() == 0 {
        Seq::empty()
    } else {
        let prev = resolved_values(values.drop_last(), base);
        match resolve_candidate_spec(values.last(), base) {
            Some(u) => prev.push(u),
            None => prev,
        }
    }
}

/// The URLs that end in `.torrent`, each once, in order of first appearance.
pub open spec fn torrent_links(urls: Seq<Seq<char>>) -> Seq<Seq<char>>
    decreases urls.len(),
{
    if urls.len() == 0 {
        Seq::empty()
    } else {
        let prev = torrent_links(urls.drop_last());
        let u = urls.last();
        if ends_with_spec(u, ".torrent"@) && !prev.contains(u) {
            prev.push(u)
        } else {
            prev
        }
    }
}

/// The `.torrent` links of a page whose URL is `base`.
pub open spec fn extract_torrent_links_spec(html: Seq<char>, base: Seq<char>) -> Seq<Seq<char>> {
    torrent_links(resolved_values(page_values(html, markers_spec().len() as int), base))
}

/// Whether `v` holds `s`.
fn contains_string(v: &Vec<String>, s: &str) -> (b: bool)
    ensures
        b == strings_view(v@).contains(s@),
{
    let mut i: usize = 0;
    while i < v.len()
        invariant
            i <= v@.len(),
            forall|j: int| 0 <= j < i ==> v@[j]@ != s@,
        decreases v.len() - i,
    {
        if crate::library::chars_equal(v[i].as_str(), s) {
            assert(strings_view(v@)[i as int] == s@);
            return true;
        }
        i = i + 1;
    }
    assert forall|j: int| 0 <= j < strings_view(v@).len() implies strings_view(v@)[j] != s@ by {
        assert(strings_view(v@)[j] == v@[j]@);
    }
    false
}

/// The `.torrent` links of a download page: the values written after
/// `window.location`, `location.href` and `href` (in that order of
/// markers), resolved against the page's URL `base`, those ending in
/// `.torrent`, each once.
pub fn extract_torrent_links(html: &str, base: &str) -> (links: Vec<String>)
    ensures
        strings_view(links@) == extract_torrent_links_spec(html@, base@),
{
    let ms = markers();
    let mut values: Vec<String> = Vec::new();
    let mut k: usize = 0;
    while k < ms.len()
        invariant
            k <= ms@.len(),
            ms@.len() == markers_spec().len(),
            forall|i: int| 0 <= i < ms@.len() ==> (#[trigger] ms@[i])@ == markers_spec()[i] && ms@[i]@.len() > 0,
            strings_view(values@) == page_values(html@, k as int),
        decreases ms.len() - k,
    {
        let ghost before = strings_view(values@);
        let vs = value_after_marker(html, ms[k]);
        let mut j: usize = 0;
        while j < vs.len()
            invariant
                j <= vs@.len(),
                strings_view(values@) == before + strings_view(vs@).take(j as int),
            decreases vs.len() - j,
        {
            let ghost b2 = strings_view(values@);
            values.push(vs[j].clone());
            assert(strings_view(values@) =~= b2.push(vs@[j as int]@));
            j = j + 1;
            assert(strings_view(vs@).take(j as int) =~= strings_view(vs@).take(j - 1).push(vs@[j - 1]@));
        }
        assert(strings_view(vs@).take(vs@.len() as int) =~= strings_view(vs@));
        k = k + 1;
    }
    let ghost vals = strings_view(values@);
    let mut urls: Vec<String> = Vec::new();
    let mut i: usize = 0;
    while i < values.len()
        invariant
            i <= values@.len(),
            vals == strings_view(values@),
            strings_view(urls@) == resolved_values(vals.take(i as int), base@),
        decreases values.len() - i,
    {
        let ghost b2 = strings_view(urls@);
        proof {
            assert(vals.take(i + 1).drop_last() =~= vals.take(i as int));
            assert(vals.take(i + 1).last() == values@[i as int]@);
        }
        match resolve_candidate(values[i].as_str(), base) {
            Some(u) => {
                urls.push(u);
                assert(strings_view(urls@) =~= b2.push(urls@.last()@));
            },
            None => {},
        }
        i = i + 1;
    }
    assert(vals.take(vals.len() as int) =~= vals);
    let ghost us = strings_view(urls@);
    let mut links: Vec<String> = Vec::new();
    let mut n: usize = 0;
    while n < urls.len()
        invariant
            n <= urls@.len(),
            us == strings_view(urls@),
            strings_view(links@) == torrent_links(us.take(n as int)),
        decreases urls.len() - n,
    {
        let ghost b2 = strings_view(links@);
        proof {
            assert(us.take(n + 1).drop_last() =~= us.take(n as int));
            assert(us.take(n + 1).last() == urls@[n as int]@);
        }
        let u = urls[n].as_str();
        if ends_with_chars(&chars_of(u), &chars_of(".torrent")) && !contains_string(&links, u) {
            links.push(urls[n].clone());
            assert(strings_view(links@) =~= b2.push(urls@[n as int]@));
        }
        n = n + 1;
    }
    assert(us.take(us.len() as int) =~= us);
    links
}

/// What a downloaded body is.
#[derive(Clone, Debug)]
pub enum BodyKind {
    /// A torrent librqbit can add.
    Torrent,
    /// Neither a torrent nor an HTML page: `resposta não é um torrent`.
    NotTorrent,
    /// An HTML page and its `.torrent` links, to download in order.
    Page(Vec<String>),
}

/// What the body downloaded from `base` is: a torrent, a page with its
/// `.torrent` links, or neither.
pub fn classify_body(body: &[u8], base: &str) -> (k: BodyKind)
    ensures
        torrent_valid_spec(body@) ==> k is Torrent,
        !torrent_valid_spec(body@) && !looks_like_html_spec(body@) ==> k is NotTorrent,
        !torrent_valid_spec(body@) && looks_like_html_spec(body@) ==> (k matches BodyKind::Page(links)
            && strings_view(links@) == extract_torrent_links_spec(utf8_lossy(body@), base@)),
{
    if is_valid_torrent(body) {
        return BodyKind::Torrent;
    }
    if !looks_like_html(body) {
        return BodyKind::NotTorrent;
    }
    let html = from_utf8_lossy(body);
    BodyKind::Page(extract_torrent_links(html.as_str(), base))
}

/// The `.torrent` links taken from a list of candidates: each is a
/// candidate ending in `.torrent`, every such candidate is among them, none
/// comes twice, and they keep the order in which they first appear: of two
/// links, the earlier one occurs among the candidates before any occurrence
/// of the later one.
pub proof fn lemma_torrent_links_first_appearance(urls: Seq<Seq<char>>)
    ensures
        ({
            let links = torrent_links(urls);
            &&& forall|a: int| 0 <= a < links.len() ==> ends_with_spec(#[trigger] links[a], ".torrent"@)
                && urls.contains(links[a])
            &&& forall|u: Seq<char>| #[trigger] urls.contains(u) && ends_with_spec(u, ".torrent"@) ==> links.contains(u)
            &&& forall|a: int, b: int| 0 <= a < b < links.len() ==> #[trigger] links[a] != #[trigger] links[b]
            &&& forall|a: int, b: int|
                #![trigger links[a], links[b]]
                0 <= a < b < links.len() ==> exists|i: int|
                    0 <= i < urls.len() && #[trigger] urls[i] == links[a] && forall|j: int|
                        0 <= j <= i ==> urls[j] != links[b]
        }),
    decreases urls.len(),
{
    if urls.len() > 0 {
        let prev_urls = urls.drop_last();
        let u = urls.last();
        let prev = torrent_links(prev_urls);
        let links = torrent_links(urls);
        lemma_torrent_links_first_appearance(prev_urls);
        assert forall|i: int| 0 <= i < prev_urls.len() implies #[trigger] prev_urls[i] == urls[i] by {}
        assert forall|x: Seq<char>| #[trigger] prev_urls.contains(x) implies urls.contains(x) by {
            let i = choose|i: int| 0 <= i < prev_urls.len() && prev_urls[i] == x;
            assert(urls[i] == x);
        }
        assert(urls.contains(u)) by {
            assert(urls[urls.len() - 1] == u);
        }
        if ends_with_spec(u, ".torrent"@) && !prev.contains(u) {
            assert(links == prev.push(u));
            assert(!prev_urls.contains(u));
            assert forall|a: int| 0 <= a < links.len() implies ends_with_spec(#[trigger] links[a], ".torrent"@)
                && urls.contains(links[a]) by {
                if a < prev.len() {
                    assert(links[a] == prev[a]);
                }
            }
            assert forall|x: Seq<char>| #[trigger] urls.contains(x) && ends_with_spec(x, ".torrent"@)
                implies links.contains(x) by {
                let i = choose|i: int| 0 <= i < urls.len() && urls[i] == x;
                if i < urls.len() - 1 {
                    assert(prev_urls[i] == x);
                    assert(prev_urls.contains(x));
                    let a = choose|a: int| 0 <= a < prev.len() && prev[a] == x;
                    assert(links[a] == x);
                } else {
                    assert(links[links.len() - 1] == x);
                }
            }
            assert forall|a: int, b: int| 0 <= a < b < links.len() implies #[trigger] links[a]
                != #[trigger] links[b] by {
                if b < prev.len() {
                    assert(links[a] == prev[a] && links[b] == prev[b]);
                } else {
                    assert(links[a] == prev[a]);
                    assert(prev.contains(prev[a]));
                }
            }
            assert forall|a: int, b: int|
                #![trigger links[a], links[b]]
                0 <= a < b < links.len() implies exists|i: int|
                0 <= i < urls.len() && #[trigger] urls[i] == links[a] && forall|j: int|
                    0 <= j <= i ==> urls[j] != links[b] by {
                assert(links[a] == prev[a]);
                if b < prev.len() {
                    assert(links[b] == prev[b]);
                    let i = choose|i: int|
                        0 <= i < prev_urls.len() && #[trigger] prev_urls[i] == prev[a]
                            && forall|j: int| 0 <= j <= i ==> prev_urls[j] != prev[b];
                    assert(urls[i] == links[a]);
                    assert forall|j: int| 0 <= j <= i implies urls[j] != links[b] by {
                        assert(prev_urls[j] == urls[j]);
                    }
                } else {
                    assert(links[b] == u);
                    assert(prev_urls.contains(prev[a]));
                    let i = choose|i: int| 0 <= i < prev_urls.len() && prev_urls[i] == prev[a];
                    assert(urls[i] == links[a]);
                    assert forall|j: int| 0 <= j <= i implies urls[j] != links[b] by {
                        assert(prev_urls[j] == urls[j]);
                        if urls[j] == u {
                            assert(prev_urls.contains(u));
                        }
                    }
                }
            }
        } else {
            assert(links == prev);
            assert forall|x: Seq<char>| #[trigger] urls.contains(x) && ends_with_spec(x, ".torrent"@)
                implies links.contains(x) by {
                let i = choose|i: int| 0 <= i < urls.len() && urls[i] == x;
                if i < urls.len() - 1 {
                    assert(prev_urls[i] == x);
                    assert(prev_urls.contains(x));
                } else {
                    assert(x == u);
                }
            }
            assert forall|a: int, b: int|
                #![trigger links[a], links[b]]
                0 <= a < b < links.len() implies exists|i: int|
                0 <= i < urls.len() && #[trigger] urls[i] == links[a] && forall|j: int|
                    0 <= j <= i ==> urls[j] != links[b] by {
                let i = choose|i: int|
                    0 <= i < prev_urls.len() && #[trigger] prev_urls[i] == prev[a] && forall|j: int|
                        0 <= j <= i ==> prev_urls[j] != prev[b];
                assert(urls[i] == links[a]);
                assert forall|j: int| 0 <= j <= i implies urls[j] != links[b] by {
                    assert(prev_urls[j] == urls[j]);
                }
            }
        }
    }
}

/// The links of a download page are its candidates (the values after each
/// marker, in marker order, resolved against the page's URL) that end in
/// `.torrent`, each once, in the order in which they first appear; the
/// first link is the first such candidate.
pub proof fn lemma_page_links_order(html: Seq<char>, base: Seq<char>)
    ensures
        ({
            let candidates = resolved_values(page_values(html, markers_spec().len() as int), base);
            let links = extract_torrent_links_spec(html, base);
            &&& links == torrent_links(candidates)
            &&& forall|a: int, b: int|
                #![trigger links[a], links[b]]
                0 <= a < b < links.len() ==> exists|i: int|
                    0 <= i < candidates.len() && #[trigger] candidates[i] == links[a]
                        && forall|j: int| 0 <= j <= i ==> candidates[j] != links[b]
        }),
{
    let candidates = resolved_values(page_values(html, markers_spec().len() as int), base);
    lemma_torrent_links_first_appearance(candidates);
}

} // verus!
