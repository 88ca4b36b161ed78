//! Webseed downloads (HTTP seeding from the GetRight bases of a torrent's
//! `url-list`): which bases qualify, the URL of each file, what to do with
//! each file, the checks on each HTTP response, and the progress of a task.
use vstd::prelude::*;

use crate::ipc::WebseedSnapshot;
use crate::resolve::url_parse_text;
use crate::text::{chars_of, decimal_spec, extend_chars, extend_str, push_decimal, string_of};
use crate::ui::string_lit;
use crate::wrap::strings_view;

verus! {

// ---------------------------------------------------------------------------
// Bases
// ---------------------------------------------------------------------------
/// A GetRight base is a URL that ends with `/`.
pub open spec fn is_getright_base(url: Seq<char>) -> bool {
    url.len() > 0 && url.last() == '/'
}

/// The GetRight bases among `urls`, in their order.
pub open spec fn getright_filter(urls: Seq<Seq<char>>) -> Seq<Seq<char>>
    decreases urls.len(),
{
    if urls.len() == 0 {
        seq![]
    } else {
        let rest = getright_filter(urls.drop_last());
        if is_getright_base(urls.last()) {
            rest.push(urls.last())
        } else {
            rest
        }
    }
}

/// The GetRight bases of a `url-list` (`None` when the field is absent):
/// `None` when no URL qualifies, so that the torrent goes to the peers.
pub fn getright_bases(url_list: Option<Vec<String>>) -> (r: Option<Vec<String>>)
    ensures
        match url_list {
            None => r is None,
            Some(urls) => {
                let f = getright_filter(strings_view(urls@));
                if f.len() == 0 {
                    r is None
                } else {
                    r matches Some(b) && strings_view(b@) == f
                }
            },
        },
{
    let urls = match url_list {
        None => return None,
        Some(urls) => urls,
    };
    let mut bases: Vec<String> = Vec::new();
    let mut i: usize = 0;
    while i < urls.len()
        invariant
            i <= urls.len(),
            strings_view(bases@) == getright_filter(strings_view(urls@).take(i as int)),
        decreases urls.len() - i,
    {
        let u = &urls[i];
        let cs = chars_of(u.as_str());
        proof {
            assert(strings_view(urls@).take(i + 1).drop_last() =~= strings_view(urls@).take(
                i as int,
            ));
            assert(strings_view(urls@).take(i + 1).last() == u@);
        }
        if cs.len() > 0 && cs[cs.len() - 1] == '/' {
            let ghost before = strings_view(bases@);
            bases.push(u.clone());
            assert(strings_view(bases@) =~= before.push(u@));
        }
        i = i + 1;
    }
    assert(strings_view(urls@).take(urls.len() as int) =~= strings_view(urls@));
    if bases.len() == 0 {
        None
    } else {
        Some(bases)
    }
}

// ---------------------------------------------------------------------------
// Files and their URLs
// ---------------------------------------------------------------------------
/// What a webseed task downloads from: its GetRight bases, in the order of
/// the `url-list`, and the torrent's name (the subfolder of a multi-file
/// torrent, the file itself of a single-file one).
#[derive(Clone, Debug)]
pub struct WebseedConfig {
    pub bases: Vec<String>,
    pub name: String,
}

/// A file of the torrent: its path below the subfolder, as its components,
/// its length, and whether it is padding (created locally, never counted).
#[derive(Clone, Debug)]
pub struct WebseedFile {
    pub relative_path: Vec<String>,
    pub length: u64,
    pub is_padding: bool,
}

/// The components joined with `/`.
pub open spec fn join_slash(parts: Seq<Seq<char>>) -> Seq<char>
    decreases parts.len(),
{
    if parts.len() == 0 {
        seq![]
    } else if parts.len() == 1 {
        parts[0]
    } else {
        join_slash(parts.drop_last()) + seq!['/'] + parts.last()
    }
}

/// The relative path of a file as text, with `/` between components.
pub fn relative_path_text(parts: &Vec<String>) -> (s: String)
    ensures
        s@ == join_slash(strings_view(parts@)),
{
    let mut out: Vec<char> = Vec::new();
    let mut i: usize = 0;
    while i < parts.len()
        invariant
            i <= parts.len(),
            out@ == join_slash(strings_view(parts@).take(i as int)),
        decreases parts.len() - i,
    {
        proof {
            assert(strings_view(parts@).take(i + 1).drop_last() =~= strings_view(parts@).take(
                i as int,
            ));
        }
        if i > 0 {
            out.push('/');
        }
        extend_str(&mut out, parts[i].as_str());
        i = i + 1;
        assert(out@ =~= join_slash(strings_view(parts@).take(i as int)));
    }
    assert(strings_view(parts@).take(parts.len() as int) =~= strings_view(parts@));
    string_of(&out)
}

/// A single-file torrent: the file's path is the torrent's name itself.
pub open spec fn is_single_file_spec(name: Seq<char>, parts: Seq<Seq<char>>) -> bool {
    parts.len() == 1 && parts[0] == name
}

/// Whether the file is the whole of a single-file torrent.
pub fn is_single_file(name: &str, parts: &Vec<String>) -> (b: bool)
    ensures
        b == is_single_file_spec(name@, strings_view(parts@)),
{
    if parts.len() != 1 {
        return false;
    }
    let a = chars_of(name);
    let p = chars_of(parts[0].as_str());
    let same = chars_equal(&a, &p);
    proof {
        assert(strings_view(parts@)[0] == parts@[0]@);
    }
    same
}

/// Whether two character sequences are equal.
fn chars_equal(a: &Vec<char>, b: &Vec<char>) -> (r: bool)
    ensures
        r == (a@ == b@),
{
    if a.len() != b.len() {
        return false;
    }
    let mut i: usize = 0;
    while i < a.len()
        invariant
            i <= a.len(),
            a.len() == b.len(),
            forall|j: int| 0 <= j < i ==> a@[j] == b@[j],
        decreases a.len() - i,
    {
        if a[i] != b[i] {
            return false;
        }
        i = i + 1;
    }
    assert(a@ =~= b@);
    true
}

/// `s` without the characters `c` at its end (`trim_end_matches`).
pub open spec fn trim_end_char(s: Seq<char>, c: char) -> Seq<char>
    decreases s.len(),
{
    if s.len() > 0 && s.last() == c {
        trim_end_char(s.drop_last(), c)
    } else {
        s
    }
}

/// Pieces of `s` between the occurrences of `c`, as `str::split` gives them:
/// the finished pieces and the piece being read.
pub open spec fn split_fold(s: Seq<char>, c: char) -> (Seq<Seq<char>>, Seq<char>)
    decreases s.len(),
{
    if s.len() == 0 {
        (seq![], seq![])
    } else {
        let st = split_fold(s.drop_last(), c);
        if s.last() == c {
            (st.0.push(st.1), seq![])
        } else {
            (st.0, st.1.push(s.last()))
        }
    }
}

/// `s.split(c)`: always at least one piece, empty pieces kept.
pub open spec fn split_spec(s: Seq<char>, c: char) -> Seq<Seq<char>> {
    split_fold(s, c).0.push(split_fold(s, c).1)
}

/// The URL path of a file below a base: the name alone for a single-file
/// torrent, else the name, `/` and the relative path.
pub open spec fn url_path_spec(name: Seq<char>, parts: Seq<Seq<char>>) -> Seq<char> {
    if is_single_file_spec(name, parts) {
        name
    } else {
        name + seq!['/'] + join_slash(parts)
    }
}

/// The pieces of `s` between occurrences of `c`.
fn split_on(s: &Vec<char>, c: char) -> (r: Vec<String>)
    ensures
        strings_view(r@) == split_spec(s@, c),
{
    let mut pieces: Vec<String> = Vec::new();
    let mut cur: Vec<char> = Vec::new();
    let mut i: usize = 0;
    while i < s.len()
        invariant
            i <= s.len(),
            (strings_view(pieces@), cur@) == split_fold(s@.take(i as int), c),
        decreases s.len() - i,
    {
        proof {
            assert(s@.take(i + 1).drop_last() =~= s@.take(i as int));
            assert(s@.take(i + 1).last() == s@[i as int]);
        }
        if s[i] == c {
            let ghost before = strings_view(pieces@);
            let piece = string_of(&cur);
            pieces.push(piece);
            assert(strings_view(pieces@) =~= before.push(cur@));
            cur = Vec::new();
            assert(cur@ =~= seq![]);
        } else {
            cur.push(s[i]);
        }
        i = i + 1;
    }
    assert(s@.take(s.len() as int) =~= s@);
    let ghost before = strings_view(pieces@);
    let last = string_of(&cur);
    pieces.push(last);
    assert(strings_view(pieces@) =~= before.push(cur@));
    pieces
}

/// The URL that `url::Url::parse(base)` then `path_segments_mut().extend(..)`
/// with `segments` serialize to, when the parsed base can hold path segments.
pub uninterp spec fn url_with_segments(base: Seq<char>, segments: Seq<Seq<char>>) -> Option<
    Seq<char>,
>;

/// What became of a base and the segments pushed onto its path.
pub enum UrlPathOutcome {
    /// The base is no URL; the parser's message.
    BadBase(String),
    /// The base cannot hold path segments (such as `mailto:`).
    NoPath,
    /// The serialized URL.
    Url(String),
}

/// `url::Url::parse(base)`, then `path_segments_mut()` and `extend` with
/// `segments` (each percent-encoded as a path segment): the outcome depends
/// on the two arguments alone. Nothing is stated of the parser's message.
#[verifier::external_body]
fn url_extend_path(base: &str, segments: &Vec<String>) -> (r: UrlPathOutcome)
    ensures
        r is BadBase <==> url_parse_text(base@) is None,
        r is NoPath ==> url_with_segments(base@, strings_view(segments@)) is None,
        r matches UrlPathOutcome::Url(u) ==> url_with_segments(base@, strings_view(segments@))
            == Some(u@),
{
    let mut url = match url::Url::parse(base) {
        Ok(url) => url,
        Err(e) => return UrlPathOutcome::BadBase(e.to_string()),
    };
    if let Ok(mut path) = url.path_segments_mut() {
        path.extend(segments.iter());
    } else {
        return UrlPathOutcome::NoPath;
    }
    UrlPathOutcome::Url(url.as_str().to_string())
}

/// Why the URL of a file could not be made.
#[derive(Clone, Debug)]
pub enum FileUrlError {
    /// The base (without its final `/`) is no URL; the parser's message.
    InvalidBase(String),
    /// The base cannot hold a path.
    NoPath,
}

impl FileUrlError {
    /// The message of the error.
    pub fn message(&self) -> (s: String)
        ensures
            s@ == match *self {
                FileUrlError::InvalidBase(detail) => "base webseed inválida: "@ + detail@,
                FileUrlError::NoPath => "base webseed sem path válido"@,
            },
    {
        match self {
            FileUrlError::InvalidBase(detail) => {
                let mut v = chars_of("base webseed inválida: ");
                extend_str(&mut v, detail.as_str());
                string_of(&v)
            },
            FileUrlError::NoPath => string_lit("base webseed sem path válido"),
        }
    }
}

/// The download URL of a file below a base (GetRight): the base without its
/// final `/`, then the name (single-file torrent) or the name and the
/// relative path, each piece between `/` a percent-encoded path segment.
pub fn file_url(base: &str, config: &WebseedConfig, file: &WebseedFile) -> (r: Result<
    String,
    FileUrlError,
>)
    ensures
        ({
            let trimmed = trim_end_char(base@, '/');
            let segments = split_spec(
                url_path_spec(config.name@, strings_view(file.relative_path@)),
                '/',
            );
            &&& (r is Err && r->Err_0 is InvalidBase) <==> url_parse_text(trimmed) is None
            &&& (r is Err && r->Err_0 is NoPath) ==> url_with_segments(trimmed, segments) is None
            &&& (r matches Ok(u) ==> url_with_segments(trimmed, segments) == Some(u@))
        }),
{
    let cs = chars_of(base);
    let mut end: usize = cs.len();
    assert(cs@.take(cs.len() as int) =~= cs@);
    while end > 0 && cs[end - 1] == '/'
        invariant
            end <= cs.len(),
            trim_end_char(cs@, '/') == trim_end_char(cs@.take(end as int), '/'),
        decreases end,
    {
        assert(cs@.take(end as int).drop_last() =~= cs@.take(end - 1));
        end = end - 1;
    }
    let mut t: Vec<char> = Vec::new();
    let mut k: usize = 0;
    while k < end
        invariant
            k <= end <= cs.len(),
            t@ == cs@.take(k as int),
        decreases end - k,
    {
        t.push(cs[k]);
        k = k + 1;
        assert(t@ =~= cs@.take(k as int));
    }
    assert(trim_end_char(t@, '/') == t@);
    let trimmed = string_of(&t);
    let single = is_single_file(config.name.as_str(), &file.relative_path);
    let mut path: Vec<char> = chars_of(config.name.as_str());
    if !single {
        path.push('/');
        let rel = relative_path_text(&file.relative_path);
        extend_str(&mut path, rel.as_str());
    }
    assert(path@ =~= url_path_spec(config.name@, strings_view(file.relative_path@)));
    let segments = split_on(&path, '/');
    match url_extend_path(trimmed.as_str(), &segments) {
        UrlPathOutcome::BadBase(detail) => Err(FileUrlError::InvalidBase(detail)),
        UrlPathOutcome::NoPath => Err(FileUrlError::NoPath),
        UrlPathOutcome::Url(u) => Ok(u),
    }
}

// ---------------------------------------------------------------------------
// Responses
// ---------------------------------------------------------------------------
/// The text after the last `c` of `s` (all of `s` without one).
pub open spec fn after_last(s: Seq<char>, c: char) -> Seq<char>
    decreases s.len(),
{
    if s.len() == 0 {
        s
    } else if s.last() == c {
        seq![]
    } else {
        after_last(s.drop_last(), c).push(s.last())
    }
}

/// Every character is an ASCII digit.
pub open spec fn all_digits(s: Seq<char>) -> bool {
    forall|i: int| 0 <= i < s.len() ==> ('0' as int) <= (#[trigger] s[i] as int) <= ('9' as int)
}

/// The number the decimal digits of `s` write.
pub open spec fn digits_value(s: Seq<char>) -> int
    decreases s.len(),
{
    if s.len() == 0 {
        0
    } else {
        digits_value(s.drop_last()) * 10 + ((s.last() as int) - ('0' as int))
    }
}

/// `str::parse::<u64>`: an optional `+`, then at least one decimal digit and
/// nothing else, of a value that fits in 64 bits.
pub open spec fn parse_u64_spec(s: Seq<char>) -> Option<u64> {
    let d = if s.len() > 0 && s[0] == '+' {
        s.drop_first()
    } else {
        s
    };
    if d.len() > 0 && all_digits(d) && digits_value(d) <= u64::MAX {
        Some(digits_value(d) as u64)
    } else {
        None
    }
}

/// Appending digits never makes the value smaller.
proof fn lemma_digits_value_grows(s: Seq<char>, k: int)
    requires
        0 <= k <= s.len(),
        all_digits(s),
    ensures
        digits_value(s.take(k)) <= digits_value(s),
        digits_value(s.take(k)) >= 0,
    decreases s.len() - k,
{
    if k < s.len() {
        lemma_digits_value_grows(s, k + 1);
        assert(s.take(k + 1).drop_last() =~= s.take(k));
        assert(s.take(k + 1).last() == s[k]);
    } else {
        assert(s.take(k) =~= s);
    }
    lemma_digits_value_nonneg(s.take(k));
}

/// The value of digits is never negative.
proof fn lemma_digits_value_nonneg(s: Seq<char>)
    requires
        all_digits(s),
    ensures
        digits_value(s) >= 0,
    decreases s.len(),
{
    if s.len() > 0 {
        assert(all_digits(s.drop_last()));
        lemma_digits_value_nonneg(s.drop_last());
        assert(('0' as int) <= (s[s.len() - 1] as int));
    }
}

/// The `u64` that the characters of `cs` from `from` on write, if any.
fn parse_u64_from(cs: &Vec<char>, from: usize) -> (r: Option<u64>)
    requires
        from <= cs.len(),
    ensures
        r == parse_u64_spec(cs@.subrange(from as int, cs.len() as int)),
{
    let ghost s = cs@.subrange(from as int, cs.len() as int);
    let mut start: usize = from;
    if start < cs.len() && cs[start] == '+' {
        start = start + 1;
    }
    let ghost d = cs@.subrange(start as int, cs.len() as int);
    assert(d =~= (if s.len() > 0 && s[0] == '+' {
        s.drop_first()
    } else {
        s
    }));
    if start == cs.len() {
        return None;
    }
    assert(parse_u64_spec(s) == (if all_digits(d) && digits_value(d) <= u64::MAX {
        Some(digits_value(d) as u64)
    } else {
        None
    }));
    let mut acc: u64 = 0;
    let mut i: usize = start;
    while i < cs.len()
        invariant
            start <= i <= cs.len(),
            s == cs@.subrange(from as int, cs.len() as int),
            parse_u64_spec(s) == (if all_digits(d) && digits_value(d) <= u64::MAX {
                Some(digits_value(d) as u64)
            } else {
                None
            }),
            d == cs@.subrange(start as int, cs.len() as int),
            d.take(i - start) == cs@.subrange(start as int, i as int),
            all_digits(d.take(i - start)),
            acc == digits_value(d.take(i - start)),
        decreases cs.len() - i,
    {
        let c = cs[i];
        proof {
            assert(d[i - start] == c);
        }
        if !('0' <= c && c <= '9') {
            assert(!(('0' as int) <= (d[i - start] as int) <= ('9' as int)));
            assert(!all_digits(d));
            return None;
        }
        let dv: u64 = ((c as u32) - 48) as u64;
        proof {
            assert(d.take(i - start + 1).drop_last() =~= d.take(i - start));
            assert(d.take(i - start + 1).last() == c);
        }
        if acc > (u64::MAX - dv) / 10 {
            proof {
                assert(acc * 10 + dv > u64::MAX) by (nonlinear_arith)
                    requires
                        acc > (u64::MAX - dv) / 10,
                        dv <= 9,
                ;
                assert(all_digits(d.take(i - start + 1)));
                if all_digits(d) {
                    lemma_digits_value_grows(d, i - start + 1);
                }
            }
            return None;
        }
        acc = acc * 10 + dv;
        i = i + 1;
        proof {
            assert(d.take(i - start) =~= cs@.subrange(start as int, i as int));
            assert(all_digits(d.take(i - start)));
        }
    }
    assert(d.take(d.len() as int) =~= d);
    Some(acc)
}

/// The total size in a `content-range` value (`bytes 0-1023/4096`): the
/// number after its last `/`.
pub fn parse_content_range_total(value: &str) -> (r: Option<u64>)
    ensures
        r == parse_u64_spec(after_last(value@, '/')),
{
    let cs = chars_of(value);
    let mut start: usize = cs.len();
    assert(cs@.subrange(cs.len() as int, cs.len() as int) =~= seq![]);
    assert(cs@.take(cs.len() as int) =~= cs@);
    while start > 0 && cs[start - 1] != '/'
        invariant
            start <= cs.len(),
            after_last(cs@, '/') == after_last(cs@.take(start as int), '/') + cs@.subrange(
                start as int,
                cs.len() as int,
            ),
        decreases start,
    {
        proof {
            let t = cs@.take(start as int);
            assert(t.drop_last() =~= cs@.take(start - 1));
            assert(after_last(t, '/') == after_last(cs@.take(start - 1), '/').push(t.last()));
            assert(after_last(cs@.take(start - 1), '/').push(t.last()) + cs@.subrange(
                start as int,
                cs.len() as int,
            ) =~= after_last(cs@.take(start - 1), '/') + cs@.subrange(start - 1, cs.len() as int));
        }
        start = start - 1;
    }
    proof {
        if start == 0 {
            assert(cs@.take(0) =~= seq![]);
        }
        assert(after_last(cs@.take(start as int), '/') =~= seq![]);
        assert(after_last(cs@, '/') =~= cs@.subrange(start as int, cs.len() as int));
    }
    parse_u64_from(&cs, start)
}

/// What a task does with a file.
#[derive(Clone, Copy, PartialEq, Eq, Debug, Structural)]
pub enum FilePlan {
    /// Already complete on disk.
    Skip,
    /// Padding or empty: created locally, with its length, without HTTP.
    CreateLocal,
    /// Downloaded from the bases, in order.
    Fetch,
}

/// The plan for a file, given the length of what is on disk at its place.
pub open spec fn plan_file_spec(file: WebseedFile, existing_len: Option<u64>) -> FilePlan {
    if !file.is_padding && existing_len == Some(file.length) {
        FilePlan::Skip
    } else if file.is_padding || file.length == 0 {
        FilePlan::CreateLocal
    } else {
        FilePlan::Fetch
    }
}

/// What to do with a file: a complete non-padding file on disk is kept,
/// padding and empty files are created locally, the rest is downloaded.
pub fn plan_file(file: &WebseedFile, existing_len: Option<u64>) -> (p: FilePlan)
    ensures
        p == plan_file_spec(*file, existing_len),
{
    if !file.is_padding {
        if let Some(len) = existing_len {
            if len == file.length {
                return FilePlan::Skip;
            }
        }
    }
    if file.is_padding || file.length == 0 {
        FilePlan::CreateLocal
    } else {
        FilePlan::Fetch
    }
}

/// The `Range` header of a whole file: `bytes=0-` and its last offset (0 for
/// an empty file).
pub open spec fn range_header_spec(length: u64) -> Seq<char> {
    "bytes=0-"@ + decimal_spec(if length == 0 {
        0
    } else {
        (length - 1) as nat
    })
}

/// The `Range` header that asks for the whole file.
pub fn range_header(length: u64) -> (s: String)
    ensures
        s@ == range_header_spec(length),
{
    let mut v = chars_of("bytes=0-");
    push_decimal(&mut v, length.saturating_sub(1));
    proof {
        reveal_strlit("bytes=0-");
    }
    string_of(&v)
}

/// Message of a size that differs from the torrent's: `what` is the
/// detail in brackets before ` != `.
pub open spec fn divergent_spec(path: Seq<char>, what: Seq<char>, length: u64) -> Seq<char> {
    "tamanho divergente para "@ + path + " ("@ + what + " != "@ + decimal_spec(length as nat)
        + " do torrent)"@
}

/// Builds the message of a size that differs from the torrent's.
fn divergent_message(file: &WebseedFile, what: &Vec<char>) -> (s: String)
    ensures
        s@ == divergent_spec(join_slash(strings_view(file.relative_path@)), what@, file.length),
{
    let path = relative_path_text(&file.relative_path);
    let mut v = chars_of("tamanho divergente para ");
    extend_str(&mut v, path.as_str());
    extend_str(&mut v, " (");
    extend_chars(&mut v, what);
    extend_str(&mut v, " != ");
    push_decimal(&mut v, file.length);
    extend_str(&mut v, " do torrent)");
    string_of(&v)
}

/// The check of an HTTP answer before its body is read.
pub open spec fn check_response_spec(
    file: WebseedFile,
    partial: bool,
    content_range: Option<Seq<char>>,
    content_length: Option<u64>,
) -> Option<Seq<char>> {
    let path = join_slash(strings_view(file.relative_path@));
    if partial {
        let full = match content_range {
            Some(v) => match parse_u64_spec(after_last(v, '/')) {
                Some(n) => n,
                None => file.length,
            },
            None => file.length,
        };
        if full != file.length {
            Some(divergent_spec(path, "content-range "@ + decimal_spec(full as nat), file.length))
        } else {
            None
        }
    } else {
        match content_length {
            Some(len) => if len != file.length {
                Some(divergent_spec(path, decimal_spec(len as nat), file.length))
            } else {
                None
            },
            None => None,
        }
    }
}

/// Checks the size an answer announces against the torrent's: for a
/// `206 Partial Content`, the total of its `content-range` (taken as the
/// file's length when absent or unreadable); otherwise its
/// `content-length`, when it has one. `Err` holds the message.
pub fn check_response(
    file: &WebseedFile,
    partial: bool,
    content_range: Option<&str>,
    content_length: Option<u64>,
) -> (r: Result<(), String>)
    ensures
        match check_response_spec(
            *file,
            partial,
            match content_range {
                Some(v) => Some(v@),
                None => None,
            },
            content_length,
        ) {
            Some(msg) => r matches Err(m) && m@ == msg,
            None => r is Ok,
        },
{
    if partial {
        let full = match content_range {
            Some(v) => match parse_content_range_total(v) {
                Some(n) => n,
                None => file.length,
            },
            None => file.length,
        };
        if full != file.length {
            let mut what = chars_of("content-range ");
            push_decimal(&mut what, full);
            return Err(divergent_message(file, &what));
        }
        Ok(())
    } else {
        match content_length {
            Some(len) => {
                if len != file.length {
                    let mut what: Vec<char> = Vec::new();
                    push_decimal(&mut what, len);
                    assert(what@ =~= decimal_spec(len as nat));
                    return Err(divergent_message(file, &what));
                }
                Ok(())
            },
            None => Ok(()),
        }
    }
}

/// Checks the number of bytes written against the torrent's length.
pub fn check_written(file: &WebseedFile, written: u64) -> (r: Result<(), String>)
    ensures
        written == file.length ==> r is Ok,
        written != file.length ==> (r matches Err(m) && m@ == divergent_spec(
            join_slash(strings_view(file.relative_path@)),
            decimal_spec(written as nat) + " baixado"@,
            file.length,
        )),
{
    if written != file.length {
        let mut what: Vec<char> = Vec::new();
        push_decimal(&mut what, written);
        extend_str(&mut what, " baixado");
        return Err(divergent_message(file, &what));
    }
    Ok(())
}

/// The name of the temporary file a download is written to, beside its
/// destination: `.`, the file name, `.part` and the process id.
pub fn part_file_name(file_name: &str, pid: u32) -> (s: String)
    ensures
        s@ == seq!['.'] + file_name@ + ".part"@ + decimal_spec(pid as nat),
{
    let mut v: Vec<char> = Vec::new();
    v.push('.');
    extend_str(&mut v, file_name);
    extend_str(&mut v, ".part");
    push_decimal(&mut v, pid as u64);
    string_of(&v)
}

/// The error of a file that no base served: the last base's error, or a
/// message of its own when there was no base to try.
pub fn fetch_failure(last_error: Option<String>) -> (s: String)
    ensures
        match last_error {
            Some(e) => s@ == e@,
            None => s@ == "nenhuma base webseed disponível"@,
        },
{
    match last_error {
        Some(e) => e,
        None => string_lit("nenhuma base webseed disponível"),
    }
}

// ---------------------------------------------------------------------------
// Progress
// ---------------------------------------------------------------------------
/// The state of a webseed task.
#[derive(Clone, Debug, PartialEq, Eq)]
pub enum WebseedState {
    Downloading,
    Done,
    /// The message of the first file that failed.
    Error(String),
}

/// The label of a state, as the daemon's snapshot shows it.
pub open spec fn state_label_spec(st: WebseedState) -> Seq<char> {
    match st {
        WebseedState::Downloading => "Downloading"@,
        WebseedState::Done => "Done"@,
        WebseedState::Error(e) => e@,
    }
}

impl WebseedState {
    /// `Downloading`, `Done`, or the error's message.
    pub fn label(&self) -> (s: String)
        ensures
            s@ == state_label_spec(*self),
    {
        match self {
            WebseedState::Downloading => string_lit("Downloading"),
            WebseedState::Done => string_lit("Done"),
            WebseedState::Error(e) => e.clone(),
        }
    }
}

/// The progress of a webseed task at one moment.
#[derive(Clone, Debug)]
pub struct WebseedProgress {
    pub total_bytes: u64,
    pub downloaded_bytes: u64,
    pub total_files: usize,
    pub done_files: usize,
    pub state: WebseedState,
}

/// The tally of a task, updated as each file ends (well or not) and read
/// by the publisher of progress. Padding never counts.
#[derive(Clone, Debug)]
pub struct SharedProgress {
    /// Bytes of the non-padding files written in full (wrapping at the
    /// largest `u64`, as an atomic counter does).
    pub downloaded: u64,
    /// Non-padding files that ended, done or failed (wrapping at the
    /// largest `usize`, as an atomic counter does).
    pub done_files: usize,
    /// The message of the first file that failed.
    pub error: Option<String>,
    pub total_bytes: u64,
    pub total_files: usize,
}

/// The tally after one more file of `length` bytes ended, with its error
/// if it failed: a non-padding file written in full adds its bytes.
pub open spec fn mark_spec(p: SharedProgress, is_padding: bool, length: u64, err: Option<String>) -> SharedProgress {
    SharedProgress {
        downloaded: if is_padding || err is Some {
            p.downloaded
        } else {
            ((p.downloaded + length) % 0x1_0000_0000_0000_0000) as u64
        },
        error: if p.error is None && err is Some {
            err
        } else {
            p.error
        },
        done_files: if is_padding {
            p.done_files
        } else if p.done_files == usize::MAX {
            0
        } else {
            (p.done_files + 1) as usize
        },
        ..p
    }
}

/// The state a tally shows: the first error if any; else `Done` once every
/// file of a non-empty task ended; else `Downloading`.
pub open spec fn tally_state(p: SharedProgress) -> WebseedState {
    match p.error {
        Some(e) => WebseedState::Error(e),
        None => if p.done_files >= p.total_files && p.total_files > 0 {
            WebseedState::Done
        } else {
            WebseedState::Downloading
        },
    }
}

impl SharedProgress {
    /// The tally of a task that starts.
    pub fn new(total_bytes: u64, total_files: usize) -> (p: SharedProgress)
        ensures
            p.downloaded == 0,
            p.done_files == 0,
            p.error is None,
            p.total_bytes == total_bytes,
            p.total_files == total_files,
    {
        SharedProgress { downloaded: 0, done_files: 0, error: None, total_bytes, total_files }
    }

    /// Records the end of a file: its error is kept if it is the first, a
    /// non-padding file counts as done, and its bytes count as downloaded
    /// when it did not fail.
    pub fn mark_done(&mut self, file: &WebseedFile, err: Option<String>)
        ensures
            *final(self) == mark_spec(*old(self), file.is_padding, file.length, err),
    {
        if !file.is_padding && err.is_none() {
            self.downloaded = self.downloaded.wrapping_add(file.length);
        }
        if err.is_some() && self.error.is_none() {
            self.error = err;
        }
        if !file.is_padding {
            if self.done_files == usize::MAX {
                self.done_files = 0;
            } else {
                self.done_files = self.done_files + 1;
            }
        }
    }

    /// Whether every file has ended.
    pub fn all_done(&self) -> (b: bool)
        ensures
            b == (self.done_files >= self.total_files),
    {
        self.done_files >= self.total_files
    }

    /// The progress to publish.
    pub fn snapshot(&self) -> (s: WebseedProgress)
        ensures
            s.total_bytes == self.total_bytes,
            s.downloaded_bytes == self.downloaded,
            s.total_files == self.total_files,
            s.done_files == self.done_files,
            s.state == tally_state(*self),
    {
        let state = match &self.error {
            Some(e) => WebseedState::Error(e.clone()),
            None => if self.done_files >= self.total_files && self.total_files > 0 {
                WebseedState::Done
            } else {
                WebseedState::Downloading
            },
        };
        WebseedProgress {
            total_bytes: self.total_bytes,
            downloaded_bytes: self.downloaded,
            total_files: self.total_files,
            done_files: self.done_files,
            state,
        }
    }
}

/// The tally after a run of files ended, each with its padding flag, its
/// length and its error.
pub open spec fn marks_spec(p: SharedProgress, marks: Seq<(bool, u64, Option<String>)>) -> SharedProgress
    decreases marks.len(),
{
    if marks.len() == 0 {
        p
    } else {
        let q = marks_spec(p, marks.drop_last());
        mark_spec(q, marks.last().0, marks.last().1, marks.last().2)
    }
}

/// How many of the marks are of non-padding files.
pub open spec fn counted(marks: Seq<(bool, u64, Option<String>)>) -> nat
    decreases marks.len(),
{
    if marks.len() == 0 {
        0
    } else {
        counted(marks.drop_last()) + if marks.last().0 {
            0nat
        } else {
            1nat
        }
    }
}

/// The bytes of the non-padding files among the marks that did not fail.
pub open spec fn bytes_written(marks: Seq<(bool, u64, Option<String>)>) -> nat
    decreases marks.len(),
{
    if marks.len() == 0 {
        0
    } else {
        bytes_written(marks.drop_last()) + if marks.last().0 || marks.last().2 is Some {
            0nat
        } else {
            marks.last().1 as nat
        }
    }
}

/// The first error among the marks, if any.
pub open spec fn first_error(marks: Seq<(bool, u64, Option<String>)>) -> Option<String>
    decreases marks.len(),
{
    if marks.len() == 0 {
        None
    } else {
        match first_error(marks.drop_last()) {
            Some(e) => Some(e),
            None => marks.last().2,
        }
    }
}

/// Once a file failed, the task's error is that file's: later files, failed
/// or not, never replace it; and each non-padding file counts once, padding
/// never; the bytes downloaded add up those of the non-padding files that
/// did not fail.
pub proof fn lemma_first_error_wins(p: SharedProgress, marks: Seq<(bool, u64, Option<String>)>)
    requires
        p.done_files + marks.len() <= usize::MAX,
        p.downloaded + bytes_written(marks) <= u64::MAX,
    ensures
        marks_spec(p, marks).downloaded == p.downloaded + bytes_written(marks),
        marks_spec(p, marks).error == (match p.error {
            Some(e) => Some(e),
            None => first_error(marks),
        }),
        marks_spec(p, marks).done_files == p.done_files + counted(marks),
        marks_spec(p, marks).total_files == p.total_files,
        marks_spec(p, marks).total_bytes == p.total_bytes,
    decreases marks.len(),
{
    if marks.len() > 0 {
        lemma_first_error_wins(p, marks.drop_last());
        lemma_counted_le(marks.drop_last());
    }
}

/// No more marks count than there are.
proof fn lemma_counted_le(marks: Seq<(bool, u64, Option<String>)>)
    ensures
        counted(marks) <= marks.len(),
    decreases marks.len(),
{
    if marks.len() > 0 {
        lemma_counted_le(marks.drop_last());
    }
}

/// A task whose every file ended without error is `Done` (when it has
/// files), and one where a file failed is in `Error` with the first
/// failure's message, whatever came after; its downloaded bytes are those
/// of the non-padding files that did not fail.
pub proof fn lemma_task_outcome(total_bytes: u64, total_files: usize, marks: Seq<(bool, u64, Option<String>)>)
    requires
        counted(marks) == total_files,
        marks.len() <= usize::MAX,
        bytes_written(marks) <= u64::MAX,
    ensures
        ({
            let p = marks_spec(
                (SharedProgress { downloaded: 0, done_files: 0, error: None, total_bytes, total_files }),
                marks,
            );
            &&& p.done_files >= p.total_files
            &&& p.downloaded == bytes_written(marks)
            &&& tally_state(p) == (match first_error(marks) {
                Some(e) => WebseedState::Error(e),
                None => if total_files > 0 {
                    WebseedState::Done
                } else {
                    WebseedState::Downloading
                },
            })
        }),
{
    let p0 = SharedProgress { downloaded: 0, done_files: 0, error: None, total_bytes, total_files };
    lemma_first_error_wins(p0, marks);
}

/// The bytes of the non-padding files.
pub open spec fn total_bytes_spec(files: Seq<WebseedFile>) -> nat
    decreases files.len(),
{
    if files.len() == 0 {
        0
    } else {
        total_bytes_spec(files.drop_last()) + if files.last().is_padding {
            0nat
        } else {
            files.last().length as nat
        }
    }
}

/// How many files are not padding.
pub open spec fn total_files_spec(files: Seq<WebseedFile>) -> nat
    decreases files.len(),
{
    if files.len() == 0 {
        0
    } else {
        total_files_spec(files.drop_last()) + if files.last().is_padding {
            0nat
        } else {
            1nat
        }
    }
}

/// A prefix counts no more than the whole.
proof fn lemma_totals_grow(files: Seq<WebseedFile>, k: int)
    requires
        0 <= k <= files.len(),
    ensures
        total_bytes_spec(files.take(k)) <= total_bytes_spec(files),
        total_files_spec(files.take(k)) <= k,
    decreases files.len() - k,
{
    if k < files.len() {
        lemma_totals_grow(files, k + 1);
        assert(files.take(k + 1).drop_last() =~= files.take(k));
    } else {
        assert(files.take(k) =~= files);
    }
    lemma_total_files_le(files.take(k));
}

/// No more files count than there are.
proof fn lemma_total_files_le(files: Seq<WebseedFile>)
    ensures
        total_files_spec(files) <= files.len(),
    decreases files.len(),
{
    if files.len() > 0 {
        lemma_total_files_le(files.drop_last());
    }
}

/// The bytes and the number of the files that count (not padding).
pub fn webseed_totals(files: &Vec<WebseedFile>) -> (t: (u64, usize))
    requires
        total_bytes_spec(files@) <= u64::MAX,
    ensures
        t.0 == total_bytes_spec(files@),
        t.1 == total_files_spec(files@),
{
    let mut bytes: u64 = 0;
    let mut count: usize = 0;
    let mut i: usize = 0;
    while i < files.len()
        invariant
            i <= files.len(),
            total_bytes_spec(files@) <= u64::MAX,
            bytes == total_bytes_spec(files@.take(i as int)),
            count == total_files_spec(files@.take(i as int)),
        decreases files.len() - i,
    {
        proof {
            assert(files@.take(i + 1).drop_last() =~= files@.take(i as int));
            lemma_totals_grow(files@, i + 1);
        }
        if !files[i].is_padding {
            bytes = bytes + files[i].length;
            count = count + 1;
        }
        i = i + 1;
    }
    assert(files@.take(files.len() as int) =~= files@);
    (bytes, count)
}

/// The start of a task: refused without bases; else a fresh tally over the
/// files that count (whose lengths must add up within 64 bits).
pub fn start_progress(config: &WebseedConfig, files: &Vec<WebseedFile>) -> (r: Result<
    SharedProgress,
    String,
>)
    requires
        config.bases.len() > 0 ==> total_bytes_spec(files@) <= u64::MAX,
    ensures
        (config.bases.len() == 0) <==> (r is Err),
        r matches Err(m) ==> m@ == "sem bases webseed para download"@,
        r matches Ok(p) ==> (p == (SharedProgress {
            downloaded: 0,
            done_files: 0,
            error: None,
            total_bytes: total_bytes_spec(files@) as u64,
            total_files: total_files_spec(files@) as usize,
        })),
{
    if config.bases.len() == 0 {
        return Err(string_lit("sem bases webseed para download"));
    }
    let (bytes, count) = webseed_totals(files);
    Ok(SharedProgress::new(bytes, count))
}

/// A webseed task of the daemon: its id, its source, its name and its
/// latest progress.
#[derive(Clone, Debug)]
pub struct WebseedTask {
    pub id: usize,
    pub source: String,
    pub name: String,
    pub progress: WebseedProgress,
}

impl WebseedTask {
    /// The task as the daemon's snapshot reports it.
    pub fn snapshot(&self) -> (s: WebseedSnapshot)
        ensures
            s.id == self.id,
            s.source@ == self.source@,
            s.name@ == self.name@,
            s.downloaded_bytes == self.progress.downloaded_bytes,
            s.total_bytes == self.progress.total_bytes,
            s.done_files == self.progress.done_files,
            s.total_files == self.progress.total_files,
            s.state@ == state_label_spec(self.progress.state),
    {
        WebseedSnapshot {
            id: self.id,
            source: self.source.clone(),
            name: self.name.clone(),
            downloaded_bytes: self.progress.downloaded_bytes,
            total_bytes: self.progress.total_bytes,
            done_files: self.progress.done_files,
            total_files: self.progress.total_files,
            state: self.progress.state.label(),
        }
    }
}

// ---------------------------------------------------------------------------
// The daemon's registry of tasks
// ---------------------------------------------------------------------------
/// The webseed tasks the daemon runs, in the order they started.
#[derive(Clone, Debug)]
pub struct WebseedRegistry {
    pub tasks: Vec<WebseedTask>,
}

/// The id the next task gets: one more than the largest id, 0 when there is
/// no task.
pub open spec fn next_id_spec(tasks: Seq<WebseedTask>) -> nat
    decreases tasks.len(),
{
    if tasks.len() == 0 {
        0
    } else {
        let rest = next_id_spec(tasks.drop_last());
        if rest > tasks.last().id + 1 {
            rest
        } else {
            (tasks.last().id + 1) as nat
        }
    }
}

/// No two tasks share an id.
pub open spec fn ids_distinct(tasks: Seq<WebseedTask>) -> bool {
    forall|a: int, b: int| 0 <= a < b < tasks.len() ==> #[trigger] tasks[a].id != #[trigger] tasks[b].id
}

/// Every id is below the next one.
pub proof fn lemma_next_id_fresh(tasks: Seq<WebseedTask>)
    ensures
        forall|k: int| 0 <= k < tasks.len() ==> #[trigger] tasks[k].id < next_id_spec(tasks),
    decreases tasks.len(),
{
    if tasks.len() > 0 {
        lemma_next_id_fresh(tasks.drop_last());
        assert forall|k: int| 0 <= k < tasks.len() implies #[trigger] tasks[k].id < next_id_spec(tasks) by {
            if k < tasks.len() - 1 {
                assert(tasks.drop_last()[k] == tasks[k]);
            }
        }
    }
}

/// The tasks without those of id `id`, in their order.
pub open spec fn without_id(tasks: Seq<WebseedTask>, id: usize) -> Seq<WebseedTask>
    decreases tasks.len(),
{
    if tasks.len() == 0 {
        tasks
    } else {
        let rest = without_id(tasks.drop_last(), id);
        if tasks.last().id == id {
            rest
        } else {
            rest.push(tasks.last())
        }
    }
}

/// The progress of a task that starts.
pub open spec fn fresh_progress(total_bytes: u64, total_files: usize) -> WebseedProgress {
    WebseedProgress {
        total_bytes,
        downloaded_bytes: 0,
        total_files,
        done_files: 0,
        state: WebseedState::Downloading,
    }
}

/// A snapshot line shows its task.
pub open spec fn shows_task(s: WebseedSnapshot, t: WebseedTask) -> bool {
    &&& s.id == t.id
    &&& s.source@ == t.source@
    &&& s.name@ == t.name@
    &&& s.downloaded_bytes == t.progress.downloaded_bytes
    &&& s.total_bytes == t.progress.total_bytes
    &&& s.done_files == t.progress.done_files
    &&& s.total_files == t.progress.total_files
    &&& s.state@ == state_label_spec(t.progress.state)
}

/// An empty registry.
pub fn new_registry() -> (r: WebseedRegistry)
    ensures
        r.tasks@.len() == 0,
{
    WebseedRegistry { tasks: Vec::new() }
}

impl WebseedRegistry {
    /// The id for the next task: one more than the largest, 0 for the first.
    pub fn next_id(&self) -> (id: usize)
        requires
            next_id_spec(self.tasks@) <= usize::MAX,
        ensures
            id == next_id_spec(self.tasks@),
    {
        let mut next: usize = 0;
        let mut i: usize = 0;
        while i < self.tasks.len()
            invariant
                i <= self.tasks.len(),
                next_id_spec(self.tasks@) <= usize::MAX,
                next == next_id_spec(self.tasks@.take(i as int)),
            decreases self.tasks.len() - i,
        {
            proof {
                assert(self.tasks@.take(i + 1).drop_last() =~= self.tasks@.take(i as int));
                lemma_next_id_prefix(self.tasks@, i + 1);
            }
            let id = self.tasks[i].id;
            if next <= id {
                next = id + 1;
            }
            i = i + 1;
        }
        assert(self.tasks@.take(self.tasks.len() as int) =~= self.tasks@);
        next
    }

    /// Registers a task that starts, with a fresh id, and returns its id.
    pub fn register(
        &mut self,
        source: String,
        name: String,
        total_bytes: u64,
        total_files: usize,
    ) -> (id: usize)
        requires
            next_id_spec(old(self).tasks@) <= usize::MAX,
        ensures
            id == next_id_spec(old(self).tasks@),
            final(self).tasks@ == old(self).tasks@.push(
                WebseedTask { id, source, name, progress: fresh_progress(total_bytes, total_files) },
            ),
            forall|k: int| 0 <= k < old(self).tasks@.len() ==> #[trigger] old(self).tasks@[k].id != id,
    {
        let id = self.next_id();
        proof {
            lemma_next_id_fresh(self.tasks@);
        }
        let progress = WebseedProgress {
            total_bytes,
            downloaded_bytes: 0,
            total_files,
            done_files: 0,
            state: WebseedState::Downloading,
        };
        self.tasks.push(WebseedTask { id, source, name, progress });
        id
    }

    /// The place of the first task of id `id`, if any.
    fn position(&self, id: usize) -> (r: Option<usize>)
        ensures
            match r {
                Some(k) => k < self.tasks@.len() && self.tasks@[k as int].id == id && forall|j: int|
                    0 <= j < k ==> #[trigger] self.tasks@[j].id != id,
                None => forall|j: int| 0 <= j < self.tasks@.len() ==> #[trigger] self.tasks@[j].id != id,
            },
    {
        let mut i: usize = 0;
        while i < self.tasks.len()
            invariant
                i <= self.tasks.len(),
                forall|j: int| 0 <= j < i ==> #[trigger] self.tasks@[j].id != id,
            decreases self.tasks.len() - i,
        {
            if self.tasks[i].id == id {
                return Some(i);
            }
            i = i + 1;
        }
        None
    }

    /// Publishes the progress of the task `id` (nothing when it is gone).
    pub fn set_progress(&mut self, id: usize, progress: WebseedProgress)
        ensures
            (forall|j: int| 0 <= j < old(self).tasks@.len() ==> #[trigger] old(self).tasks@[j].id != id)
                ==> final(self).tasks@ == old(self).tasks@,
            forall|k: int|
                0 <= k < old(self).tasks@.len() && old(self).tasks@[k].id == id && (forall|j: int|
                    0 <= j < k ==> #[trigger] old(self).tasks@[j].id != id) ==> final(self).tasks@
                    == old(self).tasks@.update(k, WebseedTask { progress, ..old(self).tasks@[k] }),
    {
        match self.position(id) {
            Some(k) => {
                let ghost before = self.tasks@;
                let mut t = self.tasks.remove(k);
                t.progress = progress;
                self.tasks.insert(k, t);
                assert(self.tasks@ =~= before.update(k as int, t));
            },
            None => {},
        }
    }
}

impl WebseedRegistry {
    /// Sets the state of the task `id` (nothing when it is gone).
    pub fn set_state(&mut self, id: usize, state: WebseedState)
        ensures
            (forall|j: int| 0 <= j < old(self).tasks@.len() ==> #[trigger] old(self).tasks@[j].id != id)
                ==> final(self).tasks@ == old(self).tasks@,
            forall|k: int|
                0 <= k < old(self).tasks@.len() && old(self).tasks@[k].id == id && (forall|j: int|
                    0 <= j < k ==> #[trigger] old(self).tasks@[j].id != id) ==> final(self).tasks@
                    == old(self).tasks@.update(
                    k,
                    WebseedTask {
                        progress: WebseedProgress { state, ..old(self).tasks@[k].progress },
                        ..old(self).tasks@[k]
                    },
                ),
    {
        match self.position(id) {
            Some(k) => {
                let ghost before = self.tasks@;
                let mut t = self.tasks.remove(k);
                t.progress.state = state;
                self.tasks.insert(k, t);
                assert(self.tasks@ =~= before.update(k as int, t));
            },
            None => {},
        }
    }

    /// Drops the tasks of id `id` (a task whose torrent joined the session).
    pub fn remove(&mut self, id: usize)
        ensures
            final(self).tasks@ == without_id(old(self).tasks@, id),
    {
        let mut kept: Vec<WebseedTask> = Vec::new();
        let ghost orig = self.tasks@;
        while self.tasks.len() > 0
            invariant
                kept@ + without_id(self.tasks@, id) == without_id(orig, id),
            decreases self.tasks.len(),
        {
            let ghost before = self.tasks@;
            let ghost before_kept = kept@;
            let t = self.tasks.remove(0);
            proof {
                lemma_without_id_first(before, id);
                assert(before.drop_first() =~= self.tasks@);
            }
            if t.id != id {
                kept.push(t);
                assert(kept@ + without_id(self.tasks@, id) =~= before_kept + without_id(before, id));
            }
        }
        assert(without_id(self.tasks@, id) =~= seq![]);
        assert(kept@ =~= without_id(orig, id));
        self.tasks = kept;
    }

    /// The snapshot lines of the tasks, in their order.
    pub fn snapshots(&self) -> (s: Vec<WebseedSnapshot>)
        ensures
            s@.len() == self.tasks@.len(),
            forall|k: int| 0 <= k < s@.len() ==> shows_task(#[trigger] s@[k], self.tasks@[k]),
    {
        let mut out: Vec<WebseedSnapshot> = Vec::new();
        let mut i: usize = 0;
        while i < self.tasks.len()
            invariant
                i <= self.tasks.len(),
                out@.len() == i,
                forall|k: int| 0 <= k < i ==> shows_task(#[trigger] out@[k], self.tasks@[k]),
            decreases self.tasks.len() - i,
        {
            let line = self.tasks[i].snapshot();
            out.push(line);
            i = i + 1;
        }
        out
    }
}

/// Dropping the tasks of an id, read from the front.
proof fn lemma_without_id_first(tasks: Seq<WebseedTask>, id: usize)
    requires
        tasks.len() > 0,
    ensures
        without_id(tasks, id) == (if tasks[0].id == id {
            seq![]
        } else {
            seq![tasks[0]]
        }) + without_id(tasks.drop_first(), id),
    decreases tasks.len(),
{
    if tasks.len() == 1 {
        assert(tasks.drop_first() =~= seq![]);
        assert(tasks.drop_last() =~= seq![]);
    } else {
        lemma_without_id_first(tasks.drop_last(), id);
        assert(tasks.drop_last().drop_first() =~= tasks.drop_first().drop_last());
        assert(tasks.drop_first().last() == tasks.last());
        assert(tasks.drop_last()[0] == tasks[0]);
    }
}

/// A prefix of the tasks needs no larger next id.
proof fn lemma_next_id_prefix(tasks: Seq<WebseedTask>, k: int)
    requires
        0 <= k <= tasks.len(),
    ensures
        next_id_spec(tasks.take(k)) <= next_id_spec(tasks),
    decreases tasks.len() - k,
{
    if k < tasks.len() {
        lemma_next_id_prefix(tasks, k + 1);
        assert(tasks.take(k + 1).drop_last() =~= tasks.take(k));
    } else {
        assert(tasks.take(k) =~= tasks);
    }
}

/// Registering a task keeps the ids distinct: the new id is above all.
pub proof fn lemma_register_keeps_ids_distinct(tasks: Seq<WebseedTask>, task: WebseedTask)
    requires
        ids_distinct(tasks),
        task.id == next_id_spec(tasks),
    ensures
        ids_distinct(tasks.push(task)),
{
    lemma_next_id_fresh(tasks);
    assert forall|a: int, b: int| 0 <= a < b < tasks.push(task).len() implies #[trigger] tasks.push(
        task,
    )[a].id != #[trigger] tasks.push(task)[b].id by {
        assert(tasks.push(task)[a] == tasks[a]);
        if b < tasks.len() {
            assert(tasks.push(task)[b] == tasks[b]);
        }
    }
}

/// After the tasks of an id are dropped, none has that id, and every other
/// task is still there.
pub proof fn lemma_removed_task_is_gone(tasks: Seq<WebseedTask>, id: usize)
    ensures
        forall|k: int| 0 <= k < without_id(tasks, id).len() ==> #[trigger] without_id(tasks, id)[k].id != id,
        forall|k: int| 0 <= k < tasks.len() && tasks[k].id != id ==> without_id(tasks, id).contains(
            #[trigger] tasks[k],
        ),
    decreases tasks.len(),
{
    if tasks.len() > 0 {
        let rest = tasks.drop_last();
        lemma_removed_task_is_gone(rest, id);
        assert forall|k: int| 0 <= k < tasks.len() && tasks[k].id != id implies without_id(
            tasks,
            id,
        ).contains(#[trigger] tasks[k]) by {
            if k < tasks.len() - 1 {
                assert(rest[k] == tasks[k]);
                let w = without_id(rest, id);
                let j = choose|j: int| 0 <= j < w.len() && w[j] == rest[k];
                if tasks.last().id != id {
                    assert(w.push(tasks.last())[j] == tasks[k]);
                }
            } else {
                let w = without_id(rest, id);
                assert(w.push(tasks.last())[w.len() as int] == tasks[k]);
            }
        }
    }
}

/// Two states agree: the same variant, the same message.
pub open spec fn same_state(a: WebseedState, b: WebseedState) -> bool {
    match (a, b) {
        (WebseedState::Downloading, WebseedState::Downloading) => true,
        (WebseedState::Done, WebseedState::Done) => true,
        (WebseedState::Error(x), WebseedState::Error(y)) => x@ == y@,
        _ => false,
    }
}

/// The state a task keeps once its download ended: the final progress's, or
/// an error with the message of a download that could not start.
pub fn finished_state(result: &Result<WebseedProgress, String>) -> (st: WebseedState)
    ensures
        match result {
            Ok(p) => same_state(st, p.state),
            Err(e) => same_state(st, WebseedState::Error(*e)),
        },
{
    match result {
        Ok(p) => match &p.state {
            WebseedState::Downloading => WebseedState::Downloading,
            WebseedState::Done => WebseedState::Done,
            WebseedState::Error(e) => WebseedState::Error(e.clone()),
        },
        Err(e) => WebseedState::Error(e.clone()),
    }
}

/// The torrent joins the session only when every file was downloaded.
pub fn ready_to_join(result: &Result<WebseedProgress, String>) -> (b: bool)
    ensures
        b == (result matches Ok(p) && p.state is Done),
{
    match result {
        Ok(p) => match &p.state {
            WebseedState::Done => true,
            _ => false,
        },
        Err(_) => false,
    }
}


// ---------------------------------------------------------------------------
// Starting a task from the torrent's bytes
// ---------------------------------------------------------------------------
/// What a task needs of a torrent: its name (read lossily as UTF-8), whether
/// it lists several files (they then go in a subfolder of that name), and
/// its files in order, padding included.
#[derive(Debug)]
pub struct TorrentLayout {
    pub name: Option<String>,
    pub multi_file: bool,
    /// The files, or why they could not be listed: the error's text, or
    /// `None` for a file name that is not a valid path.
    pub files: Result<Vec<WebseedFile>, Option<String>>,
}

/// A file as plain values: its path components, length and padding flag.
pub open spec fn file_view(f: WebseedFile) -> (Seq<Seq<char>>, u64, bool) {
    (strings_view(f.relative_path@), f.length, f.is_padding)
}

/// The files as plain values.
pub open spec fn files_view(files: Seq<WebseedFile>) -> Seq<(Seq<Seq<char>>, u64, bool)> {
    files.map_values(|f: WebseedFile| file_view(f))
}

/// The plain values of a layout: name, multi-file flag, and the files or
/// the error that kept them from being listed.
pub type LayoutView = (Option<Seq<char>>, bool, Result<Seq<(Seq<Seq<char>>, u64, bool)>, Option<Seq<char>>>);

/// A layout as plain values.
pub open spec fn layout_view(l: TorrentLayout) -> LayoutView {
    (
        match l.name {
            Some(n) => Some(n@),
            None => None,
        },
        l.multi_file,
        match l.files {
            Ok(v) => Ok(files_view(v@)),
            Err(Some(e)) => Err(Some(e@)),
            Err(None) => Err(None),
        },
    )
}

/// The layout librqbit reads from the bytes of a torrent, or the text of
/// its error. The path components come from `Path::components`, which
/// splits the way the platform the program is built for does (on Windows a
/// piece such as `C:x` reads as a drive prefix); for one build the layout
/// depends on the bytes alone.
pub uninterp spec fn torrent_layout_of(bytes: Seq<u8>) -> Result<LayoutView, Seq<char>>;

/// `librqbit::torrent_from_bytes_ext` and `TorrentMetaV1Info::iter_file_details`:
/// the name, whether the torrent has a file list, and each file's path
/// components, length and padding attribute; or the error's text. A function
/// of the bytes alone; called only on bytes that start with one complete
/// bencode value, as its bencode reader can panic on others.
#[verifier::external_body]
fn torrent_layout(bytes: &[u8]) -> (r: Result<TorrentLayout, String>)
    requires
        crate::resolve::bencode_prefix(bytes@),
    ensures
        match r {
            Ok(l) => torrent_layout_of(bytes@) == Ok::<LayoutView, Seq<char>>(layout_view(l)),
            Err(m) => torrent_layout_of(bytes@) == Err::<LayoutView, Seq<char>>(m@),
        },
{
    let info = librqbit::torrent_from_bytes_ext::<librqbit::ByteBufOwned>(bytes).map_err(|e| e.to_string())?.meta.info;
    let name = info.name.as_ref().map(|n| String::from_utf8_lossy(n.as_ref()).into_owned());
    let files = info.iter_file_details().map_err(|e| Some(e.to_string())).and_then(|it| {
        it.map(|f| Ok(WebseedFile {
            relative_path: f.filename.to_pathbuf().map_err(|_| None)?.components().map(|c| c.as_os_str().to_string_lossy().into_owned()).collect(),
            length: f.len,
            is_padding: f.attrs().padding,
        })).collect()
    });
    Ok(TorrentLayout { name, multi_file: info.files.is_some(), files })
}

/// The bytes of the non-padding files, over plain values.
pub open spec fn view_bytes(files: Seq<(Seq<Seq<char>>, u64, bool)>) -> nat
    decreases files.len(),
{
    if files.len() == 0 {
        0
    } else {
        view_bytes(files.drop_last()) + if files.last().2 {
            0nat
        } else {
            files.last().1 as nat
        }
    }
}

proof fn lemma_view_bytes(files: Seq<WebseedFile>)
    ensures
        view_bytes(files_view(files)) == total_bytes_spec(files),
    decreases files.len(),
{
    if files.len() > 0 {
        lemma_view_bytes(files.drop_last());
        assert(files_view(files).drop_last() =~= files_view(files.drop_last()));
    }
}

/// Whether the bytes of the non-padding files add up within 64 bits.
pub fn bytes_fit(files: &Vec<WebseedFile>) -> (b: bool)
    ensures
        b == (total_bytes_spec(files@) <= u64::MAX),
{
    let mut bytes: u64 = 0;
    let mut i: usize = 0;
    while i < files.len()
        invariant
            i <= files.len(),
            bytes == total_bytes_spec(files@.take(i as int)),
        decreases files.len() - i,
    {
        proof {
            assert(files@.take(i + 1).drop_last() =~= files@.take(i as int));
            lemma_totals_grow(files@, i + 1);
        }
        if !files[i].is_padding {
            match bytes.checked_add(files[i].length) {
                Some(b) => bytes = b,
                None => return false,
            }
        }
        i = i + 1;
    }
    assert(files@.take(files.len() as int) =~= files@);
    true
}

/// A task that was registered: its id, what its download needs, and the
/// subfolder (the torrent's name) its files go in when it has several.
pub struct WebseedStart {
    pub id: usize,
    pub config: WebseedConfig,
    pub files: Vec<WebseedFile>,
    pub subfolder: Option<String>,
}

pub open spec fn incomplete_bencode_message() -> Seq<char> {
    "torrent inválido: bencode incompleto"@
}

pub open spec fn too_large_message() -> Seq<char> {
    "torrent grande demais: a soma dos tamanhos excede 64 bits"@
}

pub open spec fn no_id_message() -> Seq<char> {
    "sem id livre para a tarefa webseed"@
}

impl WebseedRegistry {
    /// The id for the next task, if it fits in `usize`.
    pub fn next_id_checked(&self) -> (r: Option<usize>)
        ensures
            r matches Some(id) ==> id == next_id_spec(self.tasks@),
            r is None ==> next_id_spec(self.tasks@) > usize::MAX,
    {
        let mut next: usize = 0;
        let mut i: usize = 0;
        while i < self.tasks.len()
            invariant
                i <= self.tasks.len(),
                next == next_id_spec(self.tasks@.take(i as int)),
            decreases self.tasks.len() - i,
        {
            proof {
                assert(self.tasks@.take(i + 1).drop_last() =~= self.tasks@.take(i as int));
                lemma_next_id_prefix(self.tasks@, i + 1);
            }
            let id = self.tasks[i].id;
            if id == usize::MAX {
                return None;
            }
            if next <= id {
                next = id + 1;
            }
            i = i + 1;
        }
        assert(self.tasks@.take(self.tasks.len() as int) =~= self.tasks@);
        Some(next)
    }
}

/// The outcome of starting a task for a torrent: an error (the registry
/// then is unchanged) or a task registered with the next id, its files
/// those of the torrent, its progress fresh.
pub open spec fn plan_post(
    before: Seq<WebseedTask>,
    after: Seq<WebseedTask>,
    source: String,
    bytes: Seq<u8>,
    bases: Seq<Seq<char>>,
    r: Result<WebseedStart, String>,
) -> bool {
    &&& r is Err ==> after == before
    &&& !crate::resolve::bencode_prefix(bytes) ==> (r matches Err(m) && m@ == incomplete_bencode_message())
    &&& crate::resolve::bencode_prefix(bytes) ==> match torrent_layout_of(bytes) {
        Err(e) => r matches Err(m) && m@ == e,
        Ok(l) => match l.0 {
            None => r matches Err(m) && m@ == "torrent sem nome"@,
            Some(name) => match l.2 {
                Err(Some(e)) => r matches Err(m) && m@ == e,
                Err(None) => r matches Err(m) && m@ == "filename inválido no torrent"@,
                Ok(files) => if view_bytes(files) > u64::MAX {
                    r matches Err(m) && m@ == too_large_message()
                } else if next_id_spec(before) > usize::MAX {
                    r matches Err(m) && m@ == no_id_message()
                } else {
                    r matches Ok(s) && {
                        &&& s.id == next_id_spec(before)
                        &&& files_view(s.files@) == files
                        &&& strings_view(s.config.bases@) == bases
                        &&& s.config.name@ == name
                        &&& (l.1 ==> (s.subfolder matches Some(f) && f@ == name))
                        &&& (!l.1 ==> s.subfolder is None)
                        &&& after.len() == before.len() + 1
                        &&& after.drop_last() == before
                        &&& after.last().id == s.id
                        &&& after.last().source == source
                        &&& after.last().name@ == name
                        &&& after.last().progress == fresh_progress(
                            total_bytes_spec(s.files@) as u64,
                            total_files_spec(s.files@) as usize,
                        )
                    }
                },
            },
        },
    }
}

/// Registers a webseed task for the torrent `bytes` from `source`, to be
/// downloaded from `bases`: the torrent must be complete bencode that
/// librqbit reads, have a name and files whose sizes add up within 64 bits,
/// and an id must be free. On success the task is registered with fresh
/// progress and what its download needs is returned; on error nothing
/// changes.
pub fn plan_webseed(registry: &mut WebseedRegistry, source: String, bytes: &[u8], bases: Vec<String>) -> (r:
    Result<WebseedStart, String>)
    ensures
        plan_post(old(registry).tasks@, final(registry).tasks@, source, bytes@, strings_view(bases@), r),
{
    if !crate::resolve::is_bencode_prefix(bytes) {
        return Err(string_lit("torrent inválido: bencode incompleto"));
    }
    let layout = match torrent_layout(bytes) {
        Ok(l) => l,
        Err(e) => return Err(e),
    };
    let name = match layout.name {
        Some(n) => n,
        None => return Err(string_lit("torrent sem nome")),
    };
    let files = match layout.files {
        Ok(f) => f,
        Err(Some(e)) => return Err(e),
        Err(None) => return Err(string_lit("filename inválido no torrent")),
    };
    proof {
        lemma_view_bytes(files@);
    }
    if !bytes_fit(&files) {
        return Err(string_lit("torrent grande demais: a soma dos tamanhos excede 64 bits"));
    }
    let id = match registry.next_id_checked() {
        Some(id) => id,
        None => return Err(string_lit("sem id livre para a tarefa webseed")),
    };
    let (total_bytes, total_files) = webseed_totals(&files);
    let source_kept = source;
    let registered = registry.register(source_kept, name.clone(), total_bytes, total_files);
    assert(registered == id);
    let subfolder = if layout.multi_file {
        Some(name.clone())
    } else {
        None
    };
    let out = WebseedStart { id, config: WebseedConfig { bases, name }, files, subfolder };
    assert(registry.tasks@.drop_last() =~= old(registry).tasks@);
    assert(registry.tasks@.last().name@ == out.config.name@);
    assert(files_view(out.files@) == layout_view(layout).2->Ok_0);
    assert(out.subfolder matches Some(f) ==> f@ == out.config.name@);
    Ok(out)
}

} // verus!
