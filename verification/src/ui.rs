//! Pure pieces of the interactive UI: command palette, prompt editing,
//! table rows of the library, context menu and click mapping.
use vstd::prelude::*;
use vstd::arithmetic::div_mod::{
    lemma_add_mod_noop,
    lemma_div_multiples_vanish,
    lemma_mod_add_multiples_vanish,
    lemma_mod_multiples_basic,
    lemma_small_mod,
    lemma_sub_mod_noop,
};

use crate::text::{
    chars_of, contains_chars, contains_spec, decimal_spec, extend_chars, extend_str, pad_end_spec,
    pad_start_spec, push_decimal, push_padded_end, push_padded_start, push_repeat,
    push_zero_padded, repeat_spec, starts_with_chars, starts_with_spec, string_of, trim_chars,
    trim_spec, truncate_chars, truncate_spec, zero_pad_spec,
};

verus! {

// ---------------------------------------------------------------------------
// Commands of the floating palette
// ---------------------------------------------------------------------------
/// The commands of the palette and their descriptions.
pub open spec fn commands_spec() -> Seq<(Seq<char>, Seq<char>)> {
    seq![
        ("/add"@, "adicionar torrent a lista"@),
        ("/pause"@, "pausar torrent selecionado"@),
        ("/resume"@, "retomar torrent selecionado"@),
        ("/delete"@, "excluir torrent selecionado"@),
        ("/help"@, "exibir ajuda de comandos"@),
        ("/exit"@, "sair do OpenTorrent"@),
    ]
}

/// The view of a list of string pairs.
pub open spec fn pairs_view(v: Seq<(String, String)>) -> Seq<(Seq<char>, Seq<char>)> {
    v.map_values(|p: (String, String)| (p.0@, p.1@))
}

/// The commands of the palette (command, description), in menu order.
pub fn commands() -> (v: Vec<(String, String)>)
    ensures
        pairs_view(v@) == commands_spec(),
{
    let mut v: Vec<(String, String)> = Vec::new();
    v.push((string_lit("/add"), string_lit("adicionar torrent a lista")));
    v.push((string_lit("/pause"), string_lit("pausar torrent selecionado")));
    v.push((string_lit("/resume"), string_lit("retomar torrent selecionado")));
    v.push((string_lit("/delete"), string_lit("excluir torrent selecionado")));
    v.push((string_lit("/help"), string_lit("exibir ajuda de comandos")));
    v.push((string_lit("/exit"), string_lit("sair do OpenTorrent")));
    assert(pairs_view(v@) =~= commands_spec());
    v
}

/// An owned copy of `s`.
pub fn string_lit(s: &str) -> (r: String)
    ensures
        r@ == s@,
{
    let v = chars_of(s);
    string_of(&v)
}

/// Line of the palette: marker, command left-aligned in 8 columns, description.
pub open spec fn command_item_line_spec(cmd: Seq<char>, desc: Seq<char>, selected: bool) -> Seq<
    char,
> {
    (if selected {
        "> "@
    } else {
        "  "@
    }) + pad_end_spec(cmd, 8) + seq![' '] + desc
}

/// Line of the palette for `cmd`: `> ` marks the selected command.
pub fn command_item_line(cmd: &str, desc: &str, selected: bool) -> (s: String)
    ensures
        s@ == command_item_line_spec(cmd@, desc@, selected),
{
    let mut v: Vec<char> = Vec::new();
    if selected {
        extend_str(&mut v, "> ");
    } else {
        extend_str(&mut v, "  ");
    }
    let c = chars_of(cmd);
    push_padded_end(&mut v, &c, 8);
    v.push(' ');
    extend_str(&mut v, desc);
    string_of(&v)
}

/// Number of leading `c` characters of `s`.
pub open spec fn leading_count(s: Seq<char>, c: char) -> nat
    decreases s.len(),
{
    if s.len() > 0 && s[0] == c {
        1 + leading_count(s.drop_first(), c)
    } else {
        0
    }
}

/// `s` without its leading `c` characters (`trim_start_matches(c)`).
pub open spec fn trim_leading(s: Seq<char>, c: char) -> Seq<char> {
    s.skip(leading_count(s, c) as int)
}

/// The commands that match what is typed after the slashes: all of them
/// when nothing is typed, else those whose name contains the query.
pub open spec fn filter_commands_spec(input: Seq<char>) -> Seq<(Seq<char>, Seq<char>)> {
    commands_spec().filter(matches_query(trim_leading(input, '/')))
}

/// A command matches the query `q` when `q` is empty or occurs in its name.
pub open spec fn matches_query(q: Seq<char>) -> spec_fn((Seq<char>, Seq<char>)) -> bool {
    |p: (Seq<char>, Seq<char>)| q.len() == 0 || contains_spec(p.0, q)
}

proof fn lemma_leading_count(s: Seq<char>, c: char)
    ensures
        leading_count(s, c) <= s.len(),
        leading_count(s, c) < s.len() ==> s[leading_count(s, c) as int] != c,
    decreases s.len(),
{
    if s.len() > 0 && s[0] == c {
        lemma_leading_count(s.drop_first(), c);
    }
}

/// `s` without its leading `c` characters.
pub fn trim_leading_chars(s: &Vec<char>, c: char) -> (r: Vec<char>)
    ensures
        r@ == trim_leading(s@, c),
{
    let mut i: usize = 0;
    assert(s@.skip(0) =~= s@);
    while i < s.len() && s[i] == c
        invariant
            i <= s.len(),
            leading_count(s@, c) == i + leading_count(s@.skip(i as int), c),
        decreases s.len() - i,
    {
        assert(s@.skip(i as int).drop_first() =~= s@.skip(i + 1));
        i = i + 1;
    }
    assert(leading_count(s@.skip(i as int), c) == 0);
    let mut r: Vec<char> = Vec::new();
    let mut j = i;
    while j < s.len()
        invariant
            i <= j <= s.len(),
            r@ == s@.subrange(i as int, j as int),
        decreases s.len() - j,
    {
        r.push(s[j]);
        j = j + 1;
        assert(r@ =~= s@.subrange(i as int, j as int));
    }
    assert(r@ =~= s@.skip(i as int));
    r
}

/// The commands matching the text typed in the prompt.
pub fn filter_commands(input: &str) -> (v: Vec<(String, String)>)
    ensures
        pairs_view(v@) == filter_commands_spec(input@),
{
    let all = commands();
    let chars = chars_of(input);
    let q = trim_leading_chars(&chars, '/');
    let mut v: Vec<(String, String)> = Vec::new();
    let ghost pred = matches_query(q@);
    let mut i: usize = 0;
    while i < all.len()
        invariant
            i <= all.len(),
            pairs_view(all@) == commands_spec(),
            q@ == trim_leading(input@, '/'),
            pred == matches_query(q@),
            pairs_view(v@) == commands_spec().take(i as int).filter(pred),
        decreases all.len() - i,
    {
        let cmd = chars_of(all[i].0.as_str());
        let ghost prev = commands_spec().take(i as int).filter(pred);
        let ghost old_v = v@;
        proof {
            let t = commands_spec().take(i + 1);
            assert(commands_spec().len() == 6);
            assert(t.len() == i + 1);
            assert(t.drop_last() =~= commands_spec().take(i as int));
            assert(t.last() == commands_spec()[i as int]);
            assert(pairs_view(all@)[i as int] == commands_spec()[i as int]);
            reveal_with_fuel(Seq::filter, 2);
            assert(t.filter(pred) == (if pred(commands_spec()[i as int]) {
                prev.push(commands_spec()[i as int])
            } else {
                prev
            }));
        }
        assert(cmd@ == commands_spec()[i as int].0);
        if q.len() == 0 || contains_chars(&cmd, &q) {
            assert(pred(commands_spec()[i as int]));
            let pair = (all[i].0.clone(), all[i].1.clone());
            v.push(pair);
            assert(v@.drop_last() =~= old_v);
            assert(pairs_view(v@) =~= pairs_view(old_v).push((pair.0@, pair.1@)));
            assert(pairs_view(v@) == commands_spec().take(i + 1).filter(pred));
        } else {
            assert(!pred(commands_spec()[i as int]));
            assert(pairs_view(v@) == commands_spec().take(i + 1).filter(pred));
        }
        i = i + 1;
    }
    assert(commands_spec().take(all.len() as int) =~= commands_spec());
    v
}

/// The help notice: every command with its description.
pub open spec fn help_entry_spec(p: (Seq<char>, Seq<char>)) -> Seq<char> {
    p.0 + " — "@ + p.1
}

/// `comandos: ` followed by the entries joined by ` · `.
pub open spec fn help_notice_spec() -> Seq<char> {
    "comandos: "@ + help_entry_spec(commands_spec()[0]) + " · "@ + help_entry_spec(
        commands_spec()[1],
    ) + " · "@ + help_entry_spec(commands_spec()[2]) + " · "@ + help_entry_spec(
        commands_spec()[3],
    ) + " · "@ + help_entry_spec(commands_spec()[4]) + " · "@ + help_entry_spec(
        commands_spec()[5],
    )
}

/// The notice shown by `/help`: `comandos: /add — … · /pause — … · …`.
pub fn help_notice() -> (s: String)
    ensures
        s@ == help_notice_spec(),
{
    let all = commands();
    assert(all@.len() == pairs_view(all@).len());
    let mut v: Vec<char> = Vec::new();
    extend_str(&mut v, "comandos: ");
    let mut i: usize = 0;
    while i < all.len()
        invariant
            i <= all.len(),
            all@.len() == 6,
            pairs_view(all@) == commands_spec(),
            i == 0 ==> v@ == "comandos: "@,
            i >= 1 ==> v@ == help_prefix(i as int),
        decreases all.len() - i,
    {
        if i > 0 {
            extend_str(&mut v, " · ");
        }
        extend_str(&mut v, all[i].0.as_str());
        extend_str(&mut v, " — ");
        extend_str(&mut v, all[i].1.as_str());
        proof {
            assert(pairs_view(all@)[i as int] == commands_spec()[i as int]);
            if i == 0 {
                assert(v@ =~= help_prefix(1));
            } else {
                assert(v@ =~= help_prefix(i + 1));
            }
        }
        i = i + 1;
    }
    assert(help_prefix(6) =~= help_notice_spec()) by {
        reveal_with_fuel(help_prefix, 7);
    }
    string_of(&v)
}

/// The help notice with its first `n` entries (`n >= 1`).
pub open spec fn help_prefix(n: int) -> Seq<char>
    decreases n,
{
    if n <= 1 {
        "comandos: "@ + help_entry_spec(commands_spec()[0])
    } else {
        help_prefix(n - 1) + " · "@ + help_entry_spec(commands_spec()[n - 1])
    }
}

// ---------------------------------------------------------------------------
// Prompt of the home screen
// ---------------------------------------------------------------------------
/// Label of the home prompt: `> `, or `insira o link: ` while adding.
pub fn home_prompt_label(prompt_add_mode: bool) -> (s: &'static str)
    ensures
        s@ == if prompt_add_mode {
            "insira o link: "@
        } else {
            "> "@
        },
{
    if prompt_add_mode {
        "insira o link: "
    } else {
        "> "
    }
}

/// Question of the delete confirmation: `excluir '<name>'? [Y] ou [N] `.
pub open spec fn confirm_delete_prompt_label_spec(name: Seq<char>) -> Seq<char> {
    "excluir '"@ + name + "'? [Y] ou [N] "@
}

/// Question of the delete confirmation for `name`.
pub fn confirm_delete_prompt_label(name: &str) -> (s: String)
    ensures
        s@ == confirm_delete_prompt_label_spec(name@),
{
    let mut v: Vec<char> = Vec::new();
    extend_str(&mut v, "excluir '");
    extend_str(&mut v, name);
    extend_str(&mut v, "'? [Y] ou [N] ");
    string_of(&v)
}

/// The source of an inline `/add <source>`, trimmed; none when the text does
/// not start with `/add ` or nothing follows it.
pub open spec fn parse_add_command_spec(input: Seq<char>) -> Option<Seq<char>> {
    if starts_with_spec(input, "/add "@) && trim_spec(input.skip(5)).len() > 0 {
        Some(trim_spec(input.skip(5)))
    } else {
        None
    }
}

/// The source of an inline `/add <source>` typed in the prompt.
pub fn parse_add_command(input: &str) -> (r: Option<String>)
    ensures
        r matches Some(s) ==> parse_add_command_spec(input@) == Some(s@),
        r is None ==> parse_add_command_spec(input@) is None,
{
    let chars = chars_of(input);
    let prefix = chars_of("/add ");
    proof {
        reveal_strlit("/add ");
    }
    if !starts_with_chars(&chars, &prefix) {
        return None;
    }
    let mut rest: Vec<char> = Vec::new();
    let mut i: usize = 5;
    while i < chars.len()
        invariant
            5 <= i <= chars.len(),
            rest@ == chars@.subrange(5, i as int),
        decreases chars.len() - i,
    {
        rest.push(chars[i]);
        i = i + 1;
        assert(rest@ =~= chars@.subrange(5, i as int));
    }
    assert(rest@ =~= input@.skip(5));
    let t = trim_chars(&rest);
    if t.len() == 0 {
        None
    } else {
        Some(string_of(&t))
    }
}

/// The palette opens for any text starting with `/`, except the inline
/// `/add ` prefix (whose rest is a source).
pub open spec fn should_open_command_menu_spec(input: Seq<char>) -> bool {
    starts_with_spec(input, "/"@) && !starts_with_spec(input, "/add "@)
}

/// Whether typing `input` opens the command palette.
pub fn should_open_command_menu(input: &str) -> (b: bool)
    ensures
        b == should_open_command_menu_spec(input@),
{
    let chars = chars_of(input);
    let slash = chars_of("/");
    let add = chars_of("/add ");
    starts_with_chars(&chars, &slash) && !starts_with_chars(&chars, &add)
}

// ---------------------------------------------------------------------------
// Byte positions of the prompt cursor
// ---------------------------------------------------------------------------
/// Number of UTF-8 bytes of `c` (`char::len_utf8`).
pub open spec fn utf8_width(c: char) -> nat {
    let u = c as u32;
    if u < 0x80 {
        1
    } else if u < 0x800 {
        2
    } else if u < 0x10000 {
        3
    } else {
        4
    }
}

/// Byte offset of character index `k` in `s`.
pub open spec fn byte_offset(s: Seq<char>, k: int) -> nat
    decreases k,
{
    if k <= 0 || s.len() == 0 {
        0
    } else if k > s.len() {
        byte_offset(s, s.len() as int)
    } else {
        byte_offset(s, k - 1) + utf8_width(s[k - 1])
    }
}

/// Number of UTF-8 bytes of `s`.
pub open spec fn byte_len(s: Seq<char>) -> nat {
    byte_offset(s, s.len() as int)
}

/// `pos` is the byte offset of some character index of `s` (a char boundary).
pub open spec fn is_boundary(s: Seq<char>, pos: int) -> bool {
    exists|k: int| 0 <= k <= s.len() && byte_offset(s, k) == pos
}

/// The character index whose byte offset in `s` is `pos`.
pub open spec fn char_index_of(s: Seq<char>, pos: int) -> int {
    choose|k: int| 0 <= k <= s.len() && byte_offset(s, k) == pos
}

/// `char::len_utf8`.
pub fn char_width(c: char) -> (w: usize)
    ensures
        w == utf8_width(c),
{
    let u = c as u32;
    if u < 0x80 {
        1
    } else if u < 0x800 {
        2
    } else if u < 0x10000 {
        3
    } else {
        4
    }
}

pub proof fn lemma_byte_offset_mono(s: Seq<char>, j: int, k: int)
    requires
        0 <= j <= k <= s.len(),
    ensures
        byte_offset(s, j) <= byte_offset(s, k),
        j < k ==> byte_offset(s, j) < byte_offset(s, k),
    decreases k - j,
{
    if j < k {
        lemma_byte_offset_mono(s, j, k - 1);
    }
}

/// The byte offset of index `j` depends only on the first `j` characters.
pub proof fn lemma_byte_offset_prefix(s: Seq<char>, t: Seq<char>, j: int)
    requires
        0 <= j <= s.len(),
        j <= t.len(),
        s.take(j) == t.take(j),
    ensures
        byte_offset(s, j) == byte_offset(t, j),
    decreases j,
{
    if j > 0 {
        assert(s.take(j - 1) =~= s.take(j).take(j - 1));
        assert(t.take(j - 1) =~= t.take(j).take(j - 1));
        assert(s[j - 1] == s.take(j)[j - 1]);
        assert(t[j - 1] == t.take(j)[j - 1]);
        lemma_byte_offset_prefix(s, t, j - 1);
    }
}

/// Byte offsets past a prefix `a` add up.
pub proof fn lemma_byte_offset_concat(a: Seq<char>, b: Seq<char>, j: int)
    requires
        0 <= j <= b.len(),
    ensures
        byte_offset(a + b, a.len() + j) == byte_len(a) + byte_offset(b, j),
    decreases j,
{
    if j == 0 {
        assert((a + b).take(a.len() as int) =~= a.take(a.len() as int));
        lemma_byte_offset_prefix(a + b, a, a.len() as int);
        assert(byte_offset(b, 0) == 0);
    } else {
        lemma_byte_offset_concat(a, b, j - 1);
        assert((a + b)[a.len() + j - 1] == b[j - 1]);
    }
}

/// The byte length of a concatenation.
pub proof fn lemma_byte_len_concat(a: Seq<char>, b: Seq<char>)
    ensures
        byte_len(a + b) == byte_len(a) + byte_len(b),
{
    lemma_byte_offset_concat(a, b, b.len() as int);
}

/// The byte length of a prefix is the byte offset of its end.
pub proof fn lemma_byte_len_take(s: Seq<char>, k: int)
    requires
        0 <= k <= s.len(),
    ensures
        byte_len(s.take(k)) == byte_offset(s, k),
        byte_len(s) == byte_len(s.take(k)) + byte_len(s.skip(k)),
{
    assert(s.take(k).take(k) =~= s.take(k));
    lemma_byte_offset_prefix(s.take(k), s, k);
    assert(s =~= s.take(k) + s.skip(k));
    lemma_byte_len_concat(s.take(k), s.skip(k));
}

/// The byte offsets of distinct character indices differ.
proof fn lemma_boundary_unique(s: Seq<char>, j: int, k: int)
    requires
        0 <= j <= s.len(),
        0 <= k <= s.len(),
        byte_offset(s, j) == byte_offset(s, k),
    ensures
        j == k,
{
    if j < k {
        lemma_byte_offset_mono(s, j, k);
    } else if k < j {
        lemma_byte_offset_mono(s, k, j);
    }
}

/// Finds the character index of byte offset `pos` (a char boundary) by
/// walking the characters.
fn char_index_at(s: &Vec<char>, pos: usize) -> (k: usize)
    requires
        is_boundary(s@, pos as int),
    ensures
        k <= s@.len(),
        byte_offset(s@, k as int) == pos,
        k == char_index_of(s@, pos as int),
{
    let ghost target = char_index_of(s@, pos as int);
    let n = s.len();
    let mut k: usize = 0;
    let mut off: usize = 0;
    while off < pos
        invariant
            0 <= target <= n,
            n == s@.len(),
            byte_offset(s@, target) == pos,
            k <= target,
            off == byte_offset(s@, k as int),
        decreases target - k,
    {
        assert(k < target);
        proof {
            lemma_byte_offset_mono(s@, k + 1, target);
        }
        off = off + char_width(s[k]);
        k = k + 1;
    }
    proof {
        lemma_byte_offset_mono(s@, k as int, target);
        if k < target {
            lemma_byte_offset_mono(s@, k as int, target);
        }
    }
    k
}

/// Inserts `c` into `s` at byte offset `pos` (a char boundary) and returns
/// the byte offset just after it.
pub fn insert_char_at(s: &mut String, pos: usize, c: char) -> (new_pos: usize)
    requires
        is_boundary(old(s)@, pos as int),
        pos + 4 <= usize::MAX,
    ensures
        final(s)@ == old(s)@.take(char_index_of(old(s)@, pos as int)).push(c) + old(s)@.skip(
            char_index_of(old(s)@, pos as int),
        ),
        new_pos == pos + utf8_width(c),
        is_boundary(final(s)@, new_pos as int),
        char_index_of(final(s)@, new_pos as int) == char_index_of(old(s)@, pos as int) + 1,
{
    let chars = chars_of(s.as_str());
    let k = char_index_at(&chars, pos);
    let mut v: Vec<char> = Vec::new();
    let mut i: usize = 0;
    while i < chars.len()
        invariant
            k <= chars.len(),
            i <= chars.len(),
            i <= k ==> v@ == chars@.take(i as int),
            i > k ==> v@ == chars@.take(k as int).push(c) + chars@.subrange(k as int, i as int),
        decreases chars.len() - i,
    {
        if i == k {
            v.push(c);
        }
        v.push(chars[i]);
        i = i + 1;
        assert(i <= k ==> v@ =~= chars@.take(i as int));
        assert(i > k ==> v@ =~= chars@.take(k as int).push(c) + chars@.subrange(k as int, i as int));
    }
    if k == chars.len() {
        v.push(c);
    }
    assert(v@ =~= chars@.take(k as int).push(c) + chars@.skip(k as int));
    proof {
        assert(v@.take(k as int) =~= chars@.take(k as int));
        lemma_byte_offset_prefix(v@, chars@, k as int);
        assert(v@[k as int] == c);
        assert(byte_offset(v@, k + 1) == byte_offset(v@, k as int) + utf8_width(c));
        let t = char_index_of(v@, (pos + utf8_width(c)) as int);
        lemma_boundary_unique(v@, t, k + 1);
    }
    *s = string_of(&v);
    pos + char_width(c)
}

/// Deleting right after an insertion restores both the text and the
/// cursor: typing `c` at boundary `pos` gives the text and offset that
/// `insert_char_at` returns, and a backspace there (as `backspace_char_at`
/// does it) gives back the text and `pos`.
pub proof fn lemma_backspace_undoes_insert(s: Seq<char>, pos: int, c: char)
    requires
        is_boundary(s, pos),
    ensures
        ({
            let k = char_index_of(s, pos);
            let t = s.take(k).push(c) + s.skip(k);
            let p1 = pos + utf8_width(c);
            let k1 = char_index_of(t, p1);
            &&& is_boundary(t, p1)
            &&& p1 > 0
            &&& k1 == k + 1
            &&& t.take(k1 - 1) + t.skip(k1) == s
            &&& byte_offset(t, k1 - 1) == pos
        }),
{
    let k = char_index_of(s, pos);
    let t = s.take(k).push(c) + s.skip(k);
    let p1 = pos + utf8_width(c);
    assert(0 <= k <= s.len() && byte_offset(s, k) == pos);
    assert(t.take(k) =~= s.take(k));
    lemma_byte_offset_prefix(t, s, k);
    assert(t[k] == c);
    assert(byte_offset(t, k + 1) == byte_offset(t, k) + utf8_width(c));
    assert(byte_offset(t, k + 1) == p1);
    let k1 = char_index_of(t, p1);
    lemma_boundary_unique(t, k1, k + 1);
    assert(t.take(k) + t.skip(k + 1) =~= s);
}

/// Deletes the character before byte offset `pos` (a char boundary) and
/// returns the new offset (0 at the start).
pub fn backspace_char_at(s: &mut String, pos: usize) -> (new_pos: usize)
    requires
        is_boundary(old(s)@, pos as int),
    ensures
        pos == 0 ==> final(s)@ == old(s)@ && new_pos == 0,
        pos > 0 ==> ({
            let k = char_index_of(old(s)@, pos as int);
            &&& final(s)@ == old(s)@.take(k - 1) + old(s)@.skip(k)
            &&& new_pos == byte_offset(old(s)@, k - 1)
        }),
        is_boundary(final(s)@, new_pos as int),
{
    if pos == 0 {
        assert(byte_offset(s@, 0) == 0);
        return 0;
    }
    let chars = chars_of(s.as_str());
    let k = char_index_at(&chars, pos);
    assert(k > 0);
    let mut v: Vec<char> = Vec::new();
    let mut off: usize = 0;
    let mut i: usize = 0;
    while i < chars.len()
        invariant
            0 < k <= chars.len(),
            i <= chars.len(),
            byte_offset(chars@, k as int) == pos,
            i < k ==> v@ == chars@.take(i as int) && off == byte_offset(chars@, i as int),
            i >= k ==> v@ == chars@.take(k - 1) + chars@.subrange(k as int, i as int)
                && off == byte_offset(chars@, k - 1),
        decreases chars.len() - i,
    {
        if i + 1 != k {
            v.push(chars[i]);
        }
        if i + 1 < k {
            proof {
                lemma_byte_offset_mono(chars@, i + 1, k as int);
            }
            off = off + char_width(chars[i]);
        }
        i = i + 1;
        assert(i < k ==> v@ =~= chars@.take(i as int));
        assert(i >= k ==> v@ =~= chars@.take(k - 1) + chars@.subrange(k as int, i as int));
    }
    assert(v@ =~= chars@.take(k - 1) + chars@.skip(k as int));
    proof {
        assert(v@.take(k - 1) =~= chars@.take(k - 1));
        lemma_byte_offset_prefix(v@, chars@, k - 1);
    }
    *s = string_of(&v);
    off
}

/// Column of the prompt cursor: the number of characters before byte offset
/// `min(cursor, len)`, at most `max_visible`.
pub fn prompt_cursor_col(input: &str, cursor_bytes: usize, max_visible: usize) -> (col: usize)
    requires
        is_boundary(input@, cursor_bytes as int) || cursor_bytes >= byte_len(input@),
    ensures
        ({
            let k = if cursor_bytes >= byte_len(input@) {
                input@.len() as int
            } else {
                char_index_of(input@, cursor_bytes as int)
            };
            col == if k < max_visible {
                k
            } else {
                max_visible as int
            }
        }),
{
    let chars = chars_of(input);
    let mut k: usize = 0;
    let mut off: usize = 0;
    while k < chars.len() && off < cursor_bytes
        invariant
            k <= chars.len(),
            off == byte_offset(chars@, k as int),
            off <= cursor_bytes,
            is_boundary(input@, cursor_bytes as int) || cursor_bytes >= byte_len(input@),
            is_boundary(input@, cursor_bytes as int) ==> k <= char_index_of(input@, cursor_bytes as int),
            chars@ == input@,
        decreases chars.len() - k,
    {
        proof {
            if is_boundary(input@, cursor_bytes as int) {
                let t = char_index_of(input@, cursor_bytes as int);
                assert(0 <= t <= input@.len() && byte_offset(input@, t) == cursor_bytes);
                assert(k < t);
                lemma_byte_offset_mono(chars@, k + 1, t);
            } else {
                lemma_byte_offset_mono(chars@, k + 1, chars.len() as int);
                assert(byte_offset(chars@, chars.len() as int) == byte_len(input@));
            }
            assert(byte_offset(chars@, k + 1) == off + utf8_width(chars@[k as int]));
            assert(byte_offset(chars@, k + 1) <= cursor_bytes);
        }
        off = off + char_width(chars[k]);
        k = k + 1;
    }
    proof {
        if cursor_bytes >= byte_len(input@) {
            if k < chars.len() {
                lemma_byte_offset_mono(chars@, k as int, chars.len() as int);
            }
        } else {
            let t = char_index_of(input@, cursor_bytes as int);
            lemma_byte_offset_mono(chars@, t, chars.len() as int);
            if k < t {
                lemma_byte_offset_mono(chars@, k as int, t);
            }
        }
    }
    if k < max_visible {
        k
    } else {
        max_visible
    }
}


// ---------------------------------------------------------------------------
// Table of the library
// ---------------------------------------------------------------------------
/// Width of the row prefix: marker (2) + id (4) + space (1).
pub const ROW_PREFIX_W: usize = 7;

/// Width of the progress column: block bar and the percentage beside it.
pub const PROGRESS_COL_W: usize = 31;

/// Width of the status column.
pub const STATE_W: usize = 13;

/// Narrowest progress column of the library card.
pub const MIN_BAR_W: usize = 14;

/// Narrowest name column for which wrapping stays readable.
pub const NAME_W_MIN: usize = 10;

/// Width of the network columns (down, up, eta, ratio with separators).
pub const METRICS_FIXED_W: usize = 38;

/// Width of the part of a table row that is not the name.
pub const ROW_FIXED_W: usize = 53;

/// `x` clamped to the range of `u16` (saturating arithmetic).
pub open spec fn sat16(x: int) -> int {
    if x < 0 {
        0
    } else if x > 0xffff {
        0xffff
    } else {
        x
    }
}

/// The entry of a listed block (menu, dialog or table) shown on screen line
/// `row`, when entries start at `first_row` and each takes `stride` lines;
/// none outside the entries or on a divider line. The entry count is taken
/// modulo 2^16, as the screen arithmetic is done in `u16`.
pub open spec fn table_row_to_index_spec(row: int, first_row: int, row_count: int, stride: int) -> Option<
    int,
> {
    let count16 = row_count % 0x10000;
    let last_row = sat16(first_row + sat16(sat16(count16 - 1) * stride));
    if row_count == 0 || stride == 0 || row < first_row || row > last_row || (row - first_row)
        % stride != 0 {
        None
    } else {
        Some((row - first_row) / stride)
    }
}

/// The screen line on which entry `i` of a block is drawn (`first_row` plus
/// `i` strides) maps back to entry `i`, for every block that fits on screen.
pub proof fn lemma_entry_line_maps_back(first_row: int, i: int, count: int, stride: int)
    requires
        0 < stride <= 0xffff,
        0 <= first_row,
        0 <= i < count < 0x10000,
        first_row + (count - 1) * stride <= 0xffff,
    ensures
        table_row_to_index_spec(first_row + i * stride, first_row, count, stride) == Some(i),
{
    assert(i * stride <= (count - 1) * stride) by (nonlinear_arith)
        requires
            0 <= i <= count - 1,
            0 < stride,
    ;
    assert(0 <= (count - 1) * stride) by (nonlinear_arith)
        requires
            0 <= count - 1,
            0 < stride,
    ;
    lemma_mod_multiples_basic(i, stride);
    lemma_div_multiples_vanish(i, stride);
    assert(count % 0x10000 == count) by {
        lemma_small_mod(count as nat, 0x10000);
    }
    assert((first_row + i * stride - first_row) == i * stride);
    assert(stride * i == i * stride) by (nonlinear_arith);
}

/// Entry shown on screen line `row` of a block listed from `first_row` on,
/// `stride` lines per entry.
pub fn table_row_to_index(row: u16, first_row: u16, row_count: usize, stride: u16) -> (r: Option<
    usize,
>)
    ensures
        r matches Some(i) ==> table_row_to_index_spec(
            row as int,
            first_row as int,
            row_count as int,
            stride as int,
        ) == Some(i as int),
        r is None ==> table_row_to_index_spec(
            row as int,
            first_row as int,
            row_count as int,
            stride as int,
        ) is None,
{
    if row_count == 0 || stride == 0 {
        return None;
    }
    let count16: u16 = (row_count % 0x10000) as u16;
    let below: u16 = count16.saturating_sub(1);
    proof {
        assert(below as int * stride as int <= 0xffff * 0xffff) by (nonlinear_arith)
            requires
                below <= 0xffff,
                stride <= 0xffff,
        ;
    }
    let prod: u32 = below as u32 * stride as u32;
    let span: u16 = if prod > 0xffff {
        0xffff
    } else {
        prod as u16
    };
    let last_row = first_row.saturating_add(span);
    if row < first_row || row > last_row {
        return None;
    }
    let offset = row - first_row;
    if offset % stride != 0 {
        return None;
    }
    Some((offset / stride) as usize)
}

/// `n` copies of `─`.
pub fn separator_line(width: usize) -> (s: String)
    ensures
        s@ == repeat_spec('─', width as nat),
{
    let mut v: Vec<char> = Vec::new();
    push_repeat(&mut v, '─', width);
    string_of(&v)
}

/// Header of the network columns: ` DOWN SPEED UP SPEED   ETA      RATIO `.
pub open spec fn metrics_header_spec() -> Seq<char> {
    " "@ + pad_end_spec("DOWN SPEED"@, 10) + " "@ + pad_end_spec("UP SPEED"@, 10) + " "@
        + pad_end_spec("ETA"@, 8) + " "@ + pad_end_spec("RATIO"@, 6)
}

/// Header line of the library table.
pub open spec fn session_table_header_spec(name_width: nat, show_metrics: bool, bar_w: nat) -> Seq<
    char,
> {
    "  "@ + pad_start_spec("ID"@, 4) + " "@ + pad_end_spec("PROGRESSO"@, bar_w) + " "@
        + pad_end_spec("STATUS"@, 13) + (if show_metrics {
        metrics_header_spec()
    } else {
        Seq::empty()
    }) + " "@ + pad_end_spec("NOME"@, name_width)
}

/// Header line of the library table: numeric columns right-aligned, text
/// columns left-aligned, the progress column `bar_w` wide.
pub fn session_table_header(name_width: usize, show_metrics: bool, bar_w: usize) -> (s: String)
    ensures
        s@ == session_table_header_spec(name_width as nat, show_metrics, bar_w as nat),
{
    let mut v: Vec<char> = Vec::new();
    extend_str(&mut v, "  ");
    push_padded_start(&mut v, &chars_of("ID"), 4);
    extend_str(&mut v, " ");
    push_padded_end(&mut v, &chars_of("PROGRESSO"), bar_w);
    extend_str(&mut v, " ");
    push_padded_end(&mut v, &chars_of("STATUS"), 13);
    if show_metrics {
        extend_str(&mut v, " ");
        push_padded_end(&mut v, &chars_of("DOWN SPEED"), 10);
        extend_str(&mut v, " ");
        push_padded_end(&mut v, &chars_of("UP SPEED"), 10);
        extend_str(&mut v, " ");
        push_padded_end(&mut v, &chars_of("ETA"), 8);
        extend_str(&mut v, " ");
        push_padded_end(&mut v, &chars_of("RATIO"), 6);
    }
    extend_str(&mut v, " ");
    push_padded_end(&mut v, &chars_of("NOME"), name_width);
    assert(v@ =~= session_table_header_spec(name_width as nat, show_metrics, bar_w as nat));
    string_of(&v)
}

/// A data line of the library table.
pub open spec fn session_table_line_spec(
    marker: Seq<char>,
    id: nat,
    bar: Seq<char>,
    state: Seq<char>,
    name: Seq<char>,
    name_width: nat,
    metrics: Option<Seq<char>>,
) -> Seq<char> {
    marker + pad_start_spec(decimal_spec(id), 4) + " "@ + bar + " "@ + pad_end_spec(state, 13) + (
    match metrics {
        Some(m) => m,
        None => Seq::empty(),
    }) + " "@ + pad_end_spec(truncate_spec(name, name_width), name_width)
}

/// A data line of the library table: marker and id, progress bar, status,
/// network columns when given, and the name truncated to `name_width`.
pub fn session_table_line(
    marker: &str,
    id: usize,
    bar: &str,
    state: &str,
    name: &str,
    name_width: usize,
    metrics: Option<&str>,
) -> (s: String)
    ensures
        s@ == session_table_line_spec(
            marker@,
            id as nat,
            bar@,
            state@,
            name@,
            name_width as nat,
            match metrics {
                Some(m) => Some(m@),
                None => None,
            },
        ),
{
    let mut v: Vec<char> = Vec::new();
    extend_str(&mut v, marker);
    let mut digits: Vec<char> = Vec::new();
    push_decimal(&mut digits, id as u64);
    push_padded_start(&mut v, &digits, 4);
    extend_str(&mut v, " ");
    extend_str(&mut v, bar);
    extend_str(&mut v, " ");
    push_padded_end(&mut v, &chars_of(state), 13);
    match metrics {
        Some(m) => extend_str(&mut v, m),
        None => {},
    }
    extend_str(&mut v, " ");
    let short = truncate_chars(&chars_of(name), name_width);
    push_padded_end(&mut v, &short, name_width);
    assert(v@ =~= session_table_line_spec(
        marker@,
        id as nat,
        bar@,
        state@,
        name@,
        name_width as nat,
        match metrics {
            Some(m) => Some(m@),
            None => None,
        },
    ));
    string_of(&v)
}

/// The network columns from their four texts: ` {down:<10} {up:<10} {eta:<8} {ratio:<6}`.
pub open spec fn metrics_columns_spec(
    down: Seq<char>,
    up: Seq<char>,
    eta: Seq<char>,
    ratio: Seq<char>,
) -> Seq<char> {
    " "@ + pad_end_spec(down, 10) + " "@ + pad_end_spec(up, 10) + " "@ + pad_end_spec(eta, 8)
        + " "@ + pad_end_spec(ratio, 6)
}

/// The network columns of a table line from the texts of its four fields.
pub fn metrics_columns(down: &str, up: &str, eta: &str, ratio: &str) -> (s: String)
    ensures
        s@ == metrics_columns_spec(down@, up@, eta@, ratio@),
{
    let mut v: Vec<char> = Vec::new();
    extend_str(&mut v, " ");
    push_padded_end(&mut v, &chars_of(down), 10);
    extend_str(&mut v, " ");
    push_padded_end(&mut v, &chars_of(up), 10);
    extend_str(&mut v, " ");
    push_padded_end(&mut v, &chars_of(eta), 8);
    extend_str(&mut v, " ");
    push_padded_end(&mut v, &chars_of(ratio), 6);
    assert(v@ =~= metrics_columns_spec(down@, up@, eta@, ratio@));
    string_of(&v)
}

/// Network columns of a source that is still being resolved: all `—`.
pub fn empty_metrics_text() -> (s: String)
    ensures
        s@ == metrics_columns_spec("—"@, "—"@, "—"@, "—"@),
{
    metrics_columns("—", "—", "—", "—")
}

/// `HH:MM:SS` of a number of seconds (hours keep all their digits).
pub open spec fn format_eta_spec(seconds: nat) -> Seq<char> {
    zero_pad_spec(decimal_spec(seconds / 3600), 2) + ":"@ + zero_pad_spec(
        decimal_spec((seconds % 3600) / 60),
        2,
    ) + ":"@ + zero_pad_spec(decimal_spec(seconds % 60), 2)
}

/// Remaining time as `HH:MM:SS`, e.g. `00:04:12`.
pub fn format_eta(seconds: u64) -> (s: String)
    ensures
        s@ == format_eta_spec(seconds as nat),
{
    let mut v: Vec<char> = Vec::new();
    push_zero_padded(&mut v, seconds / 3600, 2);
    extend_str(&mut v, ":");
    push_zero_padded(&mut v, (seconds % 3600) / 60, 2);
    extend_str(&mut v, ":");
    push_zero_padded(&mut v, seconds % 60, 2);
    assert(v@ =~= format_eta_spec(seconds as nat));
    string_of(&v)
}

/// The text of the eta column: `Done` once finished, else the remaining
/// time when it is known, else `—`.
pub fn eta_column(finished: bool, eta_seconds: Option<u64>) -> (s: String)
    ensures
        s@ == if finished {
            "Done"@
        } else {
            match eta_seconds {
                Some(t) => format_eta_spec(t as nat),
                None => "—"@,
            }
        },
{
    if finished {
        string_lit("Done")
    } else {
        match eta_seconds {
            Some(t) => format_eta(t),
            None => string_lit("—"),
        }
    }
}

// ---------------------------------------------------------------------------
// Views, keys and actions
// ---------------------------------------------------------------------------
/// The screens of the interactive UI.
#[derive(Clone, Copy, PartialEq, Eq, Debug, Structural)]
pub enum UiView {
    /// Home: library and history cards, prompt at the bottom.
    Home,
    /// Command palette floating over the home screen.
    Menu,
}

/// Label of the view in the header.
pub fn view_label(view: &UiView) -> (s: &'static str)
    ensures
        s@ == match *view {
            UiView::Home => "INÍCIO"@,
            UiView::Menu => "COMANDOS"@,
        },
{
    match view {
        UiView::Home => "INÍCIO",
        UiView::Menu => "COMANDOS",
    }
}

/// Shortcuts of the current view, shown in the footer.
pub open spec fn footer_hints_spec(
    view: UiView,
    prompt_add_mode: bool,
    confirming_delete: bool,
    context_menu_open: bool,
) -> Seq<char> {
    match view {
        UiView::Home => if context_menu_open {
            "↑/↓ navegar · Enter executa · Esc fecha"@
        } else if confirming_delete {
            "Y exclui · N/Esc cancela"@
        } else if prompt_add_mode {
            "digite/cole a origem · Enter adiciona · Esc cancela"@
        } else {
            "p pausar · r retomar · x remover · Del excluir · / comandos · ↑/↓ seleciona"@
        },
        UiView::Menu => "↑/↓ navegar · Enter executa · Tab completa · Esc fecha"@,
    }
}

/// Shortcuts of the current view (the popup, the confirmation and the add
/// mode take precedence, in that order).
pub fn footer_hints(
    view: &UiView,
    prompt_add_mode: bool,
    confirming_delete: bool,
    context_menu_open: bool,
) -> (s: &'static str)
    ensures
        s@ == footer_hints_spec(*view, prompt_add_mode, confirming_delete, context_menu_open),
{
    match view {
        UiView::Home => if context_menu_open {
            "↑/↓ navegar · Enter executa · Esc fecha"
        } else if confirming_delete {
            "Y exclui · N/Esc cancela"
        } else if prompt_add_mode {
            "digite/cole a origem · Enter adiciona · Esc cancela"
        } else {
            "p pausar · r retomar · x remover · Del excluir · / comandos · ↑/↓ seleciona"
        },
        UiView::Menu => "↑/↓ navegar · Enter executa · Tab completa · Esc fecha",
    }
}

/// The keys the UI reacts to (the terminal's key codes, as far as they
/// matter here).
#[derive(Clone, Copy, PartialEq, Eq, Debug, Structural)]
pub enum Key {
    Char(char),
    Enter,
    Esc,
    Backspace,
    Delete,
    Left,
    Right,
    Up,
    Down,
    Home,
    End,
    Tab,
    Other,
}

/// Single-key action of the home screen on the selected library row.
#[derive(Clone, Copy, PartialEq, Eq, Debug, Structural)]
pub enum HomeAction {
    /// Pause the selected torrent.
    Pause,
    /// Resume the selected torrent.
    Resume,
    /// Remove the selected torrent from the queue (files stay).
    Remove,
    /// Ask to delete the selected torrent and its files.
    Delete,
}

/// The action of a key on the home screen: only with an empty prompt and
/// neither the add mode nor a delete confirmation active.
pub open spec fn home_action_for_key_spec(
    key: Key,
    prompt_empty: bool,
    prompt_add_mode: bool,
    confirming_delete: bool,
) -> Option<HomeAction> {
    if !prompt_empty || prompt_add_mode || confirming_delete {
        None
    } else {
        match key {
            Key::Char(c) => if c == 'p' || c == 'P' {
                Some(HomeAction::Pause)
            } else if c == 'r' || c == 'R' {
                Some(HomeAction::Resume)
            } else if c == 'x' || c == 'X' {
                Some(HomeAction::Remove)
            } else {
                None
            },
            Key::Delete => Some(HomeAction::Delete),
            _ => None,
        }
    }
}

/// The single-key action of `key` on the home screen, if any.
pub fn home_action_for_key(
    key: Key,
    prompt_empty: bool,
    prompt_add_mode: bool,
    confirming_delete: bool,
) -> (r: Option<HomeAction>)
    ensures
        r == home_action_for_key_spec(key, prompt_empty, prompt_add_mode, confirming_delete),
{
    if !prompt_empty || prompt_add_mode || confirming_delete {
        return None;
    }
    match key {
        Key::Char(c) => if c == 'p' || c == 'P' {
            Some(HomeAction::Pause)
        } else if c == 'r' || c == 'R' {
            Some(HomeAction::Resume)
        } else if c == 'x' || c == 'X' {
            Some(HomeAction::Remove)
        } else {
            None
        },
        Key::Delete => Some(HomeAction::Delete),
        _ => None,
    }
}

// ---------------------------------------------------------------------------
// Context menu of the library
// ---------------------------------------------------------------------------
/// Action offered by the context menu of a library entry.
#[derive(Clone, Copy, PartialEq, Eq, Debug, Structural)]
pub enum ContextAction {
    Pause,
    Resume,
    Stop,
    Delete,
}

/// Options of the context menu: all four for a torrent of the session, only
/// `Delete` for a pending source.
pub open spec fn context_menu_options_spec(entry_index: int, session_len: int) -> Seq<ContextAction> {
    if entry_index < session_len {
        seq![ContextAction::Pause, ContextAction::Resume, ContextAction::Stop, ContextAction::Delete]
    } else {
        seq![ContextAction::Delete]
    }
}

/// Options of the context menu of entry `entry_index`.
pub fn context_menu_options(entry_index: usize, session_len: usize) -> (v: Vec<ContextAction>)
    ensures
        v@ == context_menu_options_spec(entry_index as int, session_len as int),
{
    let mut v: Vec<ContextAction> = Vec::new();
    if entry_index < session_len {
        v.push(ContextAction::Pause);
        v.push(ContextAction::Resume);
        v.push(ContextAction::Stop);
        v.push(ContextAction::Delete);
    } else {
        v.push(ContextAction::Delete);
    }
    assert(v@ =~= context_menu_options_spec(entry_index as int, session_len as int));
    v
}

/// Label of a context action.
pub open spec fn context_action_label_spec(action: ContextAction) -> Seq<char> {
    match action {
        ContextAction::Pause => "Pausar"@,
        ContextAction::Resume => "Retomar"@,
        ContextAction::Stop => "Parar"@,
        ContextAction::Delete => "Excluir"@,
    }
}

/// Label of a context action.
pub fn context_action_label(action: ContextAction) -> (s: &'static str)
    ensures
        s@ == context_action_label_spec(action),
{
    match action {
        ContextAction::Pause => "Pausar",
        ContextAction::Resume => "Retomar",
        ContextAction::Stop => "Parar",
        ContextAction::Delete => "Excluir",
    }
}

/// The option of a popup at `rect = (left, top, width, height)` shown on
/// line `row`: options start just below the top border.
pub open spec fn context_option_at_spec(row: int, top: int, height: int, option_count: int) -> Option<
    int,
> {
    if row < top || row >= top + height || row < top + 1 || row - (top + 1) >= option_count {
        None
    } else {
        Some(row - (top + 1))
    }
}

/// Option of the context popup shown on screen line `row`, if any.
pub fn context_option_at(row: u16, rect: (u16, u16, u16, u16), option_count: usize) -> (r: Option<
    usize,
>)
    requires
        rect.1 + rect.3 <= 0xffff,
    ensures
        r matches Some(i) ==> context_option_at_spec(
            row as int,
            rect.1 as int,
            rect.3 as int,
            option_count as int,
        ) == Some(i as int),
        r is None ==> context_option_at_spec(
            row as int,
            rect.1 as int,
            rect.3 as int,
            option_count as int,
        ) is None,
{
    let (_, top, _, height) = rect;
    if row < top || row >= top + height {
        return None;
    }
    if row < top + 1 {
        return None;
    }
    let rel = (row - (top + 1)) as usize;
    if rel < option_count {
        Some(rel)
    } else {
        None
    }
}

/// Moves the highlighted option by `delta`, wrapping around; a list of at
/// most one option stays at 0.
pub open spec fn cycle_context_selection_spec(selected: int, len: int, delta: int) -> int {
    if len <= 1 {
        0
    } else {
        (selected + delta) % len
    }
}

/// Moves the highlighted option of a list of `len` by `delta`, wrapping.
pub fn cycle_context_selection(selected: usize, len: usize, delta: isize) -> (r: usize)
    requires
        selected <= isize::MAX,
        len <= isize::MAX,
        isize::MIN <= selected + delta <= isize::MAX,
    ensures
        r == cycle_context_selection_spec(selected as int, len as int, delta as int),
        len >= 1 ==> r < len,
{
    if len <= 1 {
        return 0;
    }
    let s: usize = selected % len;
    if delta >= 0 {
        let d: usize = (delta as usize) % len;
        proof {
            lemma_add_mod_noop(selected as int, delta as int, len as int);
        }
        (s + d) % len
    } else {
        let magnitude: usize = ((-(delta + 1)) as usize) + 1;
        assert(magnitude == -delta);
        let d: usize = magnitude % len;
        proof {
            lemma_mod_add_multiples_vanish(s - d, len as int);
            lemma_sub_mod_noop(selected as int, magnitude as int, len as int);
        }
        (s + len - d) % len
    }
}

/// Moving the highlight one step down and then one step up returns to the
/// option it started on.
pub proof fn lemma_cycle_down_up_returns(selected: int, len: int)
    requires
        2 <= len,
        0 <= selected < len,
    ensures
        cycle_context_selection_spec(cycle_context_selection_spec(selected, len, 1), len, -1)
            == selected,
{
    if selected + 1 < len {
        lemma_small_mod((selected + 1) as nat, len as nat);
        lemma_small_mod(selected as nat, len as nat);
    } else {
        lemma_mod_add_multiples_vanish(0, len);
        assert(len % len == 0);
        lemma_mod_add_multiples_vanish(-1, len);
        lemma_small_mod((len - 1) as nat, len as nat);
    }
}

/// Line of a context option: `> ` marks the highlighted one.
pub fn context_item_line(label: &str, selected: bool) -> (s: String)
    ensures
        s@ == (if selected {
            "> "@
        } else {
            "  "@
        }) + label@,
{
    let mut v: Vec<char> = Vec::new();
    if selected {
        extend_str(&mut v, "> ");
    } else {
        extend_str(&mut v, "  ");
    }
    extend_str(&mut v, label);
    string_of(&v)
}

// ---------------------------------------------------------------------------
// Escape sequences
// ---------------------------------------------------------------------------
/// The text kept so far, and whether an escape sequence is being skipped
/// (from an ESC up to its closing `m`, both dropped).
pub open spec fn strip_fold(s: Seq<char>) -> (Seq<char>, bool)
    decreases s.len(),
{
    if s.len() == 0 {
        (seq![], false)
    } else {
        let st = strip_fold(s.drop_last());
        let c = s.last();
        if st.1 {
            (st.0, c != 'm')
        } else if c == '\u{1b}' {
            (st.0, true)
        } else {
            (st.0.push(c), false)
        }
    }
}

/// `s` without its SGR escape sequences.
pub open spec fn strip_ansi_spec(s: Seq<char>) -> Seq<char> {
    strip_fold(s).0
}

/// Removes the escape sequences a terminal style adds: from each ESC up to
/// and including the next `m` (or the end).
pub fn strip_ansi(s: &str) -> (r: String)
    ensures
        r@ == strip_ansi_spec(s@),
{
    let cs = chars_of(s);
    let mut out: Vec<char> = Vec::new();
    let mut skipping = false;
    let mut i: usize = 0;
    while i < cs.len()
        invariant
            i <= cs.len(),
            (out@, skipping) == strip_fold(cs@.take(i as int)),
        decreases cs.len() - i,
    {
        let c = cs[i];
        proof {
            assert(cs@.take(i + 1).drop_last() =~= cs@.take(i as int));
            assert(cs@.take(i + 1).last() == c);
        }
        if skipping {
            if c == 'm' {
                skipping = false;
            }
        } else if c == '\u{1b}' {
            skipping = true;
        } else {
            out.push(c);
        }
        i = i + 1;
    }
    assert(cs@.take(cs.len() as int) =~= cs@);
    string_of(&out)
}

/// The single-key shortcuts act only on an empty prompt, outside the add
/// mode and a delete confirmation: with text typed every key goes to the
/// prompt. With an empty prompt p/P pauses, r/R resumes, x/X removes and
/// Delete deletes; other keys are no shortcut.
pub proof fn lemma_shortcuts_need_empty_prompt(key: Key, prompt_empty: bool, add_mode: bool, confirming: bool)
    ensures
        !prompt_empty || add_mode || confirming ==> home_action_for_key_spec(
            key,
            prompt_empty,
            add_mode,
            confirming,
        ) is None,
        prompt_empty && !add_mode && !confirming ==> ({
            let r = home_action_for_key_spec(key, prompt_empty, add_mode, confirming);
            &&& (key == Key::Char('p') || key == Key::Char('P')) <==> r == Some(HomeAction::Pause)
            &&& (key == Key::Char('r') || key == Key::Char('R')) <==> r == Some(HomeAction::Resume)
            &&& (key == Key::Char('x') || key == Key::Char('X')) <==> r == Some(HomeAction::Remove)
            &&& key == Key::Delete <==> r == Some(HomeAction::Delete)
        }),
{
}

} // verus!
