//! The metadata note of the program: a GNU ELF note named `opentorrent`
//! whose description names the version, the repository and the purpose of
//! the project.
use vstd::prelude::*;

use crate::bottom::VERSION;
use crate::ipc::le_bytes;
use crate::text::{extend_str, string_of};

verus! {

/// Repository of the project.
pub const REPOSITORY: &'static str = "https://github.com/filhotecmail/opentorrent";

/// Purpose of the project.
pub const DESCRIPTION: &'static str = "Cliente BitTorrent de linha de comando para Linux e Windows que baixa torrents e magnet links pelo terminal";

/// Text of the note's description.
pub open spec fn note_text_spec(version: Seq<char>, repo: Seq<char>, description: Seq<char>) -> Seq<
    char,
> {
    "OpenTorrent v"@ + version + "\nRepositorio: "@ + repo + "\nObjetivo: "@ + description + "\n"@
}

/// The name of the note, NUL-terminated (12 bytes).
pub open spec fn note_name_bytes() -> Seq<u8> {
    seq![111u8, 112, 101, 110, 116, 111, 114, 114, 101, 110, 116, 0]
}

/// Zero bytes that pad `n` bytes to a multiple of 4.
pub open spec fn padding(n: nat) -> Seq<u8> {
    Seq::new(((4 - n % 4) % 4) as nat, |_i: int| 0u8)
}

/// The note: name size, description size (modulo 2^32) and type (0) as
/// little-endian `u32`s, the name, the description (UTF-8), then zeros up
/// to a multiple of 4 bytes.
pub open spec fn note_spec(desc: Seq<u8>) -> Seq<u8> {
    let body = le_bytes(12) + le_bytes(desc.len() % 0x1_0000_0000) + le_bytes(0) + note_name_bytes()
        + desc;
    body + padding(body.len())
}

/// Appends the four little-endian bytes of `n`.
fn push_le32(v: &mut Vec<u8>, n: u32)
    ensures
        final(v)@ == old(v)@ + le_bytes(n as nat),
{
    v.push((n % 256) as u8);
    v.push(((n / 256) % 256) as u8);
    v.push(((n / 65536) % 256) as u8);
    v.push(((n / 16777216) % 256) as u8);
    assert(v@ =~= old(v)@ + le_bytes(n as nat));
}

/// Appends the bytes of `s`.
fn extend_bytes(v: &mut Vec<u8>, s: &[u8])
    ensures
        final(v)@ == old(v)@ + s@,
{
    let mut i: usize = 0;
    while i < s.len()
        invariant
            i <= s@.len(),
            v@ == old(v)@ + s@.take(i as int),
        decreases s.len() - i,
    {
        v.push(s[i]);
        i = i + 1;
        assert(v@ =~= old(v)@ + s@.take(i as int));
    }
    assert(s@.take(s@.len() as int) =~= s@);
}

/// The note for a version, repository and purpose.
pub fn build_note(version: &str, repo: &str, description: &str) -> (note: Vec<u8>)
    ensures
        note@ == note_spec(vstd::utf8::encode_utf8(note_text_spec(version@, repo@, description@))),
        note@.len() % 4 == 0,
{
    let mut t: Vec<char> = Vec::new();
    extend_str(&mut t, "OpenTorrent v");
    extend_str(&mut t, version);
    extend_str(&mut t, "\nRepositorio: ");
    extend_str(&mut t, repo);
    extend_str(&mut t, "\nObjetivo: ");
    extend_str(&mut t, description);
    extend_str(&mut t, "\n");
    let text = string_of(&t);
    let desc: &[u8] = text.as_str().as_bytes();
    let ghost d = desc@;
    assert(d == vstd::utf8::encode_utf8(note_text_spec(version@, repo@, description@)));
    let dlen: usize = desc.len();
    let n: u32 = ((dlen as u64) % 0x1_0000_0000u64) as u32;
    let mut note: Vec<u8> = Vec::new();
    push_le32(&mut note, 12);
    push_le32(&mut note, n);
    push_le32(&mut note, 0);
    let name: [u8; 12] = [111u8, 112, 101, 110, 116, 111, 114, 114, 101, 110, 116, 0];
    assert(name@ =~= note_name_bytes());
    extend_bytes(&mut note, &name);
    extend_bytes(&mut note, desc);
    let ghost body = note@;
    assert(body =~= le_bytes(12) + le_bytes(d.len() % 0x1_0000_0000) + le_bytes(0) + note_name_bytes() + d);
    let k: usize = (4 - note.len() % 4) % 4;
    let mut i: usize = 0;
    while i < k
        invariant
            i <= k,
            k == (4 - body.len() % 4) % 4,
            note@ == body + Seq::new(i as nat, |_i: int| 0u8),
        decreases k - i,
    {
        note.push(0);
        i = i + 1;
        assert(note@ =~= body + Seq::new(i as nat, |_i: int| 0u8));
    }
    assert(note@ =~= note_spec(d));
    note
}

/// The note of this program.
pub fn project_note() -> (note: Vec<u8>)
    ensures
        note@ == note_spec(vstd::utf8::encode_utf8(note_text_spec(VERSION@, REPOSITORY@, DESCRIPTION@))),
{
    build_note(VERSION, REPOSITORY, DESCRIPTION)
}

} // verus!
