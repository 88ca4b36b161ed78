//! The daemon's protocol: requests, the webseed lines of its snapshot, the
//! paths of its socket and pidfile, and the framing of messages (a `u32`
//! little-endian length, then the payload).
use vstd::prelude::*;

use crate::text::{chars_of, extend_str, string_of};

verus! {

/// Largest payload a frame may announce (64 KiB).
pub const MAX_FRAME_LEN: u32 = 65536;

/// A request of a client (the UI or the `add` command) to the daemon.
#[derive(Clone, Debug)]
pub enum DaemonRequest {
    /// Add a source (magnet, torrent URL or local file).
    Add { source: String },
    Pause { id: usize },
    Resume { id: usize },
    /// Remove from the queue, keeping the files.
    Stop { id: usize },
    /// Delete the torrent and its data.
    Delete { id: usize },
    /// The current snapshot of the queue.
    GetState,
    /// Stop the daemon.
    Shutdown,
}

/// A webseed download in progress, as the snapshot reports it.
#[derive(Clone, Debug)]
pub struct WebseedSnapshot {
    pub id: usize,
    pub source: String,
    pub name: String,
    pub downloaded_bytes: u64,
    pub total_bytes: u64,
    pub done_files: usize,
    pub total_files: usize,
    pub state: String,
}

/// `name` joined to the directory `dir` (a relative name: appended after a
/// separator, unless `dir` is empty or already ends with one).
pub open spec fn join_spec(dir: Seq<char>, name: Seq<char>) -> Seq<char> {
    if dir.len() == 0 {
        name
    } else if dir.last() == '/' {
        dir + name
    } else {
        dir + seq!['/'] + name
    }
}

/// `name` joined to the directory `dir`.
pub fn join_path(dir: &str, name: &str) -> (p: String)
    ensures
        p@ == join_spec(dir@, name@),
{
    let d = chars_of(dir);
    let mut v: Vec<char> = Vec::new();
    if d.len() == 0 {
        extend_str(&mut v, name);
    } else if d[d.len() - 1] == '/' {
        extend_str(&mut v, dir);
        extend_str(&mut v, name);
    } else {
        extend_str(&mut v, dir);
        v.push('/');
        extend_str(&mut v, name);
    }
    assert(v@ =~= join_spec(dir@, name@));
    string_of(&v)
}

/// Paths of the daemon: its socket and its pidfile.
#[derive(Clone, Debug)]
pub struct DaemonPaths {
    pub socket: String,
    pub pid: String,
}

impl DaemonPaths {
    /// The socket `daemon.sock` and the pidfile `daemon.pid` in the
    /// configuration folder.
    pub fn new(config_folder: &str) -> (p: DaemonPaths)
        ensures
            p.socket@ == join_spec(config_folder@, "daemon.sock"@),
            p.pid@ == join_spec(config_folder@, "daemon.pid"@),
    {
        DaemonPaths {
            socket: join_path(config_folder, "daemon.sock"),
            pid: join_path(config_folder, "daemon.pid"),
        }
    }
}

/// Why a frame is refused.
#[derive(Clone, Copy, PartialEq, Eq, Debug, Structural)]
pub enum FrameError {
    /// The payload does not fit the 32-bit length of a frame.
    PayloadTooLarge,
    /// The announced length exceeds `MAX_FRAME_LEN`.
    FrameTooLarge,
}

/// The four little-endian bytes of `n`.
pub open spec fn le_bytes(n: nat) -> Seq<u8> {
    seq![(n % 256) as u8, ((n / 256) % 256) as u8, ((n / 65536) % 256) as u8, ((n / 16777216) % 256) as u8]
}

/// The number of four little-endian bytes.
pub open spec fn le_value(b: Seq<u8>) -> nat {
    (b[0] + b[1] * 256 + b[2] * 65536 + b[3] * 16777216) as nat
}

/// Appends the frame of `payload` to `out`: its length as four
/// little-endian bytes, then the payload; a payload of more than `u32::MAX`
/// bytes is refused and `out` is left as it was.
pub fn encode_frame(out: &mut Vec<u8>, payload: &[u8]) -> (r: Result<(), FrameError>)
    ensures
        payload@.len() <= u32::MAX ==> r is Ok && final(out)@ == old(out)@ + le_bytes(
            payload@.len(),
        ) + payload@,
        payload@.len() > u32::MAX ==> r == Err::<(), FrameError>(FrameError::PayloadTooLarge)
            && final(out)@ == old(out)@,
{
    if payload.len() > 0xffff_ffff {
        return Err(FrameError::PayloadTooLarge);
    }
    let n: u32 = payload.len() as u32;
    out.push((n % 256) as u8);
    out.push(((n / 256) % 256) as u8);
    out.push(((n / 65536) % 256) as u8);
    out.push(((n / 16777216) % 256) as u8);
    let mut i: usize = 0;
    let ghost head = out@;
    while i < payload.len()
        invariant
            i <= payload@.len(),
            out@ == head + payload@.take(i as int),
        decreases payload.len() - i,
    {
        out.push(payload[i]);
        i = i + 1;
        assert(out@ =~= head + payload@.take(i as int));
    }
    assert(payload@.take(payload@.len() as int) =~= payload@);
    assert(head =~= old(out)@ + le_bytes(payload@.len()));
    Ok(())
}

/// The payload length announced by a frame header (four little-endian
/// bytes); a length over `MAX_FRAME_LEN` is refused.
pub fn frame_len(header: &[u8]) -> (r: Result<u32, FrameError>)
    requires
        header@.len() == 4,
    ensures
        le_value(header@) <= MAX_FRAME_LEN ==> r == Ok::<u32, FrameError>(le_value(header@) as u32),
        le_value(header@) > MAX_FRAME_LEN ==> r == Err::<u32, FrameError>(FrameError::FrameTooLarge),
{
    let len: u32 = header[0] as u32 + header[1] as u32 * 256 + header[2] as u32 * 65536
        + header[3] as u32 * 16777216;
    if len > MAX_FRAME_LEN {
        return Err(FrameError::FrameTooLarge);
    }
    Ok(len)
}

/// The header written by `encode_frame` announces the payload's length.
pub proof fn lemma_frame_round_trip(n: nat)
    requires
        n <= u32::MAX,
    ensures
        le_value(le_bytes(n)) == n,
{
    let b = le_bytes(n);
    assert(b[0] == n % 256);
    assert(b[1] == (n / 256) % 256);
    assert(b[2] == (n / 65536) % 256);
    assert(b[3] == (n / 16777216) % 256);
    assert(n % 256 + ((n / 256) % 256) * 256 + ((n / 65536) % 256) * 65536 + ((n / 16777216)
        % 256) * 16777216 == n) by (nonlinear_arith)
        requires
            n <= u32::MAX,
    {
        assert(n / 16777216 < 256);
        assert(n == (n / 256) * 256 + n % 256);
        assert(n / 256 == ((n / 256) / 256) * 256 + (n / 256) % 256);
        assert((n / 256) / 256 == n / 65536);
        assert(n / 65536 == ((n / 65536) / 256) * 256 + (n / 65536) % 256);
        assert((n / 65536) / 256 == n / 16777216);
    }
}

} // verus!
