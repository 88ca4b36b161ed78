//! The daemon's own decisions: where its systemd unit lives and what it
//! holds, the messages of its commands and answers, the order of the queue
//! it reports, and the registry of its webseed tasks.
use vstd::prelude::*;

use crate::cli::{config_dir_text, FolderError};
use crate::ipc::{join_path, join_spec, WebseedSnapshot};
use crate::text::{chars_of, decimal_spec, extend_str, push_decimal, string_of};
use crate::ui::string_lit;
use crate::webseed::{state_label_spec, WebseedProgress, WebseedState, WebseedTask};

verus! {

/// The name of the daemon's systemd user service.
pub const SERVICE_NAME: &'static str = "opentorrent-daemon";

// ---------------------------------------------------------------------------
// The systemd unit
// ---------------------------------------------------------------------------
/// The unit's path: `systemd/user/opentorrent-daemon.service` in the user's
/// configuration folder (the parent of the program's own).
pub open spec fn unit_path_spec(config_dir: Seq<char>) -> Seq<char> {
    join_spec(
        join_spec(join_spec(config_dir, "systemd"@), "user"@),
        "opentorrent-daemon.service"@,
    )
}

/// The unit's path below the user's configuration folder `config_dir`.
pub fn service_unit_path_in(config_dir: &str) -> (p: String)
    ensures
        p@ == unit_path_spec(config_dir@),
{
    let a = join_path(config_dir, "systemd");
    let b = join_path(a.as_str(), "user");
    join_path(b.as_str(), "opentorrent-daemon.service")
}

/// The unit's path for this user; refused when the configuration folder
/// cannot be found.
pub fn service_unit_path() -> (r: Result<String, FolderError>)
    ensures
        r matches Ok(p) ==> exists|dir: Seq<char>| p@ == unit_path_spec(dir),
        r matches Err(e) ==> e == FolderError::NoConfig,
{
    match config_dir_text() {
        Some(dir) => Ok(service_unit_path_in(dir.as_str())),
        None => Err(FolderError::NoConfig),
    }
}

/// The unit: the daemon runs the binary `exe` headless, restarted on
/// failure.
pub open spec fn unit_content_spec(exe: Seq<char>) -> Seq<char> {
    "[Unit]\nDescription=OpenTorrent daemon (downloads em background)\n\n[Service]\nType=simple\nExecStart="@
        + exe + " --daemon-headless\nRestart=on-failure\nRestartSec=3\n\n[Install]\nWantedBy=default.target\n"@
}

/// The text of the unit that runs the binary at `exe`.
pub fn service_unit_content(exe: &str) -> (s: String)
    ensures
        s@ == unit_content_spec(exe@),
{
    let mut v = chars_of(
        "[Unit]\nDescription=OpenTorrent daemon (downloads em background)\n\n[Service]\nType=simple\nExecStart=",
    );
    extend_str(&mut v, exe);
    extend_str(
        &mut v,
        " --daemon-headless\nRestart=on-failure\nRestartSec=3\n\n[Install]\nWantedBy=default.target\n",
    );
    string_of(&v)
}

/// Whether the unit must be written: when none can be read at its place,
/// or when what is there differs from `content`.
pub fn unit_needs_write(existing: Option<&str>, content: &str) -> (b: bool)
    ensures
        b == match existing {
            Some(e) => e@ != content@,
            None => true,
        },
{
    match existing {
        Some(e) => {
            let a = chars_of(e);
            let c = chars_of(content);
            !chars_same(&a, &c)
        },
        None => true,
    }
}

/// Whether two character sequences are equal.
fn chars_same(a: &Vec<char>, b: &Vec<char>) -> (r: bool)
    ensures
        r == (a@ == b@),
{
    if a.len() != b.len() {
        return false;
    }
    let mut i: usize = 0;
    while i < a.len()
        invariant
            i <= a.len(),
            a.len() == b.len(),
            forall|j: int| 0 <= j < i ==> a@[j] == b@[j],
        decreases a.len() - i,
    {
        if a[i] != b[i] {
            return false;
        }
        i = i + 1;
    }
    assert(a@ =~= b@);
    true
}

// ---------------------------------------------------------------------------
// Messages
// ---------------------------------------------------------------------------
/// What `daemon status` prints: the pid in the pidfile (without surrounding
/// blanks) when the daemon answers.
pub fn status_message(running: bool, pid_file: &str) -> (s: String)
    ensures
        running ==> s@ == "daemon rodando (pid="@ + crate::text::trim_spec(pid_file@) + ")"@,
        !running ==> s@ == "daemon não está rodando"@,
{
    if running {
        let mut v = chars_of("daemon rodando (pid=");
        let p = chars_of(pid_file);
        let t = crate::text::trim_chars(&p);
        crate::text::extend_chars(&mut v, &t);
        extend_str(&mut v, ")");
        string_of(&v)
    } else {
        string_lit("daemon não está rodando")
    }
}

/// What `daemon install` prints, given whether systemd user services are
/// available.
pub fn install_message(systemd: bool) -> (s: String)
    ensures
        systemd ==> s@ == "service instalado (opentorrent-daemon)"@,
        !systemd ==> s@ == "systemd user indisponível — daemon roda por `start` manual (fallback)"@,
{
    if systemd {
        string_lit("service instalado (opentorrent-daemon)")
    } else {
        string_lit("systemd user indisponível — daemon roda por `start` manual (fallback)")
    }
}

/// The answer to an action on a torrent id that is not in the session.
pub fn not_found_message(id: usize) -> (s: String)
    ensures
        s@ == "torrent não encontrado (id="@ + decimal_spec(id as nat) + ")"@,
{
    let mut v = chars_of("torrent não encontrado (id=");
    push_decimal(&mut v, id as u64);
    extend_str(&mut v, ")");
    string_of(&v)
}

// ---------------------------------------------------------------------------
// The queue's order
// ---------------------------------------------------------------------------
/// Row `a` comes before row `b`: a smaller id, or the same id and an
/// earlier place (a stable sort by id).
pub open spec fn id_before(ids: Seq<usize>, a: usize, b: usize) -> bool {
    ids[a as int] < ids[b as int] || (ids[a as int] == ids[b as int] && a < b)
}

/// The order in which the rows with these ids are reported: every row
/// once, by id, rows of equal id in their first order.
pub fn order_by_id(ids: &Vec<usize>) -> (order: Vec<usize>)
    ensures
        order.len() == ids.len(),
        forall|k: int| 0 <= k < order.len() ==> order@[k] < ids.len(),
        forall|j: usize| j < ids.len() ==> #[trigger] order@.contains(j),
        forall|a: int, b: int|
            0 <= a < b < order.len() ==> id_before(ids@, #[trigger] order@[a], #[trigger] order@[b]),
{
    let mut out: Vec<usize> = Vec::new();
    let mut i: usize = 0;
    while i < ids.len()
        invariant
            i <= ids.len(),
            out.len() == i,
            forall|k: int| 0 <= k < out.len() ==> out@[k] < i,
            forall|j: usize| j < i ==> #[trigger] out@.contains(j),
            forall|a: int, b: int|
                0 <= a < b < out.len() ==> id_before(ids@, #[trigger] out@[a], #[trigger] out@[b]),
        decreases ids.len() - i,
    {
        let mut p: usize = 0;
        while p < out.len() && ids[out[p]] <= ids[i]
            invariant
                p <= out.len(),
                i < ids.len(),
                forall|k: int| 0 <= k < out.len() ==> out@[k] < i,
                forall|k: int| 0 <= k < p ==> id_before(ids@, #[trigger] out@[k], i),
            decreases out.len() - p,
        {
            p = p + 1;
        }
        let ghost before = out@;
        proof {
            if p < out.len() {
                assert(id_before(ids@, i, out@[p as int]));
                assert forall|k: int| p <= k < out.len() implies id_before(ids@, i, #[trigger] out@[k]) by {
                    if k > p {
                        assert(id_before(ids@, out@[p as int], out@[k]));
                    }
                }
            }
        }
        out.insert(p, i);
        proof {
            assert(out@ == before.insert(p as int, i));
            assert forall|a: int, b: int| 0 <= a < b < out@.len() implies id_before(
                ids@,
                #[trigger] out@[a],
                #[trigger] out@[b],
            ) by {
                if b < p {
                    assert(out@[a] == before[a] && out@[b] == before[b]);
                } else if b == p {
                    assert(out@[a] == before[a]);
                } else if a < p {
                    assert(out@[a] == before[a] && out@[b] == before[b - 1]);
                } else if a == p {
                    assert(out@[b] == before[b - 1]);
                } else {
                    assert(out@[a] == before[a - 1] && out@[b] == before[b - 1]);
                }
            }
            assert forall|j: usize| j < i + 1 implies #[trigger] out@.contains(j) by {
                if j == i {
                    assert(out@[p as int] == i);
                } else {
                    assert(before.contains(j));
                    let k = choose|k: int| 0 <= k < before.len() && before[k] == j;
                    if k < p {
                        assert(out@[k] == j);
                    } else {
                        assert(out@[k + 1] == j);
                    }
                }
            }
            assert forall|k: int| 0 <= k < out@.len() implies out@[k] < i + 1 by {
                if k < p {
                    assert(out@[k] == before[k]);
                } else if k > p {
                    assert(out@[k] == before[k - 1]);
                }
            }
        }
        i = i + 1;
    }
    out
}

/// The number of finished torrents and the bytes the session downloaded.
pub open spec fn finished_count(finished: Seq<bool>) -> nat
    decreases finished.len(),
{
    if finished.len() == 0 {
        0
    } else {
        finished_count(finished.drop_last()) + if finished.last() {
            1nat
        } else {
            0nat
        }
    }
}

/// The sum of the values.
pub open spec fn sum_u64(v: Seq<u64>) -> nat
    decreases v.len(),
{
    if v.len() == 0 {
        0
    } else {
        sum_u64(v.drop_last()) + v.last() as nat
    }
}

/// A prefix sums to no more than the whole.
proof fn lemma_sum_prefix(v: Seq<u64>, k: int)
    requires
        0 <= k <= v.len(),
    ensures
        sum_u64(v.take(k)) <= sum_u64(v),
    decreases v.len() - k,
{
    if k < v.len() {
        lemma_sum_prefix(v, k + 1);
        assert(v.take(k + 1).drop_last() =~= v.take(k));
    } else {
        assert(v.take(k) =~= v);
    }
}

/// A prefix counts no more than its length.
proof fn lemma_finished_le(f: Seq<bool>)
    ensures
        finished_count(f) <= f.len(),
    decreases f.len(),
{
    if f.len() > 0 {
        lemma_finished_le(f.drop_last());
    }
}

/// The totals of the queue's snapshot: how many torrents finished and the
/// bytes of all of them (the sum must fit in 64 bits).
pub fn queue_totals(finished: &Vec<bool>, progress_bytes: &Vec<u64>) -> (t: (usize, u64))
    requires
        sum_u64(progress_bytes@) <= u64::MAX,
    ensures
        t.0 == finished_count(finished@),
        t.1 == sum_u64(progress_bytes@),
{
    let mut count: usize = 0;
    let mut i: usize = 0;
    while i < finished.len()
        invariant
            i <= finished.len(),
            count == finished_count(finished@.take(i as int)),
        decreases finished.len() - i,
    {
        proof {
            assert(finished@.take(i + 1).drop_last() =~= finished@.take(i as int));
            lemma_finished_le(finished@.take(i as int));
        }
        if finished[i] {
            count = count + 1;
        }
        i = i + 1;
    }
    assert(finished@.take(finished.len() as int) =~= finished@);
    let mut bytes: u64 = 0;
    let mut j: usize = 0;
    while j < progress_bytes.len()
        invariant
            j <= progress_bytes.len(),
            sum_u64(progress_bytes@) <= u64::MAX,
            bytes == sum_u64(progress_bytes@.take(j as int)),
        decreases progress_bytes.len() - j,
    {
        proof {
            assert(progress_bytes@.take(j + 1).drop_last() =~= progress_bytes@.take(j as int));
            lemma_sum_prefix(progress_bytes@, j + 1);
        }
        bytes = bytes + progress_bytes[j];
        j = j + 1;
    }
    assert(progress_bytes@.take(progress_bytes.len() as int) =~= progress_bytes@);
    (count, bytes)
}

} // verus!
