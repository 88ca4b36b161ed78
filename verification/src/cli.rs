//! The decisions of the command line: default folders, whether a torrent's
//! files are already on disk and what to do then, the outcome of `add`, and
//! the progress bars of the plain (non-interactive) mode with their
//! clickable actions.
use vstd::prelude::*;

use crate::ipc::{join_path, join_spec};
use crate::text::{extend_str, string_of};
use crate::ui::string_lit;

verus! {

// ---------------------------------------------------------------------------
// Folders
// ---------------------------------------------------------------------------
/// The folder of downloads under the home folder: `Downloads` on Windows,
/// `downloads` elsewhere.
pub open spec fn downloads_dir_spec(windows: bool) -> Seq<char> {
    if windows {
        "Downloads"@
    } else {
        "downloads"@
    }
}

/// The default download folder under a home folder:
/// `<home>/Downloads/torrent-downloads` on Windows,
/// `<home>/downloads/torrent-downloads` elsewhere.
pub open spec fn default_output_folder_spec(home: Seq<char>, windows: bool) -> Seq<char> {
    join_spec(join_spec(home, downloads_dir_spec(windows)), "torrent-downloads"@)
}

/// The default download folder under the home folder `home`, on Windows
/// when `windows` holds.
pub fn default_output_folder_from(home: &str, windows: bool) -> (p: String)
    ensures
        p@ == default_output_folder_spec(home@, windows),
{
    let d = if windows {
        join_path(home, "Downloads")
    } else {
        join_path(home, "downloads")
    };
    join_path(d.as_str(), "torrent-downloads")
}

/// A folder of the user that could not be found.
#[derive(Clone, Copy, PartialEq, Eq, Debug, Structural)]
pub enum FolderError {
    NoHome,
    NoConfig,
}

impl FolderError {
    /// The message of the error.
    pub fn message(&self) -> (s: String)
        ensures
            s@ == match *self {
                FolderError::NoHome => "could not determine the user home directory"@,
                FolderError::NoConfig => "could not determine the user config directory"@,
            },
    {
        match self {
            FolderError::NoHome => string_lit("could not determine the user home directory"),
            FolderError::NoConfig => string_lit("could not determine the user config directory"),
        }
    }
}

/// The home folder of the user (`dirs::home_dir`), as text; it depends on
/// the environment, so nothing is stated of it.
#[verifier::external_body]
fn home_dir_text() -> (p: Option<String>) {
    dirs::home_dir().map(|p| p.to_string_lossy().into_owned())
}

/// The configuration folder of the user (`dirs::config_dir`), as text; it
/// depends on the environment, so nothing is stated of it.
#[verifier::external_body]
pub(crate) fn config_dir_text() -> (p: Option<String>) {
    dirs::config_dir().map(|p| p.to_string_lossy().into_owned())
}

/// The default download folder, under the home folder of the user, on
/// Windows when `windows` holds.
pub fn default_output_folder(windows: bool) -> (r: Result<String, FolderError>)
    ensures
        r matches Ok(p) ==> exists|home: Seq<char>| p@ == default_output_folder_spec(home, windows),
        r matches Err(e) ==> e == FolderError::NoHome,
{
    match home_dir_text() {
        Some(home) => Ok(default_output_folder_from(home.as_str(), windows)),
        None => Err(FolderError::NoHome),
    }
}

/// The configuration folder of the program: `opentorrent` in the user's
/// configuration folder.
pub fn config_folder() -> (r: Result<String, FolderError>)
    ensures
        r matches Ok(p) ==> exists|dir: Seq<char>| p@ == join_spec(dir, "opentorrent"@),
        r matches Err(e) ==> e == FolderError::NoConfig,
{
    match config_dir_text() {
        Some(dir) => Ok(join_path(dir.as_str(), "opentorrent")),
        None => Err(FolderError::NoConfig),
    }
}

// ---------------------------------------------------------------------------
// Smart resume
// ---------------------------------------------------------------------------
/// Whether a torrent's files are already in the output folder.
#[derive(Clone, Copy, PartialEq, Eq, Debug, Structural)]
pub enum ExistingState {
    /// No file is on disk yet.
    Missing,
    /// Some file is on disk, but not all are complete.
    Partial,
    /// All files are on disk with their expected size.
    Complete,
}

/// A file of a torrent and what the disk holds of it.
#[derive(Clone, Copy, PartialEq, Eq, Debug, Structural)]
pub struct FileOnDisk {
    /// Padding files are not real files.
    pub padding: bool,
    /// Expected size.
    pub length: u64,
    /// Size of the file on disk, if it exists.
    pub on_disk: Option<u64>,
}

/// The file of index `i` is to be downloaded.
pub open spec fn file_wanted(files: Seq<FileOnDisk>, only_files: Option<Seq<usize>>, i: int) -> bool {
    !files[i].padding && match only_files {
        Some(sel) => sel.contains(i as usize),
        None => true,
    }
}

/// What is on disk of the wanted files: nothing, everything, or a part.
pub open spec fn existing_state_spec(files: Seq<FileOnDisk>, only_files: Option<Seq<usize>>) -> ExistingState {
    let any = exists|i: int| 0 <= i < files.len() && file_wanted(files, only_files, i) && files[i].on_disk is Some;
    let all = forall|i: int|
        0 <= i < files.len() && file_wanted(files, only_files, i) ==> (#[trigger] files[i].on_disk matches Some(
            n,
        ) && n == files[i].length);
    if !any {
        ExistingState::Missing
    } else if all {
        ExistingState::Complete
    } else {
        ExistingState::Partial
    }
}

/// Whether `sel` holds `i`.
fn contains_index(sel: &Vec<usize>, i: usize) -> (b: bool)
    ensures
        b == sel@.contains(i),
{
    let mut k: usize = 0;
    while k < sel.len()
        invariant
            k <= sel@.len(),
            forall|j: int| 0 <= j < k ==> sel@[j] != i,
        decreases sel.len() - k,
    {
        if sel[k] == i {
            return true;
        }
        k = k + 1;
    }
    false
}

/// What is on disk of the wanted files of a torrent (padding files and the
/// files left out by `only_files` do not count).
pub fn existing_state(files: &Vec<FileOnDisk>, only_files: Option<&Vec<usize>>) -> (st: ExistingState)
    ensures
        st == existing_state_spec(
            files@,
            match only_files {
                Some(v) => Some(v@),
                None => None,
            },
        ),
{
    let ghost sel = match only_files {
        Some(v) => Some(v@),
        None => None,
    };
    let mut any_existing = false;
    let mut all_complete = true;
    let mut i: usize = 0;
    while i < files.len()
        invariant
            i <= files@.len(),
            sel == match only_files {
                Some(v) => Some(v@),
                None => None,
            },
            any_existing == exists|j: int|
                0 <= j < i && file_wanted(files@, sel, j) && files@[j].on_disk is Some,
            all_complete == forall|j: int|
                0 <= j < i && file_wanted(files@, sel, j) ==> (#[trigger] files@[j].on_disk matches Some(
                    n,
                ) && n == files@[j].length),
        decreases files.len() - i,
    {
        let f = files[i];
        let wanted = !f.padding && match only_files {
            Some(v) => contains_index(v, i),
            None => true,
        };
        assert(wanted == file_wanted(files@, sel, i as int));
        assert(f.on_disk is Some ==> files@[i as int].on_disk is Some);
        if wanted {
            match f.on_disk {
                Some(n) => {
                    any_existing = true;
                    if n != f.length {
                        all_complete = false;
                    }
                },
                None => {
                    all_complete = false;
                },
            }
        }
        proof {
            if wanted && f.on_disk is Some {
                assert(file_wanted(files@, sel, i as int) && files@[i as int].on_disk is Some);
            }
        }
        i = i + 1;
    }
    if !any_existing {
        ExistingState::Missing
    } else if all_complete {
        ExistingState::Complete
    } else {
        ExistingState::Partial
    }
}

/// What `add` does with a torrent after looking at the disk.
#[derive(Clone, Copy, PartialEq, Eq, Debug, Structural)]
pub enum ResumeDecision {
    /// Everything is already downloaded: report and skip it.
    SkipComplete,
    /// Partial files: report and resume them (overwriting).
    ResumePartial,
    /// Download, overwriting existing files or not.
    Download { overwrite: bool },
}

/// The smart resume: a complete torrent is skipped unless `--overwrite`
/// asks for it, a partial one is resumed, a missing one is downloaded.
pub open spec fn smart_resume_spec(existing: ExistingState, overwrite: bool) -> ResumeDecision {
    match existing {
        ExistingState::Complete => if overwrite {
            ResumeDecision::Download { overwrite: true }
        } else {
            ResumeDecision::SkipComplete
        },
        ExistingState::Partial => ResumeDecision::ResumePartial,
        ExistingState::Missing => ResumeDecision::Download { overwrite },
    }
}

/// What to do with a torrent whose files are in state `existing`.
pub fn smart_resume(existing: ExistingState, overwrite: bool) -> (d: ResumeDecision)
    ensures
        d == smart_resume_spec(existing, overwrite),
{
    match existing {
        ExistingState::Complete => if overwrite {
            ResumeDecision::Download { overwrite: true }
        } else {
            ResumeDecision::SkipComplete
        },
        ExistingState::Partial => ResumeDecision::ResumePartial,
        ExistingState::Missing => ResumeDecision::Download { overwrite },
    }
}

/// How `add` ends once every source was processed.
#[derive(Clone, Copy, PartialEq, Eq, Debug, Structural)]
pub enum AddSummary {
    /// Only listing was asked.
    Listed,
    /// Something was added: wait for it.
    Wait,
    /// Nothing to download, everything already handled.
    NothingToDo,
    /// No torrent could be added.
    Failed,
}

/// The end of `add`.
pub fn add_summary(list: bool, added: bool, any_handled: bool) -> (s: AddSummary)
    ensures
        s == if list {
            AddSummary::Listed
        } else if added {
            AddSummary::Wait
        } else if any_handled {
            AddSummary::NothingToDo
        } else {
            AddSummary::Failed
        },
{
    if list {
        AddSummary::Listed
    } else if added {
        AddSummary::Wait
    } else if any_handled {
        AddSummary::NothingToDo
    } else {
        AddSummary::Failed
    }
}

// ---------------------------------------------------------------------------
// Progress bars of the plain mode
// ---------------------------------------------------------------------------
/// Width of the message column of a bar.
pub const MSG_WIDTH: u16 = 40;

/// Width of the bar itself.
pub const BAR_WIDTH: u16 = 20;

/// Width of an action button.
pub const ACTION_BTN_WIDTH: u16 = 9;

/// Distance between the starts of two buttons.
pub const ACTION_GAP: u16 = 10;

/// Column where the buttons start.
pub const ACTIONS_COL: u16 = 64;

/// The buttons after a bar: pause or resume, stop, delete.
pub open spec fn actions_string_spec(paused: bool) -> Seq<char> {
    (if paused {
        "[Retomar]"@
    } else {
        "[Pausar ]"@
    }) + " [Parar  ] [Excluir]"@
}

/// The buttons after a bar; the first resumes a paused torrent, else pauses.
pub fn actions_string(paused: bool) -> (s: String)
    ensures
        s@ == actions_string_spec(paused),
{
    let mut v: Vec<char> = Vec::new();
    if paused {
        extend_str(&mut v, "[Retomar]");
    } else {
        extend_str(&mut v, "[Pausar ]");
    }
    extend_str(&mut v, " [Parar  ] [Excluir]");
    string_of(&v)
}

/// A click on `[Excluir]` of torrent `id`, with `armed` the torrent whose
/// deletion waits for confirmation: a second click on the same torrent
/// confirms (`true`, nothing armed after); any other arms `id` (`false`).
pub fn confirm_delete_click(armed: Option<usize>, id: usize) -> (r: (bool, Option<usize>))
    ensures
        r == (if armed == Some(id) {
            (true, None::<usize>)
        } else {
            (false, Some(id))
        }),
{
    match armed {
        Some(a) => if a == id {
            (true, None)
        } else {
            (false, Some(id))
        },
        None => (false, Some(id)),
    }
}

/// The action of a button.
#[derive(Clone, Copy, PartialEq, Eq, Debug, Structural)]
pub enum ClickAction {
    /// Pause, or resume a paused torrent.
    Toggle,
    /// Remove from the queue, keeping the files.
    Stop,
    /// Delete with the files.
    Delete,
}

/// The bar on mouse row `row` (1-based) when `n` bars fill the bottom of a
/// terminal of `term_rows` lines, one per line (`n` taken modulo 2^16).
pub open spec fn bar_index_at_spec(row: int, term_rows: int, n: int) -> Option<int> {
    let n16 = n % 0x10000;
    let top = (if term_rows > n16 {
        term_rows - n16
    } else {
        0
    }) + 1;
    let r = (if row > 1 {
        row - 1
    } else {
        0
    }) + 1;
    if n16 == 0 || term_rows == 0 || r < top || r > term_rows {
        None
    } else {
        Some(r - top)
    }
}

/// The bar clicked on mouse row `row`, if any.
pub fn bar_index_at(row: u16, term_rows: u16, n: usize) -> (r: Option<usize>)
    ensures
        r matches Some(i) ==> bar_index_at_spec(row as int, term_rows as int, n as int) == Some(i as int),
        r is None ==> bar_index_at_spec(row as int, term_rows as int, n as int) is None,
{
    let n16: u16 = (n % 0x10000) as u16;
    if n16 == 0 || term_rows == 0 {
        return None;
    }
    let top = term_rows.saturating_sub(n16) + 1;
    let r = row.saturating_sub(1) + 1;
    if r < top || r > term_rows {
        return None;
    }
    Some((r - top) as usize)
}

/// The button under mouse column `column` (1-based).
pub open spec fn action_at_column_spec(column: int) -> Option<ClickAction> {
    let col = (if column > 1 {
        column - 1
    } else {
        0
    }) + 1;
    let start = ACTIONS_COL + 1;
    if start <= col < start + ACTION_BTN_WIDTH {
        Some(ClickAction::Toggle)
    } else if start + ACTION_GAP <= col < start + ACTION_GAP + ACTION_BTN_WIDTH {
        Some(ClickAction::Stop)
    } else if start + 2 * ACTION_GAP <= col < start + 2 * ACTION_GAP + ACTION_BTN_WIDTH {
        Some(ClickAction::Delete)
    } else {
        None
    }
}

/// The button under mouse column `column`, if any.
pub fn action_at_column(column: u16) -> (a: Option<ClickAction>)
    ensures
        a == action_at_column_spec(column as int),
{
    let col = column.saturating_sub(1) + 1;
    let start = ACTIONS_COL + 1;
    if start <= col && col < start + ACTION_BTN_WIDTH {
        Some(ClickAction::Toggle)
    } else if start + ACTION_GAP <= col && col < start + ACTION_GAP + ACTION_BTN_WIDTH {
        Some(ClickAction::Stop)
    } else if start + 2 * ACTION_GAP <= col && col < start + 2 * ACTION_GAP + ACTION_BTN_WIDTH {
        Some(ClickAction::Delete)
    } else {
        None
    }
}

/// The main file of a torrent: the longest one (the last of equally long
/// ones), with its length; none for no file.
pub open spec fn main_file_spec(lengths: Seq<u64>) -> Option<(int, u64)>
    decreases lengths.len(),
{
    if lengths.len() == 0 {
        None
    } else {
        let last = lengths.len() - 1;
        match main_file_spec(lengths.drop_last()) {
            Some(m) => if lengths[last] >= m.1 {
                Some((last, lengths[last]))
            } else {
                Some(m)
            },
            None => Some((last, lengths[last])),
        }
    }
}

/// The main file of a torrent, whose progress the bar shows.
pub fn main_file(lengths: &Vec<u64>) -> (m: Option<(usize, u64)>)
    ensures
        m matches Some(p) ==> main_file_spec(lengths@) == Some((p.0 as int, p.1)),
        m is None ==> main_file_spec(lengths@) is None,
{
    let mut best: Option<(usize, u64)> = None;
    let mut i: usize = 0;
    while i < lengths.len()
        invariant
            i <= lengths@.len(),
            best matches Some(p) ==> main_file_spec(lengths@.take(i as int)) == Some((p.0 as int, p.1)),
            best is None ==> main_file_spec(lengths@.take(i as int)) is None,
        decreases lengths.len() - i,
    {
        proof {
            assert(lengths@.take(i + 1).drop_last() =~= lengths@.take(i as int));
        }
        match best {
            Some((_, len)) => {
                if lengths[i] >= len {
                    best = Some((i, lengths[i]));
                }
            },
            None => {
                best = Some((i, lengths[i]));
            },
        }
        i = i + 1;
    }
    assert(lengths@.take(lengths.len() as int) =~= lengths@);
    best
}

/// Position and length of a bar: the progress of the main file when there
/// is one (0 when unknown), else of the whole torrent; the length is at
/// least 1.
pub fn bar_position(
    main: Option<(usize, u64)>,
    file_progress: &Vec<u64>,
    progress_bytes: u64,
    total_bytes: u64,
) -> (r: (u64, u64))
    ensures
        r == match main {
            Some((i, len)) => (
                if i < file_progress@.len() {
                    file_progress@[i as int]
                } else {
                    0
                },
                if len > 1 {
                    len
                } else {
                    1
                },
            ),
            None => (progress_bytes, if total_bytes > 1 {
                total_bytes
            } else {
                1
            }),
        },
{
    match main {
        Some((i, len)) => {
            let pos = if i < file_progress.len() {
                file_progress[i]
            } else {
                0
            };
            (pos, if len > 1 {
                len
            } else {
                1
            })
        },
        None => (progress_bytes, if total_bytes > 1 {
            total_bytes
        } else {
            1
        }),
    }
}

/// Keeps in `order` the ids of torrents still in the session (`seen`), in
/// order; returns the ids dropped.
pub fn retain_seen(order: &mut Vec<usize>, seen: &Vec<usize>) -> (dropped: Vec<usize>)
    ensures
        final(order)@ == old(order)@.filter(|id: usize| seen@.contains(id)),
        dropped@ == old(order)@.filter(|id: usize| !seen@.contains(id)),
{
    let ghost orig = order@;
    let ghost keep = |id: usize| seen@.contains(id);
    let ghost drop = |id: usize| !seen@.contains(id);
    let mut kept: Vec<usize> = Vec::new();
    let mut gone: Vec<usize> = Vec::new();
    let mut i: usize = 0;
    while i < order.len()
        invariant
            i <= order@.len(),
            order@ == orig,
            keep == (|id: usize| seen@.contains(id)),
            drop == (|id: usize| !seen@.contains(id)),
            kept@ == orig.take(i as int).filter(keep),
            gone@ == orig.take(i as int).filter(drop),
        decreases order.len() - i,
    {
        let id = order[i];
        proof {
            reveal_with_fuel(Seq::filter, 2);
            assert(orig.take(i + 1).drop_last() =~= orig.take(i as int));
        }
        if contains_index(seen, id) {
            kept.push(id);
        } else {
            gone.push(id);
        }
        i = i + 1;
    }
    assert(orig.take(orig.len() as int) =~= orig);
    *order = kept;
    gone
}

/// What the state of a torrent's files on disk means: padding files never
/// count, nor do files left out by `only_files`; the torrent is missing when
/// no other file is on disk, complete when one is and every one is on disk
/// with exactly its expected size, partial otherwise.
pub proof fn lemma_existing_state_meaning(files: Seq<FileOnDisk>, only_files: Option<Seq<usize>>)
    ensures
        (existing_state_spec(files, only_files) == ExistingState::Missing) <==> (forall|i: int|
            0 <= i < files.len() && !(#[trigger] files[i]).padding && (match only_files {
                Some(sel) => sel.contains(i as usize),
                None => true,
            }) ==> files[i].on_disk is None),
        (existing_state_spec(files, only_files) == ExistingState::Complete) <==> ((exists|i: int|
            0 <= i < files.len() && !(#[trigger] files[i]).padding && (match only_files {
                Some(sel) => sel.contains(i as usize),
                None => true,
            }) && files[i].on_disk is Some) && (forall|i: int|
            0 <= i < files.len() && !(#[trigger] files[i]).padding && (match only_files {
                Some(sel) => sel.contains(i as usize),
                None => true,
            }) ==> files[i].on_disk == Some(files[i].length))),
{
    assert forall|i: int| 0 <= i < files.len() implies (file_wanted(files, only_files, i) <==> (
    !(#[trigger] files[i]).padding && (match only_files {
        Some(sel) => sel.contains(i as usize),
        None => true,
    }))) by {}
}

/// What is on disk of a padding file never changes the state of the torrent.
pub proof fn lemma_padding_never_counts(
    files: Seq<FileOnDisk>,
    only_files: Option<Seq<usize>>,
    i: int,
    on_disk: Option<u64>,
)
    requires
        0 <= i < files.len(),
        files[i].padding,
    ensures
        existing_state_spec(files.update(i, FileOnDisk { on_disk, ..files[i] }), only_files)
            == existing_state_spec(files, only_files),
{
    let g = files.update(i, FileOnDisk { on_disk, ..files[i] });
    assert forall|j: int| 0 <= j < files.len() implies file_wanted(g, only_files, j) == file_wanted(
        files,
        only_files,
        j,
    ) && (file_wanted(files, only_files, j) ==> #[trigger] g[j] == files[j]) by {
        if j != i {
            assert(g[j] == files[j]);
        }
    }
    let any_f = exists|j: int|
        0 <= j < files.len() && file_wanted(files, only_files, j) && files[j].on_disk is Some;
    let any_g = exists|j: int| 0 <= j < g.len() && file_wanted(g, only_files, j) && g[j].on_disk is Some;
    if any_f {
        let j = choose|j: int|
            0 <= j < files.len() && file_wanted(files, only_files, j) && files[j].on_disk is Some;
        assert(g[j] == files[j]);
        assert(any_g);
    }
    if any_g {
        let j = choose|j: int| 0 <= j < g.len() && file_wanted(g, only_files, j) && g[j].on_disk is Some;
        assert(g[j] == files[j]);
        assert(any_f);
    }
    let all_f = forall|j: int|
        0 <= j < files.len() && file_wanted(files, only_files, j) ==> (#[trigger] files[j].on_disk matches Some(
            n,
        ) && n == files[j].length);
    let all_g = forall|j: int|
        0 <= j < g.len() && file_wanted(g, only_files, j) ==> (#[trigger] g[j].on_disk matches Some(n)
            && n == g[j].length);
    if all_f {
        assert forall|j: int| 0 <= j < g.len() && file_wanted(g, only_files, j) implies (
        #[trigger] g[j].on_disk matches Some(n) && n == g[j].length) by {
            assert(g[j] == files[j]);
        }
    }
    if all_g {
        assert forall|j: int| 0 <= j < files.len() && file_wanted(files, only_files, j) implies (
        #[trigger] files[j].on_disk matches Some(n) && n == files[j].length) by {
            assert(g[j] == files[j]);
        }
    }
    assert(any_f == any_g && all_f == all_g);
}

/// The main file is a longest file, the last of the longest ones: its
/// length is that file's, no file is longer, and every later file is
/// shorter; there is one exactly when the torrent has files.
pub proof fn lemma_main_file_is_last_longest(lengths: Seq<u64>)
    ensures
        main_file_spec(lengths) is None <==> lengths.len() == 0,
        main_file_spec(lengths) matches Some(m) ==> ({
            &&& 0 <= m.0 < lengths.len()
            &&& m.1 == lengths[m.0]
            &&& forall|j: int| 0 <= j < lengths.len() ==> #[trigger] lengths[j] <= m.1
            &&& forall|j: int| m.0 < j < lengths.len() ==> #[trigger] lengths[j] < m.1
        }),
    decreases lengths.len(),
{
    if lengths.len() > 0 {
        let prev = lengths.drop_last();
        let last = lengths.len() - 1;
        lemma_main_file_is_last_longest(prev);
        assert forall|j: int| 0 <= j < prev.len() implies #[trigger] prev[j] == lengths[j] by {}
        match main_file_spec(prev) {
            Some(p) => {
                assert(forall|j: int| 0 <= j < prev.len() ==> #[trigger] prev[j] <= p.1);
                assert(forall|j: int| p.0 < j < prev.len() ==> #[trigger] prev[j] < p.1);
                if lengths[last] >= p.1 {
                    assert(main_file_spec(lengths) == Some((last, lengths[last])));
                    assert forall|j: int| 0 <= j < lengths.len() implies #[trigger] lengths[j] <= lengths[last] by {
                        if j < last {
                            assert(prev[j] <= p.1);
                        }
                    }
                } else {
                    assert(main_file_spec(lengths) == Some(p));
                    assert forall|j: int| 0 <= j < lengths.len() implies #[trigger] lengths[j] <= p.1 by {
                        if j < last {
                            assert(prev[j] <= p.1);
                        }
                    }
                    assert forall|j: int| p.0 < j < lengths.len() implies #[trigger] lengths[j] < p.1 by {
                        if j < last {
                            assert(prev[j] < p.1);
                        }
                    }
                }
            },
            None => {
                assert(prev.len() == 0);
                assert(main_file_spec(lengths) == Some((last, lengths[last])));
            },
        }
    }
}

} // verus!
