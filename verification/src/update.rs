//! Self-update: whether a release is newer than the running version, and the
//! names of its assets.
use vstd::prelude::*;

use crate::ipc::{join_path, join_spec};
use crate::text::{chars_of, extend_str, string_of};
use crate::ui::{string_lit, trim_leading, trim_leading_chars};

verus! {

/// The order `semver` gives two version texts: `Some(true)` when both parse
/// and the first is strictly greater, `Some(false)` when both parse and it
/// is not, `None` when either is malformed.
pub uninterp spec fn semver_order(a: Seq<char>, b: Seq<char>) -> Option<bool>;

/// Compares two version texts with `semver::Version::parse` and `>`: a
/// function of the two texts alone. `semver::Version` orders totally
/// (derived `Ord`), so a version is never greater than itself.
#[verifier::external_body]
fn semver_newer(a: &str, b: &str) -> (r: Option<bool>)
    ensures
        r == semver_order(a@, b@),
        a@ == b@ && r is Some ==> r == Some(false),
{
    match (semver::Version::parse(a), semver::Version::parse(b)) {
        (Ok(x), Ok(y)) => Some(x > y),
        _ => None,
    }
}

/// The release `latest_tag` (leading `v`s dropped) is strictly newer than
/// `current`; malformed versions never count as an update.
pub open spec fn has_update_spec(latest_tag: Seq<char>, current: Seq<char>) -> bool {
    semver_order(trim_leading(latest_tag, 'v'), current) == Some(true)
}

/// Whether the release `latest_tag` (e.g. `v0.1.16`) is strictly newer than
/// the installed version `current`.
pub fn has_update(latest_tag: &str, current: &str) -> (b: bool)
    ensures
        b == has_update_spec(latest_tag@, current@),
        trim_leading(latest_tag@, 'v') == current@ ==> !b,
{
    let latest = string_of(&trim_leading_chars(&chars_of(latest_tag), 'v'));
    match semver_newer(latest.as_str(), current) {
        Some(newer) => newer,
        None => false,
    }
}

/// Name of the Linux x86_64 binary asset of a release.
pub open spec fn asset_name_spec(tag: Seq<char>) -> Seq<char> {
    "opentorrent-"@ + tag + "-linux-x86_64"@
}

/// Name of the Linux x86_64 binary asset of release `tag`.
pub fn asset_name(tag: &str) -> (s: String)
    ensures
        s@ == asset_name_spec(tag@),
{
    let mut v: Vec<char> = Vec::new();
    extend_str(&mut v, "opentorrent-");
    extend_str(&mut v, tag);
    extend_str(&mut v, "-linux-x86_64");
    string_of(&v)
}

/// Download URL of the binary asset of release `tag`.
pub fn asset_url(tag: &str) -> (s: String)
    ensures
        s@ == "https://github.com/filhotecmail/opentorrent/releases/download/"@ + tag@ + "/"@
            + asset_name_spec(tag@),
{
    let mut v: Vec<char> = Vec::new();
    extend_str(&mut v, "https://github.com/filhotecmail/opentorrent/releases/download/");
    extend_str(&mut v, tag);
    extend_str(&mut v, "/");
    let name = asset_name(tag);
    extend_str(&mut v, name.as_str());
    string_of(&v)
}

/// The command that updates the binary.
pub fn update_command() -> (s: String)
    ensures
        s@ == "opentorrent update"@,
{
    string_lit("opentorrent update")
}

/// The user's data folder (`dirs::data_dir`), as text; it depends on the
/// environment, so nothing is stated of it.
#[verifier::external_body]
fn data_dir_text() -> (p: Option<String>) {
    dirs::data_dir().map(|p| p.to_string_lossy().into_owned())
}

/// The folder of the signing keys: `opentorrent/signing` in the data folder
/// (in `~/.local/share/opentorrent` when there is none).
pub open spec fn signing_dir_spec(data_dir: Option<Seq<char>>) -> Seq<char> {
    let base = match data_dir {
        Some(d) => d,
        None => "~/.local/share/opentorrent"@,
    };
    join_spec(join_spec(base, "opentorrent"@), "signing"@)
}

/// The folder of the signing keys below the data folder `data_dir`.
pub fn signing_dir_from(data_dir: Option<&str>) -> (p: String)
    ensures
        p@ == signing_dir_spec(
            match data_dir {
                Some(d) => Some(d@),
                None => None,
            },
        ),
{
    let base = match data_dir {
        Some(d) => string_lit(d),
        None => string_lit("~/.local/share/opentorrent"),
    };
    let a = join_path(base.as_str(), "opentorrent");
    join_path(a.as_str(), "signing")
}

/// The folder of the signing keys of this user.
pub fn signing_dir() -> (p: String)
    ensures
        exists|d: Option<Seq<char>>| p@ == signing_dir_spec(d),
{
    match data_dir_text() {
        Some(d) => signing_dir_from(Some(d.as_str())),
        None => signing_dir_from(None),
    }
}

/// The URL of the signature of release `tag`'s binary: its asset URL and
/// `.sig`.
pub fn signature_url(tag: &str) -> (s: String)
    ensures
        s@ == "https://github.com/filhotecmail/opentorrent/releases/download/"@ + tag@ + "/"@
            + asset_name_spec(tag@) + ".sig"@,
{
    let u = asset_url(tag);
    let mut v = chars_of(u.as_str());
    extend_str(&mut v, ".sig");
    string_of(&v)
}

} // verus!
