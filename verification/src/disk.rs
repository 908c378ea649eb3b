//! What this crate asks of the machine it runs on: the home directory, the
//! state of a path, the entries of a directory, and the icon that a desktop
//! entry names.
//!
//! The bodies of these functions are not verified: each makes one call
//! into `std`, `dirs`, `walkdir` or `freedesktop_desktop_entry`, and its
//! contract is taken on the word of that call's documentation. Their
//! answers depend on the file system and the environment, so little is
//! claimed of them, and the verified code that calls them is proved for
//! every answer they may give. Paths go in and come out as text; a path that
//! is not valid UTF-8 is reported as absent.

use vstd::prelude::*;
use vstd::utf8::{decode_utf8, valid_utf8};
use crate::names::absolute;

verus! {

/// Whether every entry that was read lies under `dir`: its path is `dir`
/// itself, or `dir` with further text behind it.
pub open spec fn all_under(entries: Seq<Option<Seq<char>>>, dir: Seq<char>) -> bool {
    forall|i: int|
        0 <= i < entries.len() ==> match #[trigger] entries[i] {
            Some(path) => dir.is_prefix_of(path),
            None => true,
        }
}

/// Whether a walk that starts at `root` may report `entries` first of all:
/// there is a first entry, and it is `root` itself, unless `root` could not
/// be read.
pub open spec fn starts_at(entries: Seq<Option<Seq<char>>>, root: Seq<char>) -> bool {
    entries.len() > 0 && match entries[0] {
        Some(path) => path == root,
        None => true,
    }
}

/// Calls `dirs::home_dir` for the home directory of the current user.
/// Nothing is claimed of the answer.
#[verifier::external_body]
pub(crate) fn home_directory() -> (home: Option<String>) {
    dirs::home_dir().and_then(|p| p.into_os_string().into_string().ok())
}

/// Calls `Path::exists`: whether `path` points at an existing entity.
/// Nothing is claimed of the answer.
#[verifier::external_body]
pub(crate) fn path_exists(path: &str) -> (yes: bool) {
    std::path::Path::new(path).exists()
}

/// Calls `Path::is_dir`: whether `path` exists and is a directory, symbolic
/// links followed. Nothing is claimed of the answer.
#[verifier::external_body]
pub(crate) fn path_is_dir(path: &str) -> (yes: bool) {
    std::path::Path::new(path).is_dir()
}

/// Calls `Path::is_file`: whether `path` exists and is a regular file,
/// symbolic links followed. Nothing is claimed of the answer.
#[verifier::external_body]
pub(crate) fn path_is_file(path: &str) -> (yes: bool) {
    std::path::Path::new(path).is_file()
}

/// Calls `Path::is_symlink`: whether `path` is itself a symbolic link.
/// Nothing is claimed of the answer.
#[verifier::external_body]
pub(crate) fn path_is_symlink(path: &str) -> (yes: bool) {
    std::path::Path::new(path).is_symlink()
}

/// Calls `Path::read_link` for the target that the symbolic link at `path`
/// holds, as it is written in the link. `None` stands for a failed read.
/// Nothing is claimed of the answer.
#[verifier::external_body]
pub(crate) fn read_link(path: &str) -> (target: Option<String>) {
    std::path::Path::new(path).read_link().ok().and_then(|p| p.into_os_string().into_string().ok())
}

/// Calls `Path::canonicalize` for the canonical form of `path`, with every
/// symbolic link resolved. `None` stands for a failure, as when the path does
/// not exist. The one claim: a canonical path is absolute, which is to say
/// that it starts with the separator. That holds on Unix, the only platform
/// whose directory layout this crate knows.
#[verifier::external_body]
pub(crate) fn canonicalize(path: &str) -> (canonical: Option<String>)
    ensures
        match canonical {
            Some(p) => absolute(p@),
            None => true,
        },
{
    std::path::Path::new(path).canonicalize().ok().and_then(
        |p| p.into_os_string().into_string().ok(),
    )
}

/// Walks the tree under `root` with `walkdir::WalkDir`, in the order in which
/// the walk reports its entries: `root` itself first, each directory before
/// its contents. With `follow_links` the walk descends through symbolic
/// links. `None` stands for an entry that the walk failed to read. Two
/// claims: the walk always reports an entry for `root`, before any other;
/// and the path of an entry is `root` joined with the names that lead to
/// the entry, so it starts with the text of `root`.
#[verifier::external_body]
pub(crate) fn walk_tree(root: &str, follow_links: bool) -> (entries: Vec<Option<String>>)
    ensures
        starts_at(entries.deep_view(), root@),
        all_under(entries.deep_view(), root@),
{
    walkdir::WalkDir::new(root).follow_links(follow_links).into_iter().map(
        |e| e.ok().and_then(|e| e.into_path().into_os_string().into_string().ok()),
    ).collect()
}

/// Lists the entries of the directory `dir` with `Path::read_dir`, each as
/// its full path, without descending. `None` stands for an entry that could
/// not be read; a directory that cannot be opened has no entries. The one
/// claim: the path of an entry is `dir` joined with the name of the entry,
/// so it starts with the text of `dir`.
#[verifier::external_body]
pub(crate) fn list_directory(dir: &str) -> (entries: Vec<Option<String>>)
    ensures
        all_under(entries.deep_view(), dir@),
{
    match std::path::Path::new(dir).read_dir() {
        Ok(entries) => entries.map(
            |e| e.ok().and_then(|e| e.path().into_os_string().into_string().ok()),
        ).collect(),
        Err(_) => Vec::new(),
    }
}

/// Reads the desktop entry at `path` with
/// `freedesktop_desktop_entry::DesktopEntry::from_path` and hands out the
/// value of its `Icon` key. `None` stands for a file that cannot be read or
/// parsed, and for an entry without that key. Nothing is claimed of the
/// answer.
#[verifier::external_body]
pub(crate) fn desktop_entry_icon(path: &str) -> (icon: Option<String>) {
    freedesktop_desktop_entry::DesktopEntry::from_path(path, None::<&[&str]>).ok().and_then(
        |entry| entry.icon().map(|icon| icon.to_owned()),
    )
}

/// Calls `String::from_utf8`: the text that `bytes` encode, where they are
/// valid UTF-8, and `None` where they are not.
#[verifier::external_body]
pub(crate) fn text_of_bytes(bytes: Vec<u8>) -> (text: Option<String>)
    ensures
        match text {
            Some(s) => valid_utf8(bytes@) && s@ == decode_utf8(bytes@),
            None => !valid_utf8(bytes@),
        },
{
    String::from_utf8(bytes).ok()
}

} // verus!
