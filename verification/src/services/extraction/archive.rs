//! Listing the entries of a tar archive, by the `tar` crate.
use vstd::prelude::*;

use crate::text::views;

verus! {

/// The paths of the entries of the tar archive `archive`, in archive order,
/// each as `Path::display` writes it; `None` when the archive cannot be
/// read or an entry's path cannot be decoded.
pub uninterp spec fn tar_entry_paths(archive: Seq<u8>) -> Option<Seq<Seq<char>>>;

/// Lists the entries of an in-memory tar archive with
/// `tar::Archive::entries`, taking each entry's `path()`; any error of the
/// crate gives `None`. Its result is named by `tar_entry_paths`.
#[verifier::external_body]
fn archive_entry_paths(archive: &[u8]) -> (r: Option<Vec<String>>)
    ensures
        match r {
            Some(v) => tar_entry_paths(archive@) == Some(views(v@)),
            None => tar_entry_paths(archive@) is None,
        },
{
    let mut a = tar::Archive::new(std::io::Cursor::new(archive));
    let mut paths = Vec::new();
    for entry in a.entries().ok()? {
        paths.push(entry.ok()?.path().ok()?.display().to_string());
    }
    Some(paths)
}

/// The paths of the entries of a tar archive, or `None` when the archive
/// cannot be read.
pub fn list_archive_paths(archive: &Vec<u8>) -> (r: Option<Vec<String>>)
    ensures
        match r {
            Some(v) => tar_entry_paths(archive@) == Some(views(v@)),
            None => tar_entry_paths(archive@) is None,
        },
{
    archive_entry_paths(archive.as_slice())
}

} // verus!
