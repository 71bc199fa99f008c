//! Questions put to the file system through `std::path::Path` and
//! `walkdir`. Their answers
//! depend on what is on disk, so nothing is stated of them; the functions that
//! ask them decide from whatever comes back.
use vstd::prelude::*;

verus! {

/// `Path::exists`: whether `path` names an existing file or directory
/// (following symbolic links; false when its metadata cannot be read).
#[verifier::external_body]
pub(crate) fn path_exists(path: &str) -> (b: bool) {
    std::path::Path::new(path).exists()
}

/// `Path::is_dir`: whether `path` names an existing directory (following
/// symbolic links; false when its metadata cannot be read).
#[verifier::external_body]
pub(crate) fn path_is_dir(path: &str) -> (b: bool) {
    std::path::Path::new(path).is_dir()
}

/// `Path::canonicalize`: the absolute form of `path` with every symbolic link
/// resolved, as text, or the text of the error when it cannot be resolved
/// (for instance when nothing exists there).
#[verifier::external_body]
pub(crate) fn canonicalize(path: &str) -> (r: Result<String, String>) {
    match std::path::Path::new(path).canonicalize() {
        Ok(p) => Ok(p.to_string_lossy().into_owned()),
        Err(e) => Err(e.to_string()),
    }
}

/// The names of the entries directly inside the directory `path`
/// (`walkdir::WalkDir` from depth one to depth one, then `DirEntry::file_name`
/// as text); entries that cannot be read are left out, and none are given
/// when `path` cannot be read as a directory.
#[verifier::external_body]
pub(crate) fn directory_entry_names(path: &str) -> (names: Vec<String>) {
    walkdir::WalkDir::new(path)
        .min_depth(1)
        .max_depth(1)
        .into_iter()
        .filter_map(|entry| entry.ok())
        .map(|entry| entry.file_name().to_string_lossy().into_owned())
        .collect()
}

} // verus!
