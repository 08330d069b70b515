//! Paths, which are carried as they are and shown as texts.

use std::path::PathBuf;
use vstd::prelude::*;

verus! {

/// A path of the file system.
#[verifier::external_type_specification]
#[verifier::external_body]
pub struct ExPathBuf(PathBuf);

/// The text that `Path::to_string_lossy` makes of a path.
pub uninterp spec fn shown_path(path: PathBuf) -> Seq<char>;

/// Copies a path: `PathBuf::clone`.
pub assume_specification[ <PathBuf as Clone>::clone ](path: &PathBuf) -> (copy: PathBuf)
    ensures
        copy == *path,
;

/// Shows a path with `Path::to_string_lossy`, which puts replacement characters
/// in place of what is no text.
#[verifier::external_body]
pub(crate) fn show_path(path: &PathBuf) -> (text: String)
    ensures
        text@ == shown_path(*path),
{
    path.to_string_lossy().into_owned()
}

} // verus!
