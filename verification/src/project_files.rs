//! Project files on disk: which names are project files, and what a file
//! chooser answered.
use vstd::prelude::*;
use crate::text::{ends_with, has_suffix};

verus! {

/// What a file chooser answered: a chosen path, no choice, or no chooser
/// on this system.
#[derive(Debug, Clone, PartialEq, Eq)]
pub enum DialogResult {
    Selected(String),
    Cancelled,
    Unavailable,
}

/// Whether a file name is that of a project: it ends in `.kant.json`,
/// `.kant`, `.edge.json` or `.edge`.
pub open spec fn project_file_name(name: Seq<char>) -> bool {
    has_suffix(name, ".kant.json"@) || has_suffix(name, ".kant"@) || has_suffix(name, ".edge.json"@) || has_suffix(
        name,
        ".edge"@,
    )
}

/// Whether a file name is that of a project.
pub fn is_project_file_name(name: &str) -> (res: bool)
    ensures
        res == project_file_name(name@),
{
    ends_with(name, ".kant.json") || ends_with(name, ".kant") || ends_with(name, ".edge.json") || ends_with(
        name,
        ".edge",
    )
}

} // verus!
