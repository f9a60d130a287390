//! Which directory stands for the workspace.

use vstd::prelude::*;

verus! {

/// What stands for a directory that could not be found.
pub open spec fn unknown_dir() -> Seq<char> {
    "Unknown"@
}

/// A directory, or what stands for one that could not be found.
pub open spec fn dir_or_unknown(dir: Option<String>) -> Seq<char> {
    match dir {
        Some(dir) => dir@,
        None => unknown_dir(),
    }
}

/// The directory from which the repository is looked for: the one given,
/// else the current one, else none that is known.
pub fn target_path(path: Option<String>, current_dir: Option<String>) -> (r: String)
    ensures
        r@ == match path {
            Some(path) => path@,
            None => dir_or_unknown(current_dir),
        },
{
    match path {
        Some(path) => path,
        None => match current_dir {
            Some(dir) => dir,
            None => "Unknown".to_owned(),
        },
    }
}

/// The root of the workspace: the working directory of the repository that
/// was found, or none that is known where no repository, no working directory
/// or no name for it was found.
pub fn get_project_dir(workdir: Option<String>) -> (r: String)
    ensures
        r@ == dir_or_unknown(workdir),
{
    match workdir {
        Some(dir) => dir,
        None => "Unknown".to_owned(),
    }
}

} // verus!
