//! Telling where a repository begins.
use vstd::prelude::*;
use vstd::string::StringExecFns;

verus! {

/// Whether an entry of a directory shows that the directory is the root of
/// a repository: it is a directory named `.git` or `.hg`.
pub open spec fn marks_repository(name: Seq<char>, is_dir: bool) -> bool {
    is_dir && (name == ".git"@ || name == ".hg"@)
}

/// Whether an entry of a directory, with the name `name`, shows that the
/// directory is the root of a repository.
pub fn is_repo_marker(name: &str, is_dir: bool) -> (marker: bool)
    ensures
        marker == marks_repository(name@, is_dir),
{
    if !is_dir {
        return false;
    }
    let name = String::from_str(name);
    name == String::from_str(".git") || name == String::from_str(".hg")
}

} // verus!
