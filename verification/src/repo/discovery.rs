//! Finding a workspace's root and the repository storage it shares.

use vstd::prelude::*;
use vstd::string::*;

use super::paths::{is_absolute_path, joined_path, path_is_absolute, path_join};
use crate::error::{Error, Result};
use crate::text::{trim, trim_ws};

verus! {

/// A directory on the way up from the current directory, and whether it
/// holds a `.jj` directory.
#[derive(Debug)]
pub struct RootCandidate {
    /// The directory.
    pub path: String,
    /// Whether `.jj` is a directory in it.
    pub has_jj_dir: bool,
}

/// The workspace root: the first directory, from the current one upwards,
/// that holds a `.jj` directory.
pub fn find_workspace_root(ancestors: &[RootCandidate]) -> (r: Result<String>)
    ensures
        match r {
            Ok(p) => exists|i: int| 0 <= i < ancestors@.len() && (#[trigger] ancestors@[i]).has_jj_dir
                && ancestors@[i].path@ == p@ && forall|j: int| 0 <= j < i ==> !(#[trigger] ancestors@[j]).has_jj_dir,
            Err(e) => e is NotInWorkspace && forall|j: int| 0 <= j < ancestors@.len() ==> !(#[trigger] ancestors@[j]).has_jj_dir,
        },
{
    let mut i: usize = 0;
    while i < ancestors.len()
        invariant
            i <= ancestors@.len(),
            forall|j: int| 0 <= j < i ==> !(#[trigger] ancestors@[j]).has_jj_dir,
        decreases ancestors@.len() - i,
    {
        if ancestors[i].has_jj_dir {
            return Ok(ancestors[i].path.clone());
        }
        i += 1;
    }
    Err(Error::NotInWorkspace)
}

/// Where a secondary workspace's repository pointer leads: the pointer
/// text, trimmed, taken as is when absolute and from the workspace's
/// `.jj` directory otherwise; an empty pointer is invalid.
pub open spec fn pointer_target(jj_dir: Seq<char>, pointer: Seq<char>) -> Option<Seq<char>> {
    let p = trim_ws(pointer);
    if p.len() == 0 {
        None
    } else if is_absolute_path(p) {
        Some(p)
    } else {
        Some(joined_path(jj_dir, p))
    }
}

/// Follow the repository pointer of a secondary workspace, whose text is
/// read from `repo_path` (the workspace's `.jj/repo`).
pub fn repo_pointer_target(jj_dir: &str, repo_path: &str, pointer: &str) -> (r: Result<String>)
    ensures
        match pointer_target(jj_dir@, pointer@) {
            Some(t) => r matches Ok(p) && p@ == t,
            None => r matches Err(Error::InvalidRepoPointer(p)) && p@ == repo_path@,
        },
{
    let p = trim(pointer);
    if p.as_str().unicode_len() == 0 {
        return Err(Error::InvalidRepoPointer(repo_path.to_owned()));
    }
    if path_is_absolute(p.as_str()) {
        Ok(p)
    } else {
        Ok(path_join(jj_dir, p.as_str()))
    }
}

} // verus!
