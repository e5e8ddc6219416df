//! The switch state kept per repository: the workspace switched away from.

use vstd::prelude::*;
use vstd::string::*;

use crate::error::{quoted, Error, Result};
use crate::types::{is_valid_workspace_name, WorkspaceName};

verus! {

/// What a stored previous-workspace value means: `Some(None)` for none (an
/// absent or empty value), `Some(Some(name))` for a valid name, `None` for
/// a value that is not a valid name.
pub open spec fn stored_previous_workspace(value: Option<Seq<char>>) -> Option<Option<Seq<char>>> {
    match value {
        None => Some(None),
        Some(v) => if v.len() == 0 {
            Some(None)
        } else if is_valid_workspace_name(v) {
            Some(Some(v))
        } else {
            None
        },
    }
}

/// The recorded previous workspace, read from the state file at `path`: an
/// empty or absent value is none; any other must be a valid name.
pub fn parse_workspace_name(value: Option<String>, path: &str) -> (r: Result<Option<WorkspaceName>>)
    ensures
        match stored_previous_workspace(match value {
            Some(v) => Some(v@),
            None => None,
        }) {
            Some(None) => r matches Ok(None),
            Some(Some(n)) => r matches Ok(Some(w)) && w@ == n,
            None => value matches Some(v) && r matches Err(Error::InvalidRepoState { path: p, message: m })
                && p@ == path@ && m@ == "error: invalid workspace name "@ + quoted(v@),
        },
{
    match value {
        None => Ok(None),
        Some(v) => {
            if v.as_str().unicode_len() == 0 {
                return Ok(None);
            }
            match WorkspaceName::new(v.as_str()) {
                Ok(n) => Ok(Some(n)),
                Err(e) => Err(Error::InvalidRepoState { path: path.to_owned(), message: e.message() }),
            }
        },
    }
}

/// The switch state of a repository.
#[derive(Debug)]
pub struct RepoStateStore {
    /// The state file.
    pub path: String,
    /// The workspace switched away from last, if recorded.
    pub previous_workspace: Option<WorkspaceName>,
}

impl RepoStateStore {
    /// The recorded previous workspace.
    pub fn previous_workspace(&self) -> (r: Option<&WorkspaceName>)
        ensures
            r == match &self.previous_workspace {
                Some(w) => Some(w),
                None => None::<&WorkspaceName>,
            },
    {
        match &self.previous_workspace {
            Some(w) => Some(w),
            None => None,
        }
    }

    /// The state to save after switching away from `workspace`.
    pub fn with_previous(path: &str, workspace: &WorkspaceName) -> (r: RepoStateStore)
        ensures
            r.path@ == path@,
            r.previous_workspace matches Some(w) && w@ == workspace@,
    {
        RepoStateStore { path: path.to_owned(), previous_workspace: Some(workspace.clone()) }
    }

    /// The value to write for the previous workspace.
    pub fn previous_workspace_text(&self) -> (r: Option<String>)
        ensures
            match r {
                Some(t) => self.previous_workspace matches Some(w) && t@ == w@ && is_valid_workspace_name(t@),
                None => self.previous_workspace is None,
            },
    {
        match &self.previous_workspace {
            Some(w) => Some(w.as_str().to_owned()),
            None => None,
        }
    }
}

/// The previous workspace that is saved reads back as the same workspace:
/// a value written for a workspace is a valid, non-empty name.
pub proof fn lemma_previous_workspace_roundtrip(written: Seq<char>)
    requires
        is_valid_workspace_name(written),
    ensures
        stored_previous_workspace(Some(written)) == Some(Some(written)),
{
}

} // verus!
