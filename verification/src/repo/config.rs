//! The files the tool keeps in a repository's storage, and its settings.

use vstd::prelude::*;

use crate::error::{quoted, Error, Result};
use crate::types::{is_valid_template, RepoConfig, WorkspaceTemplate};

use super::paths::{joined_path, path_join};

verus! {

/// The directory in the repository storage that holds the tool's files.
pub const NAVI_DIR: &'static str = "navi";

/// The settings file.
pub const CONFIG_FILE: &'static str = "config.toml";

/// The file of workspace records.
pub const WORKSPACES_FILE: &'static str = "workspaces.toml";

/// The file of switch state.
pub const STATE_FILE: &'static str = "state.toml";

/// The tool's directory in a repository storage.
pub fn navi_dir_path(repo_storage_path: &str) -> (r: String)
    ensures
        r@ == joined_path(repo_storage_path@, NAVI_DIR@),
{
    path_join(repo_storage_path, NAVI_DIR)
}

/// A file in the tool's directory.
pub open spec fn navi_file_path(repo_storage_path: Seq<char>, file: Seq<char>) -> Seq<char> {
    joined_path(joined_path(repo_storage_path, NAVI_DIR@), file)
}

/// The settings file of a repository.
pub fn repo_config_path(repo_storage_path: &str) -> (r: String)
    ensures
        r@ == navi_file_path(repo_storage_path@, CONFIG_FILE@),
{
    let dir = navi_dir_path(repo_storage_path);
    path_join(dir.as_str(), CONFIG_FILE)
}

/// The workspace records file of a repository.
pub fn workspace_metadata_path(repo_storage_path: &str) -> (r: String)
    ensures
        r@ == navi_file_path(repo_storage_path@, WORKSPACES_FILE@),
{
    let dir = navi_dir_path(repo_storage_path);
    path_join(dir.as_str(), WORKSPACES_FILE)
}

/// The switch state file of a repository.
pub fn repo_state_path(repo_storage_path: &str) -> (r: String)
    ensures
        r@ == navi_file_path(repo_storage_path@, STATE_FILE@),
{
    let dir = navi_dir_path(repo_storage_path);
    path_join(dir.as_str(), STATE_FILE)
}

/// The settings read from the settings file at `path`: its workspace
/// template must be valid.
pub fn repo_config_from_file(path: &str, workspace_template: &str) -> (r: Result<RepoConfig>)
    ensures
        is_valid_template(workspace_template@) ==> (r matches Ok(c) && c.workspace_template@ == workspace_template@),
        !is_valid_template(workspace_template@) ==> (r matches Err(Error::InvalidRepoConfig { path: p, message: m })
            && p@ == path@ && m@ == "error: invalid workspace template "@ + quoted(workspace_template@)),
{
    match WorkspaceTemplate::new(workspace_template) {
        Ok(t) => Ok(RepoConfig { workspace_template: t }),
        Err(e) => Err(Error::InvalidRepoConfig { path: path.to_owned(), message: e.message() }),
    }
}

} // verus!
