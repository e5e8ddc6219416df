//! An opened repository seen from one of its workspaces: planning,
//! resolving and checking workspaces, their snapshots and list rows, and
//! merge previews.

use vstd::prelude::*;
use vstd::seq_lib::*;
use vstd::string::*;

use crate::doctor::{chars_order, compare_strings, lemma_chars_order};
use crate::error::{Error, MergePreviewWorkspaceRole, Result};
use crate::text::{views_of, str_equal};
use crate::types::{
    freshness_view, snapshot_view, clone_statuses, MergePreview, Timestamp, MergePreviewWorkspace, RepoConfig,
    SnapshotView, WorkspaceAgeSnapshot, WorkspaceDiffSnapshot, WorkspaceFreshnessSnapshot,
    WorkspaceFreshnessStatus, WorkspaceHealthSnapshot, WorkspaceListEntry, WorkspaceListStatus,
    WorkspaceMetadataStatus, WorkspaceName, WorkspacePathSnapshot, WorkspacePathState,
    WorkspaceSnapshot,
};

use super::jj::{workspace_add_args, JjWorkspaceListEntry};
use super::metadata::{record_views, recorded, without_name, WorkspaceMetadataStore};
use super::state::RepoStateStore;
use super::paths::{
    derive_repo_name, diff_paths, display_path, display_path_for_list, file_name_of, is_current,
    list_statuses, path_has_prefix, path_starts_with, planned_root, planned_workspace_root,
    repo_name_of, relative_path, workspace_list_statuses, ResolvedWorkspacePath,
};

verus! {

/// An opened repository, seen from the workspace of the current directory.
#[derive(Debug)]
pub struct NaviWorkspace {
    cwd: String,
    workspace_root: String,
    repo_storage_path: String,
    current_workspace: WorkspaceName,
    config: RepoConfig,
    repo_name: String,
}

/// What creating a workspace takes: where it goes and the `jj` arguments
/// that create it there.
#[derive(Debug)]
pub struct WorkspaceCreation {
    /// The new workspace's root.
    pub target_root: String,
    /// The arguments of `jj workspace add`.
    pub jj_args: Vec<String>,
    /// The tool's records, with the new workspace recorded.
    pub metadata: WorkspaceMetadataStore,
}

/// Whether some listed workspace carries `name`.
pub open spec fn is_listed(listed: Seq<JjWorkspaceListEntry>, name: Seq<char>) -> bool {
    exists|i: int| 0 <= i < listed.len() && (#[trigger] listed[i]).name@ == name
}

/// A name given as an option, by its view.
pub open spec fn opt_name(w: Option<&WorkspaceName>) -> Option<Seq<char>> {
    match w {
        Some(n) => Some(n@),
        None => None,
    }
}

/// Where `switch -` goes from `current`, given the recorded previous
/// workspace and what `jj` lists; `None` where it fails.
pub open spec fn previous_target(
    current: Seq<char>,
    recorded: Option<Seq<char>>,
    listed: Seq<JjWorkspaceListEntry>,
) -> Option<Seq<char>> {
    match recorded {
        Some(w) => if w != current && is_listed(listed, w) {
            Some(w)
        } else {
            None
        },
        None => None,
    }
}

/// The previous workspace that a switch from `current` to `target`
/// records; `None` where it records nothing.
pub open spec fn recorded_after_switch(current: Seq<char>, target: Seq<char>) -> Option<Seq<char>> {
    if target != current {
        Some(current)
    } else {
        None
    }
}

/// A switch from one workspace to another records the one it left, and
/// `switch -` from the new workspace then goes back to it, as long as `jj`
/// still lists it.
pub proof fn lemma_switch_back(left: Seq<char>, arrived: Seq<char>, listed: Seq<JjWorkspaceListEntry>)
    requires
        left != arrived,
        is_listed(listed, left),
    ensures
        recorded_after_switch(left, arrived) == Some(left),
        previous_target(arrived, recorded_after_switch(left, arrived), listed) == Some(left),
{
}

impl NaviWorkspace {
    /// The current directory.
    pub closed spec fn spec_cwd(&self) -> Seq<char> {
        self.cwd@
    }

    /// The root of the current workspace.
    pub closed spec fn spec_workspace_root(&self) -> Seq<char> {
        self.workspace_root@
    }

    /// The repository storage.
    pub closed spec fn spec_repo_storage_path(&self) -> Seq<char> {
        self.repo_storage_path@
    }

    /// The name of the current workspace.
    pub closed spec fn spec_current(&self) -> Seq<char> {
        self.current_workspace@
    }

    /// The workspace template of the repository.
    pub closed spec fn spec_template(&self) -> Seq<char> {
        self.config.workspace_template@
    }

    /// The repository name.
    pub closed spec fn spec_repo_name(&self) -> Seq<char> {
        self.repo_name@
    }

    /// Open the repository seen from `cwd`, in the workspace at
    /// `workspace_root` named `current_workspace`: its repository name comes
    /// from the workspace root, as `derive_repo_name` gives it.
    pub fn open(
        cwd: &str,
        workspace_root: &str,
        repo_storage_path: &str,
        config: RepoConfig,
        current_workspace: WorkspaceName,
    ) -> (r: Result<NaviWorkspace>)
        ensures
            match file_name_of(workspace_root@) {
                None => r matches Err(Error::RepoName),
                Some(base) => match repo_name_of(base, current_workspace@) {
                    None => r matches Err(Error::RepoName),
                    Some(name) => r matches Ok(w) && w.spec_repo_name() == name && w.spec_cwd() == cwd@
                        && w.spec_workspace_root() == workspace_root@ && w.spec_repo_storage_path()
                        == repo_storage_path@ && w.spec_current() == current_workspace@ && w.spec_template()
                        == config.workspace_template@,
                },
            },
    {
        let repo_name = match derive_repo_name(workspace_root, &current_workspace) {
            Ok(n) => n,
            Err(e) => return Err(e),
        };
        Ok(
            NaviWorkspace {
                cwd: cwd.to_owned(),
                workspace_root: workspace_root.to_owned(),
                repo_storage_path: repo_storage_path.to_owned(),
                current_workspace,
                config,
                repo_name,
            },
        )
    }

    /// The root of the current workspace.
    pub fn workspace_root(&self) -> (r: &str)
        ensures
            r@ == self.spec_workspace_root(),
    {
        self.workspace_root.as_str()
    }

    /// The repository storage.
    pub fn repo_storage_path(&self) -> (r: &str)
        ensures
            r@ == self.spec_repo_storage_path(),
    {
        self.repo_storage_path.as_str()
    }

    /// The name of the current workspace.
    pub fn current_workspace_name(&self) -> (r: &WorkspaceName)
        ensures
            r@ == self.spec_current(),
    {
        &self.current_workspace
    }

    /// The repository's settings.
    pub fn config(&self) -> (r: &RepoConfig)
        ensures
            r.workspace_template@ == self.spec_template(),
    {
        &self.config
    }

    /// The repository name.
    pub fn repo_name(&self) -> (r: &str)
        ensures
            r@ == self.spec_repo_name(),
    {
        self.repo_name.as_str()
    }

    /// Where a workspace is planned to live.
    pub fn planned_workspace_root(&self, workspace: &WorkspaceName) -> (r: String)
        ensures
            r@ == planned_root(
                self.spec_workspace_root(),
                self.spec_current() == workspace@,
                self.spec_repo_name(),
                self.spec_template(),
                workspace@,
            ),
    {
        planned_workspace_root(
            self.workspace_root.as_str(),
            Some(&self.current_workspace),
            self.repo_name.as_str(),
            &self.config.workspace_template,
            workspace,
        )
    }

    /// The path shown for a target root: relative to the current directory
    /// where it can be.
    pub fn display_path_for_switch(&self, target_root: &str) -> (r: String)
        ensures
            r@ == display_path(target_root@, self.spec_cwd()),
    {
        match diff_paths(target_root, self.cwd.as_str()) {
            Some(p) => p,
            None => target_root.to_owned(),
        }
    }

    /// Whether `jj` lists a workspace of this name.
    pub fn workspace_exists(&self, listed: &[JjWorkspaceListEntry], workspace: &WorkspaceName) -> (r: bool)
        ensures
            r == is_listed(listed@, workspace@),
    {
        listed_contains(listed, workspace)
    }

    /// The workspace to forget: it must not be the current one and `jj`
    /// must list it.
    pub fn resolve_workspace_forget_target(&self, workspace: &WorkspaceName, listed: &[JjWorkspaceListEntry]) -> (r: Result<WorkspaceName>)
        ensures
            workspace@ == self.spec_current() ==> r matches Err(Error::CannotRemoveCurrentWorkspace),
            workspace@ != self.spec_current() && !is_listed(listed@, workspace@) ==> (r matches Err(
                Error::WorkspaceNotFound(n),
            ) && n@ == workspace@),
            workspace@ != self.spec_current() && is_listed(listed@, workspace@) ==> (r matches Ok(w) && w@
                == workspace@),
    {
        if workspace.same_as(&self.current_workspace) {
            return Err(Error::CannotRemoveCurrentWorkspace);
        }
        if listed_contains(listed, workspace) {
            Ok(workspace.clone())
        } else {
            Err(Error::WorkspaceNotFound(workspace.as_str().to_owned()))
        }
    }

    /// Forget a workspace, given the tool's records as they were loaded: it
    /// must not be the current one and `jj` must list it. Gives the
    /// workspace, the arguments of `jj workspace forget`, and the records
    /// without the workspace's, to save once `jj` has run. Records that
    /// could not be loaded stop it first.
    pub fn forget_workspace(
        &self,
        workspace: &WorkspaceName,
        listed: &[JjWorkspaceListEntry],
        metadata: Result<WorkspaceMetadataStore>,
    ) -> (r: Result<(WorkspaceName, Vec<String>, WorkspaceMetadataStore)>)
        ensures
            match metadata {
                Err(e) => r == Err::<(WorkspaceName, Vec<String>, WorkspaceMetadataStore), Error>(e),
                Ok(m) => if workspace@ == self.spec_current() {
                    r matches Err(Error::CannotRemoveCurrentWorkspace)
                } else if !is_listed(listed@, workspace@) {
                    r matches Err(Error::WorkspaceNotFound(n)) && n@ == workspace@
                } else {
                    r matches Ok((w, args, after)) && w@ == workspace@ && views_of(args@) == seq![
                        "workspace"@,
                        "forget"@,
                        workspace@,
                    ] && after.path == m.path && record_views(after.records@) == without_name(
                        record_views(m.records@),
                        workspace@,
                    )
                },
            },
    {
        let mut metadata = match metadata {
            Ok(m) => m,
            Err(e) => return Err(e),
        };
        let w = match self.resolve_workspace_forget_target(workspace, listed) {
            Ok(w) => w,
            Err(e) => return Err(e),
        };
        let mut args: Vec<String> = Vec::new();
        args.push("workspace".to_owned());
        args.push("forget".to_owned());
        args.push(w.as_str().to_owned());
        assert(views_of(args@) =~= seq!["workspace"@, "forget"@, workspace@]);
        metadata.remove_workspace(&w);
        Ok((w, args, metadata))
    }

    /// The directory to delete when removing a workspace: it must not be
    /// the current one, `jj` must list it, its path must be switchable,
    /// and its canonical form (`canonical_root`, as the file system gave
    /// it for that path) must not hold the repository storage.
    pub fn resolve_removable_workspace_path(
        &self,
        workspace: &WorkspaceName,
        listed: &[JjWorkspaceListEntry],
        resolved: &ResolvedWorkspacePath,
        canonical_root: Result<String>,
    ) -> (r: Result<String>)
        ensures
            workspace@ == self.spec_current() ==> r matches Err(Error::CannotRemoveCurrentWorkspace),
            workspace@ != self.spec_current() && !is_listed(listed@, workspace@) ==> (r matches Err(
                Error::WorkspaceNotFound(n),
            ) && n@ == workspace@),
            workspace@ != self.spec_current() && is_listed(listed@, workspace@) && !resolved.spec_is_switchable()
                ==> (r matches Err(Error::WorkspaceDirectoryUnavailable { workspace: w, path: p }) && w@
                == workspace@ && p@ == display_path(resolved.path@, self.spec_cwd())),
            workspace@ != self.spec_current() && is_listed(listed@, workspace@) && resolved.spec_is_switchable()
                ==> match canonical_root {
                Err(e) => r == Err::<String, Error>(e),
                Ok(c) => if path_has_prefix(self.spec_repo_storage_path(), c@) {
                    r matches Err(Error::CannotRemoveWorkspaceWithSharedRepoStorage { workspace: w, path: p })
                        && w@ == workspace@ && p@ == c@
                } else {
                    r matches Ok(p) && p@ == resolved.path@
                },
            },
    {
        match self.resolve_workspace_forget_target(workspace, listed) {
            Ok(_) => {},
            Err(e) => return Err(e),
        }
        if !resolved.is_switchable() {
            let display = self.display_path_for_switch(resolved.path.as_str());
            return Err(
                Error::WorkspaceDirectoryUnavailable {
                    workspace: workspace.as_str().to_owned(),
                    path: display,
                },
            );
        }
        let canonical = match canonical_root {
            Ok(c) => c,
            Err(e) => return Err(e),
        };
        match self.ensure_workspace_directory_does_not_own_repo_storage(workspace, canonical.as_str()) {
            Ok(()) => Ok(resolved.path.clone()),
            Err(e) => Err(e),
        }
    }

    /// Refuse to remove a workspace whose directory holds the repository
    /// storage; `target_root` is the directory, canonical.
    pub fn ensure_workspace_directory_does_not_own_repo_storage(&self, workspace: &WorkspaceName, target_root: &str) -> (r: Result<()>)
        ensures
            path_has_prefix(self.spec_repo_storage_path(), target_root@) ==> (r matches Err(
                Error::CannotRemoveWorkspaceWithSharedRepoStorage { workspace: w, path: p },
            ) && w@ == workspace@ && p@ == target_root@),
            !path_has_prefix(self.spec_repo_storage_path(), target_root@) ==> r is Ok,
    {
        if path_starts_with(self.repo_storage_path.as_str(), target_root) {
            return Err(
                Error::CannotRemoveWorkspaceWithSharedRepoStorage {
                    workspace: workspace.as_str().to_owned(),
                    path: target_root.to_owned(),
                },
            );
        }
        Ok(())
    }

    /// Create a workspace, given the tool's records as they were loaded and
    /// the time: where it goes, the arguments of `jj workspace add` that put
    /// it there, and the records with the new workspace recorded (its path,
    /// made by the tool, the template and the revision), the others kept.
    /// Records that could not be loaded stop it before anything else.
    pub fn create_workspace(
        &self,
        workspace: &WorkspaceName,
        revision: Option<&str>,
        metadata: Result<WorkspaceMetadataStore>,
        now: Timestamp,
    ) -> (r: Result<WorkspaceCreation>)
        ensures
            match metadata {
                Err(e) => r == Err::<WorkspaceCreation, Error>(e),
                Ok(m) => r matches Ok(c) && c.target_root@ == planned_root(
                    self.spec_workspace_root(),
                    self.spec_current() == workspace@,
                    self.spec_repo_name(),
                    self.spec_template(),
                    workspace@,
                ) && views_of(c.jj_args@) == seq!["workspace"@, "add"@, "--name"@, workspace@] + match revision {
                    Some(rev) => seq!["-r"@, rev@],
                    None => Seq::<Seq<char>>::empty(),
                } + seq![c.target_root@] && c.metadata.path == m.path && recorded(
                    record_views(m.records@),
                    record_views(c.metadata.records@),
                    (
                        workspace@,
                        Some(c.target_root@),
                        true,
                        now,
                        self.spec_template(),
                        match revision {
                            Some(x) => Some(x@),
                            None => None,
                        },
                    ),
                ),
            },
    {
        let mut metadata = match metadata {
            Ok(m) => m,
            Err(e) => return Err(e),
        };
        let target_root = self.planned_workspace_root(workspace);
        let jj_args = workspace_add_args(workspace, target_root.as_str(), revision);
        metadata.record_workspace(workspace, target_root.as_str(), &self.config.workspace_template, revision, now);
        Ok(WorkspaceCreation { target_root, jj_args, metadata })
    }

    /// The workspace that `switch -` goes back to: the recorded previous
    /// workspace, unless it is the current one.
    pub fn previous_workspace(&self, recorded: Option<&WorkspaceName>) -> (r: Result<WorkspaceName>)
        ensures
            match recorded {
                Some(w) => if w@ != self.spec_current() {
                    r matches Ok(n) && n@ == w@
                } else {
                    r matches Err(Error::NoPreviousWorkspace)
                },
                None => r matches Err(Error::NoPreviousWorkspace),
            },
    {
        match recorded {
            Some(w) => if w.same_as(&self.current_workspace) {
                Err(Error::NoPreviousWorkspace)
            } else {
                Ok(w.clone())
            },
            None => Err(Error::NoPreviousWorkspace),
        }
    }

    /// Check that the previous workspace still exists.
    pub fn ensure_previous_workspace_exists(&self, workspace: &WorkspaceName, listed: &[JjWorkspaceListEntry]) -> (r: Result<()>)
        ensures
            is_listed(listed@, workspace@) ==> r is Ok,
            !is_listed(listed@, workspace@) ==> (r matches Err(Error::PreviousWorkspaceNotFound(n)) && n@
                == workspace@),
    {
        if listed_contains(listed, workspace) {
            Ok(())
        } else {
            Err(Error::PreviousWorkspaceNotFound(workspace.as_str().to_owned()))
        }
    }

    /// The workspace that `switch -` goes to: the recorded previous
    /// workspace, unless none is recorded or it is the current one, and
    /// only while `jj` still lists it.
    pub fn resolve_previous_workspace(&self, recorded: Option<&WorkspaceName>, listed: &[JjWorkspaceListEntry]) -> (r:
        Result<WorkspaceName>)
        ensures
            match recorded {
                Some(w) => if w@ == self.spec_current() {
                    r matches Err(Error::NoPreviousWorkspace)
                } else if is_listed(listed@, w@) {
                    r matches Ok(n) && n@ == w@
                } else {
                    r matches Err(Error::PreviousWorkspaceNotFound(n)) && n@ == w@
                },
                None => r matches Err(Error::NoPreviousWorkspace),
            },
            r matches Ok(n) ==> previous_target(self.spec_current(), opt_name(recorded), listed@) == Some(n@),
            r is Err ==> previous_target(self.spec_current(), opt_name(recorded), listed@) is None,
    {
        let previous = match self.previous_workspace(recorded) {
            Ok(w) => w,
            Err(e) => return Err(e),
        };
        match self.ensure_previous_workspace_exists(&previous, listed) {
            Ok(()) => Ok(previous),
            Err(e) => Err(e),
        }
    }

    /// The state to save once a switch to `target` succeeded: the current
    /// workspace as the previous one, or nothing to save where the switch
    /// stays in the current workspace.
    pub fn state_after_switch(&self, state_path: &str, target: &WorkspaceName) -> (r: Option<RepoStateStore>)
        ensures
            target@ == self.spec_current() ==> r is None,
            target@ != self.spec_current() ==> (r matches Some(s) && s.path@ == state_path@ && (
            s.previous_workspace matches Some(w) && w@ == self.spec_current())),
            match r {
                Some(s) => (s.previous_workspace matches Some(w) && recorded_after_switch(
                    self.spec_current(),
                    target@,
                ) == Some(w@)),
                None => recorded_after_switch(self.spec_current(), target@) is None,
            },
    {
        if self.should_record_previous_workspace(target) {
            Some(RepoStateStore::with_previous(state_path, &self.current_workspace))
        } else {
            None
        }
    }

    /// Whether a switch to `target` should be recorded as leaving the
    /// current workspace: only when it goes elsewhere.
    pub fn should_record_previous_workspace(&self, target: &WorkspaceName) -> (r: bool)
        ensures
            r == (target@ != self.spec_current()),
    {
        !target.same_as(&self.current_workspace)
    }

    /// The workspace an alias names: `@` is the current workspace, anything
    /// else names itself.
    pub fn normalize_workspace_alias(&self, workspace: &str) -> (r: String)
        ensures
            workspace@ == "@"@ ==> r@ == self.spec_current(),
            workspace@ != "@"@ ==> r@ == workspace@,
    {
        if str_equal(workspace, "@") {
            self.current_workspace.as_str().to_owned()
        } else {
            workspace.to_owned()
        }
    }

    /// The list row for a workspace snapshot: the current workspace shows
    /// as `.`, any other by its path relative to the workspace root where
    /// it can be.
    pub fn list_entry(&self, snapshot: &WorkspaceSnapshot) -> (r: WorkspaceListEntry)
        ensures
            r.is_current == snapshot.is_current,
            r.name@ == snapshot.name@,
            r.statuses@ == snapshot.health.statuses@,
            r.path@ == if snapshot.is_current {
                "."@
            } else {
                display_path(snapshot.path.path@, self.spec_workspace_root())
            },
            r.path_state == snapshot.path.state,
            r.commit_id@ == snapshot.commit_id@,
            r.message@ == snapshot.message@,
            freshness_view(r.freshness) == freshness_view(snapshot.freshness),
            r.diff == snapshot.diff,
            r.age == snapshot.age,
    {
        let path = if snapshot.is_current {
            ".".to_owned()
        } else {
            display_path_for_list(self.workspace_root.as_str(), snapshot.path.path.as_str())
        };
        WorkspaceListEntry {
            is_current: snapshot.is_current,
            name: snapshot.name.clone(),
            statuses: clone_statuses(&snapshot.health.statuses),
            path,
            path_state: snapshot.path.state,
            commit_id: snapshot.commit_id.clone(),
            message: snapshot.message.clone(),
            freshness: snapshot.freshness.clone(),
            diff: snapshot.diff,
            age: snapshot.age,
        }
    }

    /// The list rows for workspace snapshots, in order.
    pub fn list_workspaces(&self, snapshots: &[WorkspaceSnapshot]) -> (r: Vec<WorkspaceListEntry>)
        ensures
            r@.len() == snapshots@.len(),
            forall|k: int| 0 <= k < r@.len() ==> (#[trigger] r@[k]).name@ == snapshots@[k].name@ && r@[k].path@ == if snapshots@[k].is_current {
                "."@
            } else {
                display_path(snapshots@[k].path.path@, self.spec_workspace_root())
            } && r@[k].statuses@ == snapshots@[k].health.statuses@ && r@[k].is_current == snapshots@[k].is_current,
    {
        let mut out: Vec<WorkspaceListEntry> = Vec::new();
        let mut i: usize = 0;
        while i < snapshots.len()
            invariant
                i <= snapshots@.len(),
                out@.len() == i,
                forall|k: int| 0 <= k < i ==> (#[trigger] out@[k]).name@ == snapshots@[k].name@ && out@[k].path@ == if snapshots@[k].is_current {
                    "."@
                } else {
                    display_path(snapshots@[k].path.path@, self.spec_workspace_root())
                } && out@[k].statuses@ == snapshots@[k].health.statuses@ && out@[k].is_current == snapshots@[k].is_current,
            decreases snapshots@.len() - i,
        {
            out.push(self.list_entry(&snapshots[i]));
            i += 1;
        }
        out
    }

    /// The target of a merge preview, which must differ from the source:
    /// the named target, or the current workspace.
    pub fn merge_preview_target(&self, source: &WorkspaceName, target: Option<&WorkspaceName>) -> (r: Result<WorkspaceName>)
        ensures
            ({
                let t = match target {
                    Some(t) => t@,
                    None => self.spec_current(),
                };
                &&& source@ == t ==> (r matches Err(Error::MergePreviewSameWorkspace(n)) && n@ == source@)
                &&& source@ != t ==> (r matches Ok(w) && w@ == t)
            }),
    {
        let t = match target {
            Some(t) => t.clone(),
            None => self.current_workspace.clone(),
        };
        if source.same_as(&t) {
            return Err(Error::MergePreviewSameWorkspace(source.as_str().to_owned()));
        }
        Ok(t)
    }

    /// One side of a merge preview.
    pub fn resolve_merge_preview_workspace(
        &self,
        snapshots: &[WorkspaceSnapshot],
        workspace: &WorkspaceName,
        role: MergePreviewWorkspaceRole,
    ) -> (r: Result<MergePreviewWorkspace>)
        ensures
            side_fails(snapshots@, workspace@) ==> (r matches Err(e) && side_error(e, snapshots@, workspace@, role)),
            !side_fails(snapshots@, workspace@) ==> (r matches Ok(w) && side_value(w, snapshots@, workspace@, self.spec_workspace_root())),
    {
        let (count, first) = count_named(snapshots, workspace);
        if count == 0 {
            return Err(
                Error::MergePreviewWorkspaceMissing { role, workspace: workspace.as_str().to_owned() },
            );
        }
        if count > 1 {
            return Err(
                Error::MergePreviewWorkspaceAmbiguous { role, workspace: workspace.as_str().to_owned() },
            );
        }
        let snapshot = &snapshots[first];
        match validate_merge_preview_snapshot(snapshot, role) {
            Ok(()) => {},
            Err(e) => return Err(e),
        }
        Ok(
            MergePreviewWorkspace {
                snapshot: snapshot.duplicate(),
                display_path: display_path_for_list(self.workspace_root.as_str(), snapshot.path.path.as_str()),
            },
        )
    }

    /// A read-only preview of carrying `source`'s change onto `target` (the
    /// current workspace by default), from the snapshots of the workspaces:
    /// both must be listed once and ready; the preview names the `jj`
    /// commands that would do it.
    pub fn merge_preview(&self, source: &WorkspaceName, target: Option<&WorkspaceName>, snapshots: &[WorkspaceSnapshot]) -> (r: Result<MergePreview>)
        ensures
            ({
                let t = match target {
                    Some(t) => t@,
                    None => self.spec_current(),
                };
                if source@ == t {
                    r matches Err(Error::MergePreviewSameWorkspace(n)) && n@ == source@
                } else if side_fails(snapshots@, source@) {
                    r matches Err(e) && side_error(e, snapshots@, source@, MergePreviewWorkspaceRole::Source)
                } else if side_fails(snapshots@, t) {
                    r matches Err(e) && side_error(e, snapshots@, t, MergePreviewWorkspaceRole::Target)
                } else {
                    r matches Ok(p) && side_value(p.source, snapshots@, source@, self.spec_workspace_root())
                        && side_value(p.target, snapshots@, t, self.spec_workspace_root()) && views_of(p.commands@)
                        == seq![
                        "jj duplicate "@ + p.source.snapshot.change_id@,
                        "jj rebase -s <duplicate> -d "@ + p.target.snapshot.change_id@,
                    ]
                }
            }),
    {
        let t = match self.merge_preview_target(source, target) {
            Ok(t) => t,
            Err(e) => return Err(e),
        };
        let src = match self.resolve_merge_preview_workspace(snapshots, source, MergePreviewWorkspaceRole::Source) {
            Ok(w) => w,
            Err(e) => return Err(e),
        };
        let tgt = match self.resolve_merge_preview_workspace(snapshots, &t, MergePreviewWorkspaceRole::Target) {
            Ok(w) => w,
            Err(e) => return Err(e),
        };
        let mut duplicate = String::new();
        duplicate.append("jj duplicate ");
        duplicate.append(src.snapshot.change_id.as_str());
        let mut rebase = String::new();
        rebase.append("jj rebase -s <duplicate> -d ");
        rebase.append(tgt.snapshot.change_id.as_str());
        let mut commands: Vec<String> = Vec::new();
        commands.push(duplicate);
        commands.push(rebase);
        assert(views_of(commands@) =~= seq![
            "jj duplicate "@ + src.snapshot.change_id@,
            "jj rebase -s <duplicate> -d "@ + tgt.snapshot.change_id@,
        ]);
        Ok(MergePreview { source: src, target: tgt, commands })
    }
}

/// Whether some listed workspace carries the name.
fn listed_contains(listed: &[JjWorkspaceListEntry], workspace: &WorkspaceName) -> (r: bool)
    ensures
        r == is_listed(listed@, workspace@),
{
    let mut i: usize = 0;
    while i < listed.len()
        invariant
            i <= listed@.len(),
            forall|k: int| 0 <= k < i ==> (#[trigger] listed@[k]).name@ != workspace@,
        decreases listed@.len() - i,
    {
        if listed[i].name.same_as(workspace) {
            return true;
        }
        i += 1;
    }
    false
}

/// How many snapshots carry `name`.
pub open spec fn named_count(s: Seq<WorkspaceSnapshot>, name: Seq<char>) -> nat
    decreases s.len(),
{
    if s.len() == 0 {
        0
    } else {
        named_count(s.drop_last(), name) + if s.last().name@ == name {
            1nat
        } else {
            0nat
        }
    }
}

/// The position of the first snapshot that carries `name`.
pub open spec fn first_named(s: Seq<WorkspaceSnapshot>, name: Seq<char>) -> int
    decreases s.len(),
{
    if s.len() == 0 {
        0
    } else if named_count(s.drop_last(), name) > 0 {
        first_named(s.drop_last(), name)
    } else {
        s.len() - 1
    }
}

proof fn lemma_first_named(s: Seq<WorkspaceSnapshot>, name: Seq<char>)
    ensures
        named_count(s, name) > 0 ==> 0 <= first_named(s, name) < s.len() && s[first_named(s, name)].name@ == name,
    decreases s.len(),
{
    if s.len() > 0 {
        lemma_first_named(s.drop_last(), name);
    }
}

/// Count the snapshots that carry the name, and find the first.
fn count_named(snapshots: &[WorkspaceSnapshot], workspace: &WorkspaceName) -> (r: (usize, usize))
    ensures
        r.0 == named_count(snapshots@, workspace@) || (r.0 > 1 && named_count(snapshots@, workspace@) > 1),
        named_count(snapshots@, workspace@) > 0 ==> r.1 == first_named(snapshots@, workspace@),
        named_count(snapshots@, workspace@) > 0 ==> r.1 < snapshots@.len(),
        named_count(snapshots@, workspace@) > 0 ==> snapshots@[r.1 as int].name@ == workspace@,
{
    let mut count: usize = 0;
    let mut first: usize = 0;
    let mut i: usize = 0;
    assert(snapshots@.take(0) =~= Seq::<WorkspaceSnapshot>::empty());
    while i < snapshots.len()
        invariant
            i <= snapshots@.len(),
            count <= 2,
            count == named_count(snapshots@.take(i as int), workspace@) || (count == 2 && named_count(snapshots@.take(i as int), workspace@) >= 2),
            named_count(snapshots@.take(i as int), workspace@) > 0 ==> first == first_named(snapshots@.take(i as int), workspace@),
        decreases snapshots@.len() - i,
    {
        assert(snapshots@.take(i + 1).drop_last() =~= snapshots@.take(i as int));
        if snapshots[i].name.same_as(workspace) {
            if count == 0 {
                first = i;
            }
            if count < 2 {
                count += 1;
            }
        }
        i += 1;
    }
    assert(snapshots@.take(i as int) =~= snapshots@);
    proof {
        lemma_first_named(snapshots@, workspace@);
    }
    (count, first)
}

/// Why a snapshot's path, freshness or health makes it unready for a
/// merge, if it does.
pub open spec fn unready_reason(s: WorkspaceSnapshot) -> Option<Seq<char>> {
    match s.path.state {
        WorkspacePathState::Missing => Some("workspace path is missing"@),
        WorkspacePathState::Stale => Some("workspace path is stale"@),
        _ => if s.freshness.status != WorkspaceFreshnessStatus::Current {
            Some(
                match s.freshness.reason {
                    Some(m) => m@,
                    None => "workspace could not be made current"@,
                },
            )
        } else {
            match first_unhealthy(s.health.statuses@) {
                Some(st) => Some("workspace health is "@ + st.spec_label()),
                None => None,
            }
        },
    }
}

/// The first status that makes a workspace unready: missing, stale or not
/// current.
pub open spec fn first_unhealthy(s: Seq<WorkspaceListStatus>) -> Option<WorkspaceListStatus>
    decreases s.len(),
{
    if s.len() == 0 {
        None
    } else if s[0] is Missing || s[0] is Stale || s[0] is NotCurrent {
        Some(s[0])
    } else {
        first_unhealthy(s.drop_first())
    }
}

/// Whether one side of a merge preview cannot be used.
pub open spec fn side_fails(snapshots: Seq<WorkspaceSnapshot>, name: Seq<char>) -> bool {
    named_count(snapshots, name) != 1 || unready_reason(snapshots[first_named(snapshots, name)]) is Some
}

/// The error for a side of a merge preview that cannot be used.
pub open spec fn side_error(e: Error, snapshots: Seq<WorkspaceSnapshot>, name: Seq<char>, role: MergePreviewWorkspaceRole) -> bool {
    if named_count(snapshots, name) == 0 {
        e matches Error::MergePreviewWorkspaceMissing { role: r, workspace: w } && r == role && w@ == name
    } else if named_count(snapshots, name) > 1 {
        e matches Error::MergePreviewWorkspaceAmbiguous { role: r, workspace: w } && r == role && w@ == name
    } else {
        e matches Error::MergePreviewWorkspaceUnavailable { role: r, workspace: w, reason: m } && r == role && w@
            == name && Some(m@) == unready_reason(snapshots[first_named(snapshots, name)])
    }
}

/// The value of a usable side of a merge preview.
pub open spec fn side_value(w: MergePreviewWorkspace, snapshots: Seq<WorkspaceSnapshot>, name: Seq<char>, root: Seq<char>) -> bool {
    let s = snapshots[first_named(snapshots, name)];
    snapshot_view(w.snapshot) == snapshot_view(s) && w.display_path@ == display_path(s.path.path@, root)
}

/// Check that a snapshot can take part in a merge: its path must be usable,
/// it must have been made current, and its health must not say missing,
/// stale or not current.
pub fn validate_merge_preview_snapshot(snapshot: &WorkspaceSnapshot, role: MergePreviewWorkspaceRole) -> (r: Result<()>)
    ensures
        match unready_reason(*snapshot) {
            None => r is Ok,
            Some(m) => r matches Err(Error::MergePreviewWorkspaceUnavailable { role: x, workspace: w, reason: rs }) && x
                == role && w@ == snapshot.name@ && rs@ == m,
        },
{
    let reason: Option<String> = match snapshot.path.state {
        WorkspacePathState::Missing => Some("workspace path is missing".to_owned()),
        WorkspacePathState::Stale => Some("workspace path is stale".to_owned()),
        _ => if snapshot.freshness.status != WorkspaceFreshnessStatus::Current {
            Some(
                match &snapshot.freshness.reason {
                    Some(m) => m.clone(),
                    None => "workspace could not be made current".to_owned(),
                },
            )
        } else {
            match first_unhealthy_status(&snapshot.health.statuses) {
                Some(st) => {
                    let mut m = String::new();
                    m.append("workspace health is ");
                    m.append(st.label());
                    Some(m)
                },
                None => None,
            }
        },
    };
    match reason {
        Some(m) => Err(
            Error::MergePreviewWorkspaceUnavailable {
                role,
                workspace: snapshot.name.as_str().to_owned(),
                reason: m,
            },
        ),
        None => Ok(()),
    }
}

fn first_unhealthy_status(statuses: &Vec<WorkspaceListStatus>) -> (r: Option<WorkspaceListStatus>)
    ensures
        r == first_unhealthy(statuses@),
{
    let mut i: usize = 0;
    assert(statuses@.skip(0) =~= statuses@);
    while i < statuses.len()
        invariant
            i <= statuses@.len(),
            first_unhealthy(statuses@) == first_unhealthy(statuses@.skip(i as int)),
        decreases statuses@.len() - i,
    {
        assert(statuses@.skip(i as int)[0] == statuses@[i as int]);
        match statuses[i] {
            WorkspaceListStatus::Missing | WorkspaceListStatus::Stale | WorkspaceListStatus::NotCurrent => {
                return Some(statuses[i]);
            },
            _ => {},
        }
        assert(statuses@.skip(i as int).drop_first() =~= statuses@.skip(i + 1));
        i += 1;
    }
    None
}

/// The snapshot of a listed workspace with its resolved path and metadata
/// status: current freshness, unknown diff and age.
pub fn workspace_snapshot(
    entry: JjWorkspaceListEntry,
    resolved: &ResolvedWorkspacePath,
    metadata_status: WorkspaceMetadataStatus,
) -> (r: WorkspaceSnapshot)
    ensures
        r.is_current == entry.is_current,
        r.name@ == entry.name@,
        r.path.path@ == resolved.path@,
        r.path.state == resolved.state,
        r.path.source == resolved.source,
        r.health.statuses@ == list_statuses(entry.name@, resolved.source, resolved.state, metadata_status),
        r.health.metadata_status == metadata_status,
        r.commit_id@ == entry.commit_id@,
        r.change_id@ == entry.change_id@,
        r.message@ == entry.message@,
        r.freshness.status == WorkspaceFreshnessStatus::Current,
        r.freshness.reason is None,
        r.diff == WorkspaceDiffSnapshot::unknown_spec(),
        r.age.created_at is None,
{
    let statuses = workspace_list_statuses(&entry.name, resolved, metadata_status);
    WorkspaceSnapshot {
        is_current: entry.is_current,
        name: entry.name,
        path: WorkspacePathSnapshot {
            path: resolved.path.clone(),
            state: resolved.state,
            source: resolved.source,
        },
        health: WorkspaceHealthSnapshot { statuses, metadata_status },
        commit_id: entry.commit_id,
        change_id: entry.change_id,
        message: entry.message,
        freshness: WorkspaceFreshnessSnapshot::current(),
        diff: WorkspaceDiffSnapshot::unknown(),
        age: WorkspaceAgeSnapshot::unknown(),
    }
}

/// Whether a workspace's diff statistics are read: only when it was made
/// current and its path can be used.
pub open spec fn diff_wanted(freshness: WorkspaceFreshnessStatus, state: WorkspacePathState) -> bool {
    freshness == WorkspaceFreshnessStatus::Current && (state is Confirmed || state is Inferred)
}

/// Whether a workspace's diff statistics are read.
pub fn needs_diff(freshness: &WorkspaceFreshnessSnapshot, state: WorkspacePathState) -> (r: bool)
    ensures
        r == diff_wanted(freshness.status, state),
{
    freshness.status == WorkspaceFreshnessStatus::Current && match state {
        WorkspacePathState::Confirmed | WorkspacePathState::Inferred => true,
        _ => false,
    }
}

/// The freshness of a workspace that is not probed: a missing or stale path
/// is skipped; `None` when the workspace is to be made current.
pub fn initial_freshness(state: WorkspacePathState) -> (r: Option<WorkspaceFreshnessSnapshot>)
    ensures
        (state is Confirmed || state is Inferred) ==> r is None,
        state is Missing ==> (r matches Some(f) && f.status == WorkspaceFreshnessStatus::SkippedMissing && (f.reason
            matches Some(m) && m@ == "workspace path is missing"@)),
        state is Stale ==> (r matches Some(f) && f.status == WorkspaceFreshnessStatus::SkippedStale && (f.reason
            matches Some(m) && m@ == "workspace path is stale"@)),
{
    match state {
        WorkspacePathState::Confirmed | WorkspacePathState::Inferred => None,
        WorkspacePathState::Missing => Some(WorkspaceFreshnessSnapshot::skipped_missing()),
        WorkspacePathState::Stale => Some(WorkspaceFreshnessSnapshot::skipped_stale()),
    }
}

/// The statuses without `Healthy`.
pub open spec fn without_healthy(s: Seq<WorkspaceListStatus>) -> Seq<WorkspaceListStatus>
    decreases s.len(),
{
    if s.len() == 0 {
        Seq::empty()
    } else {
        without_healthy(s.drop_last()) + if s.last() is Healthy {
            Seq::empty()
        } else {
            seq![s.last()]
        }
    }
}

/// The statuses of a workspace that could not be made current: no longer
/// healthy, and not current (once).
pub open spec fn not_current_statuses(s: Seq<WorkspaceListStatus>) -> Seq<WorkspaceListStatus> {
    let t = without_healthy(s);
    if t.contains(WorkspaceListStatus::NotCurrent) {
        t
    } else {
        t.push(WorkspaceListStatus::NotCurrent)
    }
}

/// Complete a snapshot with its freshness, its diff statistics (read only
/// when wanted; `measured_diff` is what reading them gave) and its creation
/// time; a workspace that could not be made current loses `Healthy` and
/// gains `NotCurrent`.
pub fn apply_workspace_details(
    snapshot: &mut WorkspaceSnapshot,
    created_at: Option<Timestamp>,
    freshness: WorkspaceFreshnessSnapshot,
    measured_diff: WorkspaceDiffSnapshot,
)
    ensures
        final(snapshot).is_current == old(snapshot).is_current,
        final(snapshot).name@ == old(snapshot).name@,
        final(snapshot).path.path@ == old(snapshot).path.path@,
        final(snapshot).path.state == old(snapshot).path.state,
        final(snapshot).path.source == old(snapshot).path.source,
        final(snapshot).health.metadata_status == old(snapshot).health.metadata_status,
        final(snapshot).commit_id@ == old(snapshot).commit_id@,
        final(snapshot).change_id@ == old(snapshot).change_id@,
        final(snapshot).message@ == old(snapshot).message@,
        final(snapshot).health.statuses@ == if freshness.status is Failed || freshness.status is TimedOut {
            not_current_statuses(old(snapshot).health.statuses@)
        } else {
            old(snapshot).health.statuses@
        },
        freshness_view(final(snapshot).freshness) == freshness_view(freshness),
        final(snapshot).diff == if diff_wanted(freshness.status, old(snapshot).path.state) {
            measured_diff
        } else {
            WorkspaceDiffSnapshot::unknown_spec()
        },
        final(snapshot).age.created_at == created_at,
{
    let diff = if needs_diff(&freshness, snapshot.path.state) {
        measured_diff
    } else {
        WorkspaceDiffSnapshot::unknown()
    };
    match freshness.status {
        WorkspaceFreshnessStatus::Failed | WorkspaceFreshnessStatus::TimedOut => {
            let ghost old_statuses = snapshot.health.statuses@;
            let mut kept: Vec<WorkspaceListStatus> = Vec::new();
            let mut has_not_current = false;
            let mut i: usize = 0;
            assert(old_statuses.take(0) =~= Seq::<WorkspaceListStatus>::empty());
            while i < snapshot.health.statuses.len()
                invariant
                    i <= snapshot.health.statuses@.len(),
                    old_statuses == snapshot.health.statuses@,
                    kept@ == without_healthy(old_statuses.take(i as int)),
                    has_not_current == kept@.contains(WorkspaceListStatus::NotCurrent),
                decreases snapshot.health.statuses@.len() - i,
            {
                assert(old_statuses.take(i + 1).drop_last() =~= old_statuses.take(i as int));
                let st = snapshot.health.statuses[i];
                match st {
                    WorkspaceListStatus::Healthy => {},
                    _ => {
                        let ghost before = kept@;
                        kept.push(st);
                        if st == WorkspaceListStatus::NotCurrent {
                            has_not_current = true;
                        }
                        assert(kept@ =~= before.push(st));
                        assert(kept@.contains(WorkspaceListStatus::NotCurrent) == (before.contains(
                            WorkspaceListStatus::NotCurrent,
                        ) || st == WorkspaceListStatus::NotCurrent)) by {
                            if st == WorkspaceListStatus::NotCurrent {
                                assert(kept@[kept@.len() - 1] == st);
                            }
                            if kept@.contains(WorkspaceListStatus::NotCurrent) && st != WorkspaceListStatus::NotCurrent {
                                let j = choose|j: int| 0 <= j < kept@.len() && kept@[j] == WorkspaceListStatus::NotCurrent;
                                assert(before[j] == kept@[j]);
                            }
                            if before.contains(WorkspaceListStatus::NotCurrent) {
                                let j = choose|j: int| 0 <= j < before.len() && before[j] == WorkspaceListStatus::NotCurrent;
                                assert(kept@[j] == before[j]);
                            }
                        }
                    },
                }
                i += 1;
            }
            assert(old_statuses.take(i as int) =~= old_statuses);
            if !has_not_current {
                kept.push(WorkspaceListStatus::NotCurrent);
            }
            snapshot.health.statuses = kept;
        },
        _ => {},
    }
    snapshot.freshness = freshness;
    snapshot.diff = diff;
    snapshot.age = WorkspaceAgeSnapshot { created_at };
}

/// The position of the last listed workspace that carries `name`.
pub open spec fn last_listed(listed: Seq<JjWorkspaceListEntry>, name: Seq<char>) -> Option<int>
    decreases listed.len(),
{
    if listed.len() == 0 {
        None
    } else if listed.last().name@ == name {
        Some(listed.len() - 1)
    } else {
        last_listed(listed.drop_last(), name)
    }
}

proof fn lemma_last_listed(listed: Seq<JjWorkspaceListEntry>, name: Seq<char>)
    ensures
        last_listed(listed, name) matches Some(i) ==> 0 <= i < listed.len() && listed[i].name@ == name,
    decreases listed.len(),
{
    if listed.len() > 0 && listed.last().name@ != name {
        lemma_last_listed(listed.drop_last(), name);
    }
}

fn find_last_listed(listed: &[JjWorkspaceListEntry], name: &WorkspaceName) -> (r: Option<usize>)
    ensures
        match r {
            Some(i) => last_listed(listed@, name@) == Some(i as int) && i < listed@.len(),
            None => last_listed(listed@, name@) is None,
        },
{
    let mut i = listed.len();
    assert(listed@.take(i as int) =~= listed@);
    while i > 0
        invariant
            i <= listed@.len(),
            last_listed(listed@, name@) == last_listed(listed@.take(i as int), name@),
        decreases i,
    {
        assert(listed@.take(i as int).last() == listed@[i - 1]);
        assert(listed@.take(i as int).drop_last() =~= listed@.take(i - 1));
        if listed[i - 1].name.same_as(name) {
            return Some(i - 1);
        }
        i -= 1;
    }
    None
}

/// Bring a snapshot up to date with what `jj` lists now: the last listed
/// workspace of its name gives whether it is current, its commit, change
/// and description.
pub fn refresh_workspace_target(snapshot: &mut WorkspaceSnapshot, listed: &[JjWorkspaceListEntry])
    ensures
        final(snapshot).name@ == old(snapshot).name@,
        final(snapshot).path == old(snapshot).path,
        final(snapshot).health == old(snapshot).health,
        final(snapshot).freshness == old(snapshot).freshness,
        final(snapshot).diff == old(snapshot).diff,
        final(snapshot).age == old(snapshot).age,
        match last_listed(listed@, old(snapshot).name@) {
            Some(i) => final(snapshot).is_current == listed@[i].is_current && final(snapshot).commit_id@
                == listed@[i].commit_id@ && final(snapshot).change_id@ == listed@[i].change_id@
                && final(snapshot).message@ == listed@[i].message@,
            None => final(snapshot).is_current == old(snapshot).is_current && final(snapshot).commit_id
                == old(snapshot).commit_id && final(snapshot).change_id == old(snapshot).change_id
                && final(snapshot).message == old(snapshot).message,
        },
{
    match find_last_listed(listed, &snapshot.name) {
        Some(i) => {
            let entry = &listed[i];
            snapshot.is_current = entry.is_current;
            snapshot.commit_id = entry.commit_id.clone();
            snapshot.change_id = entry.change_id.clone();
            snapshot.message = entry.message.clone();
        },
        None => {},
    }
}

/// Snapshots ordered by workspace name.
pub open spec fn snapshots_sorted(s: Seq<WorkspaceSnapshot>) -> bool {
    forall|i: int, j: int| 0 <= i < j < s.len() ==> chars_order((#[trigger] s[i]).name@, (#[trigger] s[j]).name@) <= 0
}

/// The parts of each snapshot.
pub open spec fn snapshot_views(s: Seq<WorkspaceSnapshot>) -> Seq<SnapshotView> {
    s.map_values(|x: WorkspaceSnapshot| snapshot_view(x))
}

fn insert_snapshot(out: &mut Vec<WorkspaceSnapshot>, x: WorkspaceSnapshot)
    requires
        snapshots_sorted(old(out)@),
    ensures
        snapshots_sorted(final(out)@),
        snapshot_views(final(out)@).to_multiset() == snapshot_views(old(out)@).to_multiset().insert(snapshot_view(x)),
{
    let mut j = out.len();
    while j > 0 && compare_strings(out[j - 1].name.as_str(), x.name.as_str()) > 0
        invariant
            j <= out.len(),
            forall|k: int| j <= k < out.len() ==> chars_order((#[trigger] out@[k]).name@, x.name@) > 0,
        decreases j,
    {
        j -= 1;
    }
    let ghost before = out@;
    proof {
        assert forall|k: int| 0 <= k < j implies chars_order((#[trigger] before[k]).name@, x.name@) <= 0 by {
            lemma_chars_order(before[k].name@, before[j - 1].name@, x.name@);
        }
        assert forall|k: int| j <= k < before.len() implies chars_order(x.name@, (#[trigger] before[k]).name@) <= 0 by {
            lemma_chars_order(before[k].name@, x.name@, x.name@);
        }
        to_multiset_insert(snapshot_views(before), j as int, snapshot_view(x));
    }
    let ghost xv = snapshot_view(x);
    let ghost xn = x.name@;
    out.insert(j, x);
    assert(snapshot_views(out@) =~= snapshot_views(before).insert(j as int, xv));
    assert forall|a: int, b: int| 0 <= a < b < out@.len() implies chars_order((#[trigger] out@[a]).name@, (#[trigger] out@[b]).name@) <= 0 by {
        if a < j && b > j {
            assert(out@[a] == before[a]);
            assert(out@[b] == before[b - 1]);
            lemma_chars_order(before[a].name@, xn, before[b - 1].name@);
        } else if b < j {
        } else if a > j {
            assert(out@[a] == before[a - 1]);
            assert(out@[b] == before[b - 1]);
        }
    }
}

/// Order snapshots by workspace name.
pub fn sort_snapshots(snapshots: Vec<WorkspaceSnapshot>) -> (r: Vec<WorkspaceSnapshot>)
    ensures
        snapshots_sorted(r@),
        snapshot_views(r@).to_multiset() == snapshot_views(snapshots@).to_multiset(),
{
    let ghost all = snapshot_views(snapshots@);
    let total = snapshots.len();
    let mut input = snapshots;
    let mut sorted: Vec<WorkspaceSnapshot> = Vec::new();
    let mut k: usize = 0;
    assert(all.take(0) =~= Seq::<SnapshotView>::empty());
    assert(snapshot_views(sorted@) =~= Seq::<SnapshotView>::empty());
    while input.len() > 0
        invariant
            k + input@.len() == all.len(),
            all.len() == total,
            snapshot_views(input@) == all.skip(k as int),
            snapshots_sorted(sorted@),
            snapshot_views(sorted@).to_multiset() == all.take(k as int).to_multiset(),
        decreases input@.len(),
    {
        let ghost before_input = input@;
        let x = input.remove(0);
        proof {
            assert(snapshot_views(before_input)[0] == snapshot_view(before_input[0]));
            assert(snapshot_view(x) == all[k as int]);
            assert(all.take(k + 1) =~= all.take(k as int).push(snapshot_view(x)));
            to_multiset_build(all.take(k as int), snapshot_view(x));
            assert(snapshot_views(input@) =~= snapshot_views(before_input).drop_first());
        }
        insert_snapshot(&mut sorted, x);
        k = k + 1;
        assert(snapshot_views(input@) =~= all.skip(k as int));
    }
    assert(all.take(k as int) =~= all);
    sorted
}

/// Whether the answer to the removal prompt confirms it: `yes`, around
/// whitespace.
pub fn confirm_answer(answer: &str) -> (r: Result<()>)
    ensures
        crate::text::trim_ws(answer@) == "yes"@ ==> r is Ok,
        crate::text::trim_ws(answer@) != "yes"@ ==> r matches Err(Error::RemoveCancelled),
{
    let t = crate::text::trim(answer);
    if str_equal(t.as_str(), "yes") {
        Ok(())
    } else {
        Err(Error::RemoveCancelled)
    }
}

} // verus!
