//! The decisions of `switch`: which workspace a request names, whether it
//! is created, and where the shell goes.

use vstd::prelude::*;
use vstd::string::*;

use crate::error::{Error, Result};
use crate::repo::jj::JjWorkspaceListEntry;
use crate::repo::metadata::opt_view;
use crate::repo::paths::{display_path, parent_of, primary_workspace_root, ResolvedWorkspacePath};
use crate::repo::state::RepoStateStore;
use crate::repo::workspace::{is_listed, NaviWorkspace, WorkspaceCreation};
use crate::text::str_equal;
use crate::types::{is_valid_workspace_name, WorkspaceName, WorkspacePathState};

verus! {

/// What a `switch` request asks for once the workspace list is known.
#[derive(Debug)]
pub enum SwitchPlan {
    /// `switch -`: go back to the recorded previous workspace.
    Previous,
    /// `switch ^`: go to the repository's primary workspace.
    Primary,
    /// Go to a workspace that `jj` lists.
    Existing(WorkspaceName),
    /// Create the workspace (see `NaviWorkspace::create_workspace`), then
    /// go there.
    Create(WorkspaceName),
}

/// The name a request refers to: `@` is the current workspace.
pub open spec fn requested_name(repo: NaviWorkspace, workspace: Seq<char>) -> Seq<char> {
    if workspace == "@"@ {
        repo.spec_current()
    } else {
        workspace
    }
}

/// Decide a `switch` request against the workspaces that `jj` lists.
///
/// `-` without `--create` or `--revision` goes back, and `^` goes to the
/// primary workspace but cannot be created; otherwise the name
/// (with `@` for the current workspace) must be valid, and a workspace
/// that is not listed is created only with `--create`.
pub fn run_switch(
    repo: &NaviWorkspace,
    workspace: &str,
    create: bool,
    revision: Option<&str>,
    listed: &[JjWorkspaceListEntry],
) -> (r: Result<SwitchPlan>)
    ensures
        workspace@ == "-"@ && !create && revision is None ==> r matches Ok(SwitchPlan::Previous),
        workspace@ == "^"@ && !create && revision is None ==> r matches Ok(SwitchPlan::Primary),
        workspace@ == "^"@ && (create || revision is Some) ==> (r matches Err(Error::ReservedSwitchTarget(t)) && t@
            == "^"@),
        !(workspace@ == "-"@ && !create && revision is None) && workspace@ != "^"@ ==> ({
            let name = requested_name(*repo, workspace@);
            if !is_valid_workspace_name(name) {
                r matches Err(Error::InvalidWorkspaceName(n)) && n@ == name
            } else if is_listed(listed@, name) {
                r matches Ok(SwitchPlan::Existing(w)) && w@ == name
            } else if create {
                r matches Ok(SwitchPlan::Create(w)) && w@ == name
            } else {
                r matches Err(Error::WorkspaceDoesNotExist)
            }
        }),
{
    proof {
        reveal_strlit("-");
        reveal_strlit("^");
        assert("-"@[0] != "^"@[0]);
    }
    if str_equal(workspace, "-") && !create && revision.is_none() {
        return Ok(SwitchPlan::Previous);
    }
    if str_equal(workspace, "^") {
        if create || revision.is_some() {
            return Err(Error::ReservedSwitchTarget(workspace.to_owned()));
        }
        return Ok(SwitchPlan::Primary);
    }
    let normalized = repo.normalize_workspace_alias(workspace);
    let name = match WorkspaceName::new(normalized.as_str()) {
        Ok(n) => n,
        Err(e) => return Err(e),
    };
    if repo.workspace_exists(listed, &name) {
        Ok(SwitchPlan::Existing(name))
    } else if create {
        Ok(SwitchPlan::Create(name))
    } else {
        Err(Error::WorkspaceDoesNotExist)
    }
}

/// Where a switch lands: the path shown (and handed to the shell), and
/// whether a warning about a template fallback is due.
#[derive(Debug)]
pub struct SwitchDestination {
    /// The destination, relative to the current directory where it can be.
    pub display_path: String,
    /// Whether the path came from the weaker template fallback.
    pub warn_fallback: bool,
}

/// Switch to a workspace whose path has been resolved: the path must be
/// switchable, and the switch warns only for a path inferred from the
/// workspace template.
pub fn emit_existing_switch(
    repo: &NaviWorkspace,
    workspace: &WorkspaceName,
    resolved: &ResolvedWorkspacePath,
) -> (r: Result<SwitchDestination>)
    ensures
        !resolved.spec_is_switchable() ==> (r matches Err(Error::WorkspaceDirectoryUnavailable { workspace: w, path: p })
            && w@ == workspace@ && p@ == display_path(resolved.path@, repo.spec_cwd())),
        resolved.spec_is_switchable() ==> (r matches Ok(d) && d.display_path@ == display_path(
            resolved.path@,
            repo.spec_cwd(),
        ) && d.warn_fallback == (resolved.state is Inferred && resolved.source is Template)),
{
    let display = repo.display_path_for_switch(resolved.path.as_str());
    if !resolved.is_switchable() {
        return Err(
            Error::WorkspaceDirectoryUnavailable { workspace: workspace.as_str().to_owned(), path: display },
        );
    }
    let inferred = match resolved.state {
        WorkspacePathState::Inferred => true,
        _ => false,
    };
    Ok(SwitchDestination { display_path: display, warn_fallback: inferred && resolved.source.needs_switch_warning() })
}

/// Where a switch to a newly created workspace lands.
pub fn emit_switch_destination(repo: &NaviWorkspace, target_root: &str) -> (r: SwitchDestination)
    ensures
        r.display_path@ == display_path(target_root@, repo.spec_cwd()),
        !r.warn_fallback,
{
    SwitchDestination { display_path: repo.display_path_for_switch(target_root), warn_fallback: false }
}

/// What carrying out a switch comes to: where the shell goes, and the
/// switch state to save once it is there (`None`: leave the state as it
/// is).
pub struct SwitchLanding {
    /// Where the shell goes.
    pub destination: SwitchDestination,
    /// The state to save after arriving.
    pub state: Option<RepoStateStore>,
}

/// The state saved after a switch that arrives at `target`: the current
/// workspace as the previous one, with the state file's path, unless the
/// switch stays where it is.
pub open spec fn saved_state(repo: NaviWorkspace, state_path: Seq<char>, target: Seq<char>, state: Option<RepoStateStore>) -> bool {
    if target == repo.spec_current() {
        state is None
    } else {
        state matches Some(s) && s.path@ == state_path && (s.previous_workspace matches Some(w) && w@
            == repo.spec_current())
    }
}

/// Land a switch to a listed workspace, given how its path was resolved:
/// a failed resolution or a path that cannot be used fails the switch,
/// with nothing to show and no state to save; otherwise the shell goes to
/// the path, and the workspace left is saved as the previous one.
pub fn land_existing(
    repo: &NaviWorkspace,
    state_path: &str,
    workspace: &WorkspaceName,
    resolved: Result<ResolvedWorkspacePath>,
) -> (r: Result<SwitchLanding>)
    ensures
        match resolved {
            Err(e) => r == Err::<SwitchLanding, Error>(e),
            Ok(p) => if !p.spec_is_switchable() {
                r matches Err(Error::WorkspaceDirectoryUnavailable { workspace: w, path: q }) && w@ == workspace@
                    && q@ == display_path(p.path@, repo.spec_cwd())
            } else {
                r matches Ok(l) && l.destination.display_path@ == display_path(p.path@, repo.spec_cwd())
                    && l.destination.warn_fallback == (p.state is Inferred && p.source is Template) && saved_state(
                    *repo,
                    state_path@,
                    workspace@,
                    l.state,
                )
            },
        },
{
    let p = match resolved {
        Ok(p) => p,
        Err(e) => return Err(e),
    };
    let destination = match emit_existing_switch(repo, workspace, &p) {
        Ok(d) => d,
        Err(e) => return Err(e),
    };
    let state = repo.state_after_switch(state_path, workspace);
    Ok(SwitchLanding { destination, state })
}

/// Land a switch to a workspace just created, given how creating it went
/// (writing the settings, `jj workspace add`, saving the records): a
/// failure fails the switch, with nothing to show and no state to save;
/// otherwise the shell goes to the new root, and the workspace left is
/// saved as the previous one.
pub fn land_created(
    repo: &NaviWorkspace,
    state_path: &str,
    workspace: &WorkspaceName,
    creation: &WorkspaceCreation,
    created: Result<()>,
) -> (r: Result<SwitchLanding>)
    ensures
        match created {
            Err(e) => r == Err::<SwitchLanding, Error>(e),
            Ok(()) => r matches Ok(l) && l.destination.display_path@ == display_path(
                creation.target_root@,
                repo.spec_cwd(),
            ) && !l.destination.warn_fallback && saved_state(*repo, state_path@, workspace@, l.state),
        },
{
    match created {
        Ok(()) => {
            let destination = emit_switch_destination(repo, creation.target_root.as_str());
            let state = repo.state_after_switch(state_path, workspace);
            Ok(SwitchLanding { destination, state })
        },
        Err(e) => Err(e),
    }
}

/// Land a switch to the primary workspace, whose root is two levels above
/// the repository storage. `canonical_primary` is that root's canonical
/// form, where the file system gave one. Without such a root the switch
/// fails; otherwise the shell goes there, and the current workspace is
/// saved as the previous one unless the primary root is the current
/// workspace's root.
pub fn land_primary(repo: &NaviWorkspace, state_path: &str, canonical_primary: Option<String>) -> (r: Result<
    SwitchLanding,
>)
    ensures
        match parent_of(repo.spec_repo_storage_path()) {
            Some(p1) => match parent_of(p1) {
                Some(p2) => r matches Ok(l) && l.destination.display_path@ == display_path(p2, repo.spec_cwd())
                    && !l.destination.warn_fallback && if opt_view(canonical_primary) == Some(repo.spec_workspace_root()) {
                    l.state is None
                } else {
                    l.state matches Some(s) && s.path@ == state_path@ && (s.previous_workspace matches Some(w) && w@
                        == repo.spec_current())
                },
                None => r matches Err(Error::WorkspaceRootHasNoParent(x)) && x@ == repo.spec_repo_storage_path(),
            },
            None => r matches Err(Error::WorkspaceRootHasNoParent(x)) && x@ == repo.spec_repo_storage_path(),
        },
{
    let primary = match primary_workspace_root(repo.repo_storage_path()) {
        Some(p) => p,
        None => return Err(Error::WorkspaceRootHasNoParent(repo.repo_storage_path().to_owned())),
    };
    let destination = emit_switch_destination(repo, primary.as_str());
    let at_primary = match &canonical_primary {
        Some(c) => str_equal(c.as_str(), repo.workspace_root()),
        None => false,
    };
    let state = if at_primary {
        None
    } else {
        Some(RepoStateStore::with_previous(state_path, repo.current_workspace_name()))
    };
    Ok(SwitchLanding { destination, state })
}

impl SwitchLanding {
    /// Once the shell has been sent on (`arrived`), the state to save: none
    /// where sending it failed, which fails the switch.
    pub fn settle(self, arrived: Result<()>) -> (r: Result<Option<RepoStateStore>>)
        ensures
            match arrived {
                Err(e) => r == Err::<Option<RepoStateStore>, Error>(e),
                Ok(()) => r == Ok::<Option<RepoStateStore>, Error>(self.state),
            },
    {
        match arrived {
            Ok(()) => Ok(self.state),
            Err(e) => Err(e),
        }
    }
}

} // verus!
