//! Crate-wide error type.

use vstd::prelude::*;

verus! {

/// Which side of a merge preview a workspace plays.
#[derive(Clone, Copy, Debug, PartialEq, Eq, Structural)]
pub enum MergePreviewWorkspaceRole {
    /// The workspace whose change is carried over.
    Source,
    /// The workspace that receives the change.
    Target,
}

/// Crate-wide error type for CLI, discovery, and `jj` integration failures.
///
/// Paths are carried as their display text.
#[derive(Debug)]
pub enum Error {
    /// The current directory is not inside a Jujutsu workspace.
    NotInWorkspace,
    /// A workspace name violates the naming rules.
    InvalidWorkspaceName(String),
    /// The current directory still contains `.jj`, but is no longer a live workspace.
    OrphanedWorkspace,
    /// The repo name could not be derived from the current workspace root.
    RepoName,
    /// The workspace root unexpectedly has no parent directory.
    WorkspaceRootHasNoParent(String),
    /// The requested workspace does not exist.
    WorkspaceDoesNotExist,
    /// The named workspace does not exist in `jj`.
    WorkspaceNotFound(String),
    /// The workspace exists, but no validated directory could be found.
    WorkspaceDirectoryUnavailable {
        /// Workspace name.
        workspace: String,
        /// Best-known display path.
        path: String,
    },
    /// Removing the current workspace would orphan the active directory.
    CannotRemoveCurrentWorkspace,
    /// The workspace directory contains the shared repo storage.
    CannotRemoveWorkspaceWithSharedRepoStorage {
        /// Workspace name.
        workspace: String,
        /// Workspace directory.
        path: String,
    },
    /// The `.jj/repo` pointer file is empty or points to a non-directory.
    InvalidRepoPointer(String),
    /// The `.jj/repo` pointer could not be resolved to an on-disk path.
    RepoPointerResolution {
        /// Path to the pointer file that failed to resolve.
        path: String,
        /// Underlying resolution error message.
        message: String,
    },
    /// The configured workspace template is syntactically invalid.
    InvalidWorkspaceTemplate(String),
    /// Repo config could not be parsed or validated.
    InvalidRepoConfig {
        /// Config file path.
        path: String,
        /// Validation or parse message.
        message: String,
    },
    /// Workspace metadata could not be parsed or validated.
    InvalidWorkspaceMetadata {
        /// Metadata file path.
        path: String,
        /// Validation or parse message.
        message: String,
    },
    /// Repo switch state could not be parsed or validated.
    InvalidRepoState {
        /// State file path.
        path: String,
        /// Validation or parse message.
        message: String,
    },
    /// `jj workspace list` returned output that could not be parsed.
    InvalidJjWorkspaceListEntry(String),
    /// The requested shell is not supported.
    UnsupportedShell(String),
    /// A shell argument is required for shell-init generation.
    ShellRequired,
    /// The current shell could not be inferred from `$SHELL`.
    ShellDetection,
    /// `$HOME` is required for shell installation.
    HomeDirectory,
    /// The target shell rc file contains an invalid managed block.
    InvalidShellRcFile {
        /// Shell rc path.
        path: String,
        /// Validation message.
        message: String,
    },
    /// Shell integration requires a UTF-8 renderable path.
    ShellDirectivePathNotUtf8,
    /// A `jj` command failed.
    JjCommandFailed {
        /// Rendered `jj` command line.
        command: String,
        /// Trimmed stderr output from `jj`.
        stderr: String,
    },
    /// The installed `jj` version is older than the supported floor.
    UnsupportedJjVersion {
        /// Installed `jj --version` output.
        found: String,
        /// Minimum supported version.
        minimum: String,
    },
    /// `switch -` was used but no previous workspace is recorded.
    NoPreviousWorkspace,
    /// The recorded previous workspace no longer exists.
    PreviousWorkspaceNotFound(String),
    /// A merge preview was requested between a workspace and itself.
    MergePreviewSameWorkspace(String),
    /// A merge preview workspace is not listed by `jj`.
    MergePreviewWorkspaceMissing {
        /// Role of the workspace.
        role: MergePreviewWorkspaceRole,
        /// Workspace name.
        workspace: String,
    },
    /// A merge preview workspace name matches more than one listed workspace.
    MergePreviewWorkspaceAmbiguous {
        /// Role of the workspace.
        role: MergePreviewWorkspaceRole,
        /// Workspace name.
        workspace: String,
    },
    /// A merge preview workspace is unhealthy.
    MergePreviewWorkspaceUnavailable {
        /// Role of the workspace.
        role: MergePreviewWorkspaceRole,
        /// Workspace name.
        workspace: String,
        /// Why the workspace cannot be used.
        reason: String,
    },
    /// Removal was not confirmed.
    RemoveCancelled,
    /// A switch target that names no workspace was used where one must be
    /// named.
    ReservedSwitchTarget(String),
    /// A JSON payload could not be serialized.
    JsonSerialization(String),
    /// An underlying I/O operation failed.
    Io(String),
}

/// Crate-wide result alias.
pub type Result<T> = std::result::Result<T, Error>;

impl MergePreviewWorkspaceRole {
    /// The role's name in messages.
    pub open spec fn spec_name(self) -> Seq<char> {
        match self {
            MergePreviewWorkspaceRole::Source => "source"@,
            MergePreviewWorkspaceRole::Target => "target"@,
        }
    }

    /// The role's name in messages.
    pub fn name(self) -> (r: &'static str)
        ensures
            r@ == self.spec_name(),
    {
        match self {
            MergePreviewWorkspaceRole::Source => "source",
            MergePreviewWorkspaceRole::Target => "target",
        }
    }
}

/// `text` in single quotes.
pub open spec fn quoted(text: Seq<char>) -> Seq<char> {
    "'"@ + text + "'"@
}

/// The message shown for an error.
pub open spec fn error_text(e: Error) -> Seq<char> {
    match e {
        Error::NotInWorkspace => "error: not in a jj workspace"@,
        Error::InvalidWorkspaceName(n) => "error: invalid workspace name "@ + quoted(n@),
        Error::OrphanedWorkspace => "error: current directory is no longer a registered jj workspace\nhint: cd into another workspace or recreate this workspace with jj"@,
        Error::RepoName => "error: failed to determine repo name"@,
        Error::WorkspaceRootHasNoParent(p) => "error: workspace root has no parent: "@ + p@,
        Error::WorkspaceDoesNotExist => "error: workspace does not exist\nhint: use --create"@,
        Error::WorkspaceNotFound(w) => "error: workspace "@ + quoted(w@) + " does not exist"@,
        Error::WorkspaceDirectoryUnavailable { workspace, path } => "error: workspace "@ + quoted(workspace@)
            + " exists, but its directory could not be resolved\nhint: last known path: "@ + path@,
        Error::CannotRemoveCurrentWorkspace => "error: cannot remove current workspace\nhint: switch to another workspace first"@,
        Error::CannotRemoveWorkspaceWithSharedRepoStorage { workspace, path } => "error: cannot remove workspace "@
            + quoted(workspace@) + ": its directory "@ + path@ + " holds the shared repo storage"@,
        Error::InvalidRepoPointer(p) => "error: invalid repo pointer in "@ + p@,
        Error::RepoPointerResolution { path, message } => "error: invalid repo pointer in "@ + path@ + "\n"@ + message@,
        Error::InvalidWorkspaceTemplate(t) => "error: invalid workspace template "@ + quoted(t@),
        Error::InvalidRepoConfig { path, message } => "error: invalid repo config in "@ + path@ + "\n"@ + message@,
        Error::InvalidWorkspaceMetadata { path, message } => "error: invalid workspace metadata in "@ + path@ + "\n"@
            + message@,
        Error::InvalidRepoState { path, message } => "error: invalid repo state in "@ + path@ + "\n"@ + message@,
        Error::InvalidJjWorkspaceListEntry(l) => "error: invalid jj workspace list entry\n"@ + l@,
        Error::UnsupportedShell(s) => "error: unsupported shell "@ + quoted(s@),
        Error::ShellRequired => "error: shell name required\nhint: use one of: bash, zsh"@,
        Error::ShellDetection => "error: unable to detect shell from $SHELL"@,
        Error::HomeDirectory => "error: $HOME is not set"@,
        Error::InvalidShellRcFile { path, message } => "error: invalid shell rc file at "@ + path@ + "\n"@ + message@,
        Error::ShellDirectivePathNotUtf8 => "error: shell integration requires a UTF-8 workspace path"@,
        Error::JjCommandFailed { command, stderr } => "error: jj command failed: "@ + command@ + "\n"@ + stderr@,
        Error::UnsupportedJjVersion { found, minimum } => "error: jj "@ + minimum@ + " or newer required\nhint: found "@
            + found@,
        Error::NoPreviousWorkspace => "error: no previous workspace recorded for this repository"@,
        Error::PreviousWorkspaceNotFound(w) => "error: previous workspace "@ + quoted(w@)
            + " no longer exists in this repository"@,
        Error::MergePreviewSameWorkspace(w) => "error: cannot merge workspace "@ + quoted(w@) + " into itself"@,
        Error::MergePreviewWorkspaceMissing { role, workspace } => "error: merge "@ + role.spec_name() + " workspace "@
            + quoted(workspace@) + " does not exist"@,
        Error::MergePreviewWorkspaceAmbiguous { role, workspace } => "error: merge "@ + role.spec_name()
            + " workspace "@ + quoted(workspace@) + " is ambiguous"@,
        Error::MergePreviewWorkspaceUnavailable { role, workspace, reason } => "error: merge "@ + role.spec_name()
            + " workspace "@ + quoted(workspace@) + " is not ready: "@ + reason@,
        Error::RemoveCancelled => "error: remove cancelled"@,
        Error::ReservedSwitchTarget(t) => "error: "@ + quoted(t@) + " is a reserved switch target"@,
        Error::JsonSerialization(m) => "error: failed to serialize JSON\n"@ + m@,
        Error::Io(m) => m@,
    }
}

fn push_quoted(out: &mut String, text: &str)
    ensures
        final(out)@ == old(out)@ + quoted(text@),
{
    out.append("'");
    out.append(text);
    out.append("'");
}

impl Error {
    /// The message shown for the error.
    pub fn message(&self) -> (r: String)
        ensures
            r@ == error_text(*self),
    {
        let mut out = String::new();
        match self {
            Error::NotInWorkspace => out.append("error: not in a jj workspace"),
            Error::InvalidWorkspaceName(n) => {
                out.append("error: invalid workspace name ");
                push_quoted(&mut out, n.as_str());
            },
            Error::OrphanedWorkspace => out.append(
                "error: current directory is no longer a registered jj workspace\nhint: cd into another workspace or recreate this workspace with jj",
            ),
            Error::RepoName => out.append("error: failed to determine repo name"),
            Error::WorkspaceRootHasNoParent(p) => {
                out.append("error: workspace root has no parent: ");
                out.append(p.as_str());
            },
            Error::WorkspaceDoesNotExist => out.append("error: workspace does not exist\nhint: use --create"),
            Error::WorkspaceNotFound(w) => {
                out.append("error: workspace ");
                push_quoted(&mut out, w.as_str());
                out.append(" does not exist");
            },
            Error::WorkspaceDirectoryUnavailable { workspace, path } => {
                out.append("error: workspace ");
                push_quoted(&mut out, workspace.as_str());
                out.append(" exists, but its directory could not be resolved\nhint: last known path: ");
                out.append(path.as_str());
            },
            Error::CannotRemoveCurrentWorkspace => out.append(
                "error: cannot remove current workspace\nhint: switch to another workspace first",
            ),
            Error::CannotRemoveWorkspaceWithSharedRepoStorage { workspace, path } => {
                out.append("error: cannot remove workspace ");
                push_quoted(&mut out, workspace.as_str());
                out.append(": its directory ");
                out.append(path.as_str());
                out.append(" holds the shared repo storage");
            },
            Error::InvalidRepoPointer(p) => {
                out.append("error: invalid repo pointer in ");
                out.append(p.as_str());
            },
            Error::RepoPointerResolution { path, message } => {
                out.append("error: invalid repo pointer in ");
                out.append(path.as_str());
                out.append("\n");
                out.append(message.as_str());
            },
            Error::InvalidWorkspaceTemplate(t) => {
                out.append("error: invalid workspace template ");
                push_quoted(&mut out, t.as_str());
            },
            Error::InvalidRepoConfig { path, message } => {
                out.append("error: invalid repo config in ");
                out.append(path.as_str());
                out.append("\n");
                out.append(message.as_str());
            },
            Error::InvalidWorkspaceMetadata { path, message } => {
                out.append("error: invalid workspace metadata in ");
                out.append(path.as_str());
                out.append("\n");
                out.append(message.as_str());
            },
            Error::InvalidRepoState { path, message } => {
                out.append("error: invalid repo state in ");
                out.append(path.as_str());
                out.append("\n");
                out.append(message.as_str());
            },
            Error::InvalidJjWorkspaceListEntry(l) => {
                out.append("error: invalid jj workspace list entry\n");
                out.append(l.as_str());
            },
            Error::UnsupportedShell(s) => {
                out.append("error: unsupported shell ");
                push_quoted(&mut out, s.as_str());
            },
            Error::ShellRequired => out.append("error: shell name required\nhint: use one of: bash, zsh"),
            Error::ShellDetection => out.append("error: unable to detect shell from $SHELL"),
            Error::HomeDirectory => out.append("error: $HOME is not set"),
            Error::InvalidShellRcFile { path, message } => {
                out.append("error: invalid shell rc file at ");
                out.append(path.as_str());
                out.append("\n");
                out.append(message.as_str());
            },
            Error::ShellDirectivePathNotUtf8 => out.append(
                "error: shell integration requires a UTF-8 workspace path",
            ),
            Error::JjCommandFailed { command, stderr } => {
                out.append("error: jj command failed: ");
                out.append(command.as_str());
                out.append("\n");
                out.append(stderr.as_str());
            },
            Error::UnsupportedJjVersion { found, minimum } => {
                out.append("error: jj ");
                out.append(minimum.as_str());
                out.append(" or newer required\nhint: found ");
                out.append(found.as_str());
            },
            Error::NoPreviousWorkspace => out.append(
                "error: no previous workspace recorded for this repository",
            ),
            Error::PreviousWorkspaceNotFound(w) => {
                out.append("error: previous workspace ");
                push_quoted(&mut out, w.as_str());
                out.append(" no longer exists in this repository");
            },
            Error::MergePreviewSameWorkspace(w) => {
                out.append("error: cannot merge workspace ");
                push_quoted(&mut out, w.as_str());
                out.append(" into itself");
            },
            Error::MergePreviewWorkspaceMissing { role, workspace } => {
                out.append("error: merge ");
                out.append(role.name());
                out.append(" workspace ");
                push_quoted(&mut out, workspace.as_str());
                out.append(" does not exist");
            },
            Error::MergePreviewWorkspaceAmbiguous { role, workspace } => {
                out.append("error: merge ");
                out.append(role.name());
                out.append(" workspace ");
                push_quoted(&mut out, workspace.as_str());
                out.append(" is ambiguous");
            },
            Error::MergePreviewWorkspaceUnavailable { role, workspace, reason } => {
                out.append("error: merge ");
                out.append(role.name());
                out.append(" workspace ");
                push_quoted(&mut out, workspace.as_str());
                out.append(" is not ready: ");
                out.append(reason.as_str());
            },
            Error::RemoveCancelled => out.append("error: remove cancelled"),
            Error::ReservedSwitchTarget(t) => {
                out.append("error: ");
                push_quoted(&mut out, t.as_str());
                out.append(" is a reserved switch target");
            },
            Error::JsonSerialization(m) => {
                out.append("error: failed to serialize JSON\n");
                out.append(m.as_str());
            },
            Error::Io(m) => out.append(m.as_str()),
        }
        assert(out@ =~= error_text(*self));
        out
    }
}

} // verus!
