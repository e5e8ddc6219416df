//! What `doctor` finds about a repository's workspaces.

use vstd::prelude::*;

use crate::doctor::{
    append_findings, finding_view, finding_views, findings_sorted, opt_text, report_of, ties_in_order, DoctorFinding,
    DoctorFindingCode, DoctorReport, DoctorScope, DoctorSeverity, FindingView,
};
use crate::error::{Error, Result};
use crate::types::{
    RepoConfig, WorkspaceMetadataStatus, WorkspaceName, WorkspacePathSource, WorkspacePathState, WorkspaceSnapshot,
    WorkspaceTemplate,
};

use super::metadata::{WorkspaceMetadataEntry, WorkspaceMetadataStore};
use super::paths::{
    derive_repo_name_for_doctor, display_path, display_path_for_list, doctor_repo_name,
    should_report_missing_navi_metadata, DEFAULT_WORKSPACE_NAME,
};

verus! {

/// A workspace's name in quotes, as messages show it.
pub open spec fn workspace_in_quotes(name: Seq<char>) -> Seq<char> {
    "workspace '"@ + name + "'"@
}

/// The view of a finding about one workspace.
pub open spec fn workspace_finding_view(
    severity: DoctorSeverity,
    code: DoctorFindingCode,
    workspace: Seq<char>,
    message: Seq<char>,
    hint: Option<Seq<char>>,
    path: Option<Seq<char>>,
) -> FindingView {
    (severity, code, (1, workspace), message, path, hint)
}

/// A finding about one workspace.
pub fn workspace_finding(
    severity: DoctorSeverity,
    code: DoctorFindingCode,
    workspace: &WorkspaceName,
    message: String,
    hint: Option<String>,
    path: Option<String>,
) -> (r: DoctorFinding)
    ensures
        finding_view(r) == workspace_finding_view(severity, code, workspace@, message@, opt_text(hint), opt_text(path)),
{
    DoctorFinding {
        severity,
        code,
        scope: DoctorScope::Workspace { workspace: workspace.as_str().to_owned() },
        message,
        path,
        hint,
    }
}

/// A finding about a workspace whose path was inferred.
pub fn inferred_path_finding(workspace: &WorkspaceName, message: String, hint: String, display_path: String) -> (r: DoctorFinding)
    ensures
        finding_view(r) == workspace_finding_view(
            DoctorSeverity::Info,
            DoctorFindingCode::WorkspacePathInferred,
            workspace@,
            message@,
            Some(hint@),
            Some(display_path@),
        ),
{
    workspace_finding(
        DoctorSeverity::Info,
        DoctorFindingCode::WorkspacePathInferred,
        workspace,
        message,
        Some(hint),
        Some(display_path),
    )
}

/// The findings about one workspace snapshot, whose path is shown as
/// `shown`: how its path was found when it is not confirmed, and that it
/// has no metadata when metadata can be trusted and it is not the default
/// workspace. An inferred path from a source that cannot infer gives none.
pub open spec fn snapshot_findings(s: WorkspaceSnapshot, shown: Seq<char>, metadata_is_valid: bool) -> Seq<FindingView> {
    let name = s.name@;
    if s.path.state is Inferred && !(s.path.source is NaviMetadata || s.path.source is Template) {
        Seq::empty()
    } else {
        let path_findings = match s.path.state {
            WorkspacePathState::Confirmed => Seq::empty(),
            WorkspacePathState::Inferred => if s.path.source is NaviMetadata {
                seq![
                    workspace_finding_view(
                        DoctorSeverity::Info,
                        DoctorFindingCode::WorkspacePathInferred,
                        name,
                        workspace_in_quotes(name) + " is using a validated metadata fallback path"@,
                        Some("resolved from navi metadata: "@ + shown),
                        Some(shown),
                    ),
                ]
            } else {
                seq![
                    workspace_finding_view(
                        DoctorSeverity::Info,
                        DoctorFindingCode::WorkspacePathInferred,
                        name,
                        workspace_in_quotes(name) + " is using a validated template path"@,
                        Some("resolved from workspace template: "@ + shown),
                        Some(shown),
                    ),
                ]
            },
            WorkspacePathState::Missing => seq![
                workspace_finding_view(
                    DoctorSeverity::Warning,
                    DoctorFindingCode::WorkspaceDirectoryMissing,
                    name,
                    workspace_in_quotes(name) + " directory is missing"@,
                    Some("last known path: "@ + shown),
                    Some(shown),
                ),
            ],
            WorkspacePathState::Stale => seq![
                workspace_finding_view(
                    DoctorSeverity::Warning,
                    DoctorFindingCode::WorkspaceDirectoryStale,
                    name,
                    workspace_in_quotes(name) + " directory is stale"@,
                    Some("best known path no longer validates: "@ + shown),
                    Some(shown),
                ),
            ],
        };
        path_findings + if metadata_is_valid && s.health.metadata_status is MissingRecord && name
            != DEFAULT_WORKSPACE_NAME@ {
            seq![
                workspace_finding_view(
                    DoctorSeverity::Info,
                    DoctorFindingCode::JjOnlyWorkspace,
                    name,
                    workspace_in_quotes(name) + " exists in jj but has no navi metadata"@,
                    None,
                    Some(shown),
                ),
            ]
        } else {
            Seq::empty()
        }
    }
}

fn quoted_message(name: &WorkspaceName, rest: &str) -> (r: String)
    ensures
        r@ == workspace_in_quotes(name@) + rest@,
{
    let mut m = String::new();
    m.append("workspace '");
    m.append(name.as_str());
    m.append("'");
    m.append(rest);
    m
}

fn prefixed(prefix: &str, text: &str) -> (r: String)
    ensures
        r@ == prefix@ + text@,
{
    let mut m = String::new();
    m.append(prefix);
    m.append(text);
    m
}

/// The findings about one workspace snapshot, its path shown relative to
/// the workspace root where it can be.
pub fn snapshot_doctor_findings(workspace_root: &str, snapshot: &WorkspaceSnapshot, metadata_is_valid: bool) -> (r: Vec<DoctorFinding>)
    ensures
        finding_views(r@) == snapshot_findings(*snapshot, display_path(snapshot.path.path@, workspace_root@), metadata_is_valid),
        snapshot.path.state is Missing ==> exists|k: int|
            0 <= k < r@.len() && (#[trigger] finding_view(r@[k])).0 == DoctorSeverity::Warning && finding_view(r@[k]).1
                == DoctorFindingCode::WorkspaceDirectoryMissing && finding_view(r@[k]).2 == (1int, snapshot.name@)
                && finding_view(r@[k]).3 == "workspace '"@ + snapshot.name@ + "' directory is missing"@,
        snapshot.path.state is Stale ==> exists|k: int|
            0 <= k < r@.len() && (#[trigger] finding_view(r@[k])).0 == DoctorSeverity::Warning && finding_view(r@[k]).1
                == DoctorFindingCode::WorkspaceDirectoryStale && finding_view(r@[k]).2 == (1int, snapshot.name@)
                && finding_view(r@[k]).3 == "workspace '"@ + snapshot.name@ + "' directory is stale"@,
{
    proof {
        lemma_unusable_directory_warned(
            *snapshot,
            display_path(snapshot.path.path@, workspace_root@),
            metadata_is_valid,
        );
    }
    let shown = display_path_for_list(workspace_root, snapshot.path.path.as_str());
    let name = &snapshot.name;
    let mut out: Vec<DoctorFinding> = Vec::new();
    match snapshot.path.state {
        WorkspacePathState::Confirmed => {},
        WorkspacePathState::Inferred => match snapshot.path.source {
            WorkspacePathSource::NaviMetadata => {
                out.push(
                    inferred_path_finding(
                        name,
                        quoted_message(name, " is using a validated metadata fallback path"),
                        prefixed("resolved from navi metadata: ", shown.as_str()),
                        shown.clone(),
                    ),
                );
            },
            WorkspacePathSource::Template => {
                out.push(
                    inferred_path_finding(
                        name,
                        quoted_message(name, " is using a validated template path"),
                        prefixed("resolved from workspace template: ", shown.as_str()),
                        shown.clone(),
                    ),
                );
            },
            _ => {
                assert(finding_views(out@) =~= Seq::<FindingView>::empty());
                return out;
            },
        },
        WorkspacePathState::Missing => {
            out.push(
                workspace_finding(
                    DoctorSeverity::Warning,
                    DoctorFindingCode::WorkspaceDirectoryMissing,
                    name,
                    quoted_message(name, " directory is missing"),
                    Some(prefixed("last known path: ", shown.as_str())),
                    Some(shown.clone()),
                ),
            );
        },
        WorkspacePathState::Stale => {
            out.push(
                workspace_finding(
                    DoctorSeverity::Warning,
                    DoctorFindingCode::WorkspaceDirectoryStale,
                    name,
                    quoted_message(name, " directory is stale"),
                    Some(prefixed("best known path no longer validates: ", shown.as_str())),
                    Some(shown.clone()),
                ),
            );
        },
    }
    let ghost first = finding_views(out@);
    let missing_record = match snapshot.health.metadata_status {
        WorkspaceMetadataStatus::MissingRecord => true,
        _ => false,
    };
    if metadata_is_valid && missing_record && should_report_missing_navi_metadata(name) {
        out.push(
            workspace_finding(
                DoctorSeverity::Info,
                DoctorFindingCode::JjOnlyWorkspace,
                name,
                quoted_message(name, " exists in jj but has no navi metadata"),
                None,
                Some(shown),
            ),
        );
        assert(finding_views(out@) =~= first.push(finding_view(out@.last())));
    }
    assert(finding_views(out@) =~= snapshot_findings(
        *snapshot,
        display_path(snapshot.path.path@, workspace_root@),
        metadata_is_valid,
    ));
    out
}

/// A workspace whose directory is missing, or stale, gets a warning that
/// says so, scoped to that workspace, whatever else is found.
pub proof fn lemma_unusable_directory_warned(s: WorkspaceSnapshot, shown: Seq<char>, metadata_is_valid: bool)
    ensures
        s.path.state is Missing ==> exists|k: int|
            0 <= k < snapshot_findings(s, shown, metadata_is_valid).len() && #[trigger] snapshot_findings(
                s,
                shown,
                metadata_is_valid,
            )[k] == (
                DoctorSeverity::Warning,
                DoctorFindingCode::WorkspaceDirectoryMissing,
                (1int, s.name@),
                "workspace '"@ + s.name@ + "' directory is missing"@,
                Some(shown),
                Some("last known path: "@ + shown),
            ),
        s.path.state is Stale ==> exists|k: int|
            0 <= k < snapshot_findings(s, shown, metadata_is_valid).len() && #[trigger] snapshot_findings(
                s,
                shown,
                metadata_is_valid,
            )[k] == (
                DoctorSeverity::Warning,
                DoctorFindingCode::WorkspaceDirectoryStale,
                (1int, s.name@),
                "workspace '"@ + s.name@ + "' directory is stale"@,
                Some(shown),
                Some("best known path no longer validates: "@ + shown),
            ),
{
    let f = snapshot_findings(s, shown, metadata_is_valid);
    reveal_strlit("'");
    reveal_strlit(" directory is missing");
    reveal_strlit("' directory is missing");
    reveal_strlit(" directory is stale");
    reveal_strlit("' directory is stale");
    assert("'"@ + " directory is missing"@ =~= "' directory is missing"@);
    assert("'"@ + " directory is stale"@ =~= "' directory is stale"@);
    assert(workspace_in_quotes(s.name@) + " directory is missing"@ =~= "workspace '"@ + s.name@
        + "' directory is missing"@);
    assert(workspace_in_quotes(s.name@) + " directory is stale"@ =~= "workspace '"@ + s.name@
        + "' directory is stale"@);
    if s.path.state is Missing || s.path.state is Stale {
        assert(f.len() > 0);
        assert(f[0] == f[0]);
    }
}

/// Only trouble is reported about a workspace: one with a confirmed path
/// and a record of the tool (or that is `default`, or whose records cannot
/// be trusted) gets no finding; a workspace other than `default` that jj
/// lists without a record gets an Info finding saying so, when the records
/// can be trusted; and every finding is about that workspace.
pub proof fn lemma_snapshot_findings_scope(s: WorkspaceSnapshot, shown: Seq<char>, metadata_is_valid: bool)
    ensures
        s.path.state is Confirmed && !(metadata_is_valid && s.health.metadata_status is MissingRecord && s.name@
            != "default"@) ==> snapshot_findings(s, shown, metadata_is_valid).len() == 0,
        !(s.path.state is Inferred && !(s.path.source is NaviMetadata || s.path.source is Template))
            && metadata_is_valid && s.health.metadata_status is MissingRecord && s.name@ != "default"@ ==> exists|k: int|
            0 <= k < snapshot_findings(s, shown, metadata_is_valid).len() && (#[trigger] snapshot_findings(
                s,
                shown,
                metadata_is_valid,
            )[k]).0 == DoctorSeverity::Info && snapshot_findings(s, shown, metadata_is_valid)[k].1
                == DoctorFindingCode::JjOnlyWorkspace,
        forall|k: int|
            0 <= k < snapshot_findings(s, shown, metadata_is_valid).len() ==> (#[trigger] snapshot_findings(
                s,
                shown,
                metadata_is_valid,
            )[k]).2 == (1int, s.name@),
{
    reveal_strlit("default");
    let f = snapshot_findings(s, shown, metadata_is_valid);
    if f.len() > 0 {
        assert(f.last() == f[f.len() - 1]);
    }
}

/// The findings about all workspace snapshots, in order.
pub open spec fn snapshots_findings(snapshots: Seq<WorkspaceSnapshot>, root: Seq<char>, metadata_is_valid: bool) -> Seq<FindingView>
    decreases snapshots.len(),
{
    if snapshots.len() == 0 {
        Seq::empty()
    } else {
        snapshots_findings(snapshots.drop_last(), root, metadata_is_valid) + snapshot_findings(
            snapshots.last(),
            display_path(snapshots.last().path.path@, root),
            metadata_is_valid,
        )
    }
}

/// Whether some snapshot carries the name.
pub open spec fn has_snapshot(snapshots: Seq<WorkspaceSnapshot>, name: Seq<char>) -> bool {
    exists|i: int| 0 <= i < snapshots.len() && (#[trigger] snapshots[i]).name@ == name
}

/// The finding about a recorded workspace that `jj` no longer lists.
pub open spec fn metadata_only_view(name: Seq<char>, path: Option<Seq<char>>, root: Seq<char>) -> FindingView {
    (
        DoctorSeverity::Warning,
        DoctorFindingCode::MetadataOnlyWorkspace,
        (1, name),
        "metadata exists for "@ + workspace_in_quotes(name) + " but jj no longer lists it"@,
        match path {
            Some(p) => Some(display_path(p, root)),
            None => None,
        },
        Some("safe prune candidate"@),
    )
}

/// The findings about recorded workspaces that `jj` no longer lists, in
/// record order.
pub open spec fn metadata_only_findings(
    entries: Seq<WorkspaceMetadataEntry>,
    snapshots: Seq<WorkspaceSnapshot>,
    root: Seq<char>,
) -> Seq<FindingView>
    decreases entries.len(),
{
    if entries.len() == 0 {
        Seq::empty()
    } else {
        let e = entries.last();
        metadata_only_findings(entries.drop_last(), snapshots, root) + if has_snapshot(snapshots, e.name@) {
            Seq::empty()
        } else {
            seq![metadata_only_view(e.name@, opt_text(e.path), root)]
        }
    }
}

/// The finding about a recorded workspace that `jj` no longer lists.
pub fn metadata_only_finding(workspace_root: &str, entry: &WorkspaceMetadataEntry) -> (r: DoctorFinding)
    ensures
        finding_view(r) == metadata_only_view(entry.name@, opt_text(entry.path), workspace_root@),
{
    let path = match &entry.path {
        Some(p) => Some(display_path_for_list(workspace_root, p.as_str())),
        None => None,
    };
    let mut message = String::new();
    message.append("metadata exists for ");
    message.append("workspace '");
    message.append(entry.name.as_str());
    message.append("'");
    message.append(" but jj no longer lists it");
    assert(message@ =~= "metadata exists for "@ + workspace_in_quotes(entry.name@) + " but jj no longer lists it"@);
    DoctorFinding {
        severity: DoctorSeverity::Warning,
        code: DoctorFindingCode::MetadataOnlyWorkspace,
        scope: DoctorScope::Workspace { workspace: entry.name.as_str().to_owned() },
        message,
        path,
        hint: Some("safe prune candidate".to_owned()),
    }
}

fn has_snapshot_named(snapshots: &[WorkspaceSnapshot], name: &WorkspaceName) -> (r: bool)
    ensures
        r == has_snapshot(snapshots@, name@),
{
    let mut i: usize = 0;
    while i < snapshots.len()
        invariant
            i <= snapshots@.len(),
            forall|k: int| 0 <= k < i ==> (#[trigger] snapshots@[k]).name@ != name@,
        decreases snapshots@.len() - i,
    {
        if snapshots[i].name.same_as(name) {
            return true;
        }
        i += 1;
    }
    false
}

/// The findings about recorded workspaces that `jj` no longer lists.
pub fn collect_metadata_only_findings(
    workspace_root: &str,
    snapshots: &[WorkspaceSnapshot],
    metadata: &WorkspaceMetadataStore,
) -> (r: Vec<DoctorFinding>)
    ensures
        exists|entries: Seq<WorkspaceMetadataEntry>| entries.len() == metadata.records@.len() && (forall|k: int| 0 <= k < entries.len() ==> (#[trigger] entries[k]).name@ == metadata.records@[k].name@ && opt_text(entries[k].path) == opt_text(metadata.records@[k].path))
            && finding_views(r@) == metadata_only_findings(entries, snapshots@, workspace_root@),
{
    let entries = metadata.entries();
    let mut out: Vec<DoctorFinding> = Vec::new();
    let mut i: usize = 0;
    assert(entries@.take(0) =~= Seq::<WorkspaceMetadataEntry>::empty());
    assert(finding_views(out@) =~= Seq::<FindingView>::empty());
    while i < entries.len()
        invariant
            i <= entries@.len(),
            finding_views(out@) == metadata_only_findings(entries@.take(i as int), snapshots@, workspace_root@),
        decreases entries@.len() - i,
    {
        assert(entries@.take(i + 1).drop_last() =~= entries@.take(i as int));
        assert(entries@.take(i + 1).last() == entries@[i as int]);
        let ghost before = finding_views(out@);
        if !has_snapshot_named(snapshots, &entries[i].name) {
            out.push(metadata_only_finding(workspace_root, &entries[i]));
            assert(finding_views(out@) =~= before.push(finding_view(out@.last())));
        }
        i += 1;
    }
    assert(entries@.take(i as int) =~= entries@);
    out
}

/// The findings about a repository's workspaces, from their snapshots and
/// the tool's records: each snapshot's findings in order, then, when the
/// records can be trusted, the recorded workspaces that `jj` no longer
/// lists.
pub fn collect_workspace_findings(
    workspace_root: &str,
    snapshots: &[WorkspaceSnapshot],
    metadata: &WorkspaceMetadataStore,
    metadata_is_valid: bool,
) -> (r: Vec<DoctorFinding>)
    ensures
        !metadata_is_valid ==> finding_views(r@) == snapshots_findings(snapshots@, workspace_root@, false),
        metadata_is_valid ==> exists|entries: Seq<WorkspaceMetadataEntry>| entries.len() == metadata.records@.len() && (forall|k: int| 0 <= k < entries.len() ==> (#[trigger] entries[k]).name@ == metadata.records@[k].name@ && opt_text(entries[k].path) == opt_text(metadata.records@[k].path))
            && finding_views(r@) == snapshots_findings(snapshots@, workspace_root@, true) + metadata_only_findings(entries, snapshots@, workspace_root@),
{
    let mut findings: Vec<DoctorFinding> = Vec::new();
    let mut i: usize = 0;
    assert(snapshots@.take(0) =~= Seq::<WorkspaceSnapshot>::empty());
    assert(finding_views(findings@) =~= Seq::<FindingView>::empty());
    while i < snapshots.len()
        invariant
            i <= snapshots@.len(),
            finding_views(findings@) == snapshots_findings(snapshots@.take(i as int), workspace_root@, metadata_is_valid),
        decreases snapshots@.len() - i,
    {
        assert(snapshots@.take(i + 1).drop_last() =~= snapshots@.take(i as int));
        assert(snapshots@.take(i + 1).last() == snapshots@[i as int]);
        let more = snapshot_doctor_findings(workspace_root, &snapshots[i], metadata_is_valid);
        append_findings(&mut findings, more);
        i += 1;
    }
    assert(snapshots@.take(i as int) =~= snapshots@);
    if metadata_is_valid {
        let more = collect_metadata_only_findings(workspace_root, snapshots, metadata);
        append_findings(&mut findings, more);
    }
    findings
}

/// The finding about a directory that is no longer a registered workspace.
pub fn orphaned_workspace_finding(workspace_root: &str) -> (r: DoctorFinding)
    ensures
        finding_view(r) == (
            DoctorSeverity::Error,
            DoctorFindingCode::OrphanedWorkspace,
            (0int, Seq::<char>::empty()),
            "current directory is no longer a registered jj workspace"@,
            Some(workspace_root@),
            Some("cd into another workspace or recreate this workspace with jj"@),
        ),
{
    DoctorFinding {
        severity: DoctorSeverity::Error,
        code: DoctorFindingCode::OrphanedWorkspace,
        scope: DoctorScope::Repo,
        message: "current directory is no longer a registered jj workspace".to_owned(),
        path: Some(workspace_root.to_owned()),
        hint: Some("cd into another workspace or recreate this workspace with jj".to_owned()),
    }
}

/// The finding about a settings file that cannot be read.
pub fn invalid_repo_config_finding(path: &str, message: String) -> (r: DoctorFinding)
    ensures
        finding_view(r) == (
            DoctorSeverity::Error,
            DoctorFindingCode::InvalidRepoConfig,
            (0int, Seq::<char>::empty()),
            "invalid repo config in "@ + path@,
            Some(path@),
            Some(message@),
        ),
{
    let mut text = String::new();
    text.append("invalid repo config in ");
    text.append(path);
    DoctorFinding {
        severity: DoctorSeverity::Error,
        code: DoctorFindingCode::InvalidRepoConfig,
        scope: DoctorScope::Repo,
        message: text,
        path: Some(path.to_owned()),
        hint: Some(message),
    }
}

/// The finding about a records file that cannot be read.
pub fn invalid_workspace_metadata_finding(path: &str, message: String) -> (r: DoctorFinding)
    ensures
        finding_view(r) == (
            DoctorSeverity::Error,
            DoctorFindingCode::InvalidWorkspaceMetadata,
            (0int, Seq::<char>::empty()),
            "invalid workspace metadata in "@ + path@,
            Some(path@),
            Some(message@),
        ),
{
    let mut text = String::new();
    text.append("invalid workspace metadata in ");
    text.append(path);
    DoctorFinding {
        severity: DoctorSeverity::Error,
        code: DoctorFindingCode::InvalidWorkspaceMetadata,
        scope: DoctorScope::Repo,
        message: text,
        path: Some(path.to_owned()),
        hint: Some(message),
    }
}

/// What `doctor` makes of looking up the current workspace: a workspace
/// that `jj` no longer registers is a finding, any other error stops it.
pub fn current_workspace_for_doctor(workspace_root: &str, current: Result<WorkspaceName>) -> (r: Result<
    (Option<WorkspaceName>, Option<DoctorFinding>),
>)
    ensures
        match current {
            Ok(n) => r matches Ok((Some(w), None)) && w@ == n@,
            Err(Error::OrphanedWorkspace) => r matches Ok((None, Some(f))) && finding_view(f) == (
                DoctorSeverity::Error,
                DoctorFindingCode::OrphanedWorkspace,
                (0int, Seq::<char>::empty()),
                "current directory is no longer a registered jj workspace"@,
                Some(workspace_root@),
                Some("cd into another workspace or recreate this workspace with jj"@),
            ),
            Err(e) => r == Err::<(Option<WorkspaceName>, Option<DoctorFinding>), Error>(e),
        },
{
    match current {
        Ok(n) => Ok((Some(n), None)),
        Err(Error::OrphanedWorkspace) => Ok((None, Some(orphaned_workspace_finding(workspace_root)))),
        Err(e) => Err(e),
    }
}

/// What `doctor` makes of loading the repository settings: unreadable
/// settings are a finding, and the defaults stand in, marked invalid; any
/// other error stops it.
pub fn repo_config_for_doctor(loaded: Result<RepoConfig>) -> (r: Result<(RepoConfig, bool, Option<DoctorFinding>)>)
    ensures
        match loaded {
            Ok(c) => r matches Ok((x, true, None)) && x.workspace_template@ == c.workspace_template@,
            Err(Error::InvalidRepoConfig { path, message }) => r matches Ok((x, false, Some(f)))
                && x.workspace_template@ == "../{repo}.{workspace}"@ && finding_view(f) == (
                DoctorSeverity::Error,
                DoctorFindingCode::InvalidRepoConfig,
                (0int, Seq::<char>::empty()),
                "invalid repo config in "@ + path@,
                Some(path@),
                Some(message@),
            ),
            Err(e) => r == Err::<(RepoConfig, bool, Option<DoctorFinding>), Error>(e),
        },
{
    match loaded {
        Ok(c) => Ok((c, true, None)),
        Err(Error::InvalidRepoConfig { path, message }) => {
            let f = invalid_repo_config_finding(path.as_str(), message);
            Ok((RepoConfig { workspace_template: WorkspaceTemplate::default_template() }, false, Some(f)))
        },
        Err(e) => Err(e),
    }
}

/// What `doctor` makes of loading the workspace records: an unreadable
/// file is a finding, and no records stand in, marked invalid; any other
/// error stops it.
pub fn workspace_metadata_for_doctor(loaded: Result<WorkspaceMetadataStore>, metadata_path: &str) -> (r: Result<
    (WorkspaceMetadataStore, bool, Option<DoctorFinding>),
>)
    ensures
        match loaded {
            Ok(m) => r matches Ok((x, true, None)) && x == m,
            Err(Error::InvalidWorkspaceMetadata { path, message }) => r matches Ok((x, false, Some(f)))
                && x.records@.len() == 0 && x.path@ == metadata_path@ && finding_view(f) == (
                DoctorSeverity::Error,
                DoctorFindingCode::InvalidWorkspaceMetadata,
                (0int, Seq::<char>::empty()),
                "invalid workspace metadata in "@ + path@,
                Some(path@),
                Some(message@),
            ),
            Err(e) => r == Err::<(WorkspaceMetadataStore, bool, Option<DoctorFinding>), Error>(e),
        },
{
    match loaded {
        Ok(m) => Ok((m, true, None)),
        Err(Error::InvalidWorkspaceMetadata { path, message }) => {
            let f = invalid_workspace_metadata_finding(path.as_str(), message);
            Ok((WorkspaceMetadataStore::empty(metadata_path), false, Some(f)))
        },
        Err(e) => Err(e),
    }
}

/// The finding about a directory that is no longer a registered workspace.
pub open spec fn orphaned_view(workspace_root: Seq<char>) -> FindingView {
    (
        DoctorSeverity::Error,
        DoctorFindingCode::OrphanedWorkspace,
        (0int, Seq::<char>::empty()),
        "current directory is no longer a registered jj workspace"@,
        Some(workspace_root),
        Some("cd into another workspace or recreate this workspace with jj"@),
    )
}

/// The finding about a settings file that cannot be read.
pub open spec fn invalid_config_view(path: Seq<char>, message: Seq<char>) -> FindingView {
    (
        DoctorSeverity::Error,
        DoctorFindingCode::InvalidRepoConfig,
        (0int, Seq::<char>::empty()),
        "invalid repo config in "@ + path,
        Some(path),
        Some(message),
    )
}

/// The finding about a records file that cannot be read.
pub open spec fn invalid_metadata_view(path: Seq<char>, message: Seq<char>) -> FindingView {
    (
        DoctorSeverity::Error,
        DoctorFindingCode::InvalidWorkspaceMetadata,
        (0int, Seq::<char>::empty()),
        "invalid workspace metadata in "@ + path,
        Some(path),
        Some(message),
    )
}

/// The current workspace's name, where `jj` gave one.
pub open spec fn current_name_of(current: Result<WorkspaceName>) -> Option<Seq<char>> {
    match current {
        Ok(n) => Some(n@),
        Err(_) => None,
    }
}

/// The error that stops `doctor` before it looks at the workspaces: a
/// failed lookup of the current workspace (but for an orphaned directory),
/// no repository name, then a failed load of the settings or the records
/// (but for unreadable files); `None` where it goes on.
pub open spec fn doctor_start_error(
    repo_storage_path: Seq<char>,
    workspace_root: Seq<char>,
    current: Result<WorkspaceName>,
    config: Result<RepoConfig>,
    metadata: Result<WorkspaceMetadataStore>,
) -> Option<Error> {
    match current {
        Err(Error::OrphanedWorkspace) | Ok(_) => {
            if doctor_repo_name(repo_storage_path, workspace_root, current_name_of(current)) is None {
                Some(Error::RepoName)
            } else {
                match config {
                    Err(Error::InvalidRepoConfig { .. }) | Ok(_) => match metadata {
                        Err(Error::InvalidWorkspaceMetadata { .. }) | Ok(_) => None,
                        Err(e) => Some(e),
                    },
                    Err(e) => Some(e),
                }
            }
        },
        Err(e) => Some(e),
    }
}

/// The findings that `doctor` makes before it looks at the workspaces: an
/// orphaned directory, then unreadable settings, then unreadable records.
pub open spec fn doctor_start_findings(
    workspace_root: Seq<char>,
    current: Result<WorkspaceName>,
    config: Result<RepoConfig>,
    metadata: Result<WorkspaceMetadataStore>,
) -> Seq<FindingView> {
    (match current {
        Err(Error::OrphanedWorkspace) => seq![orphaned_view(workspace_root)],
        _ => Seq::empty(),
    }) + (match config {
        Err(Error::InvalidRepoConfig { path, message }) => seq![invalid_config_view(path@, message@)],
        _ => Seq::empty(),
    }) + (match metadata {
        Err(Error::InvalidWorkspaceMetadata { path, message }) => seq![invalid_metadata_view(path@, message@)],
        _ => Seq::empty(),
    })
}

/// What `doctor` knows of a repository before it looks at the workspaces.
pub struct DoctorStart {
    /// The current workspace, unless the directory is orphaned.
    pub current: Option<WorkspaceName>,
    /// The repository's name.
    pub repo_name: String,
    /// The settings, or the defaults where they cannot be read.
    pub config: RepoConfig,
    /// Whether the settings could be read.
    pub config_is_valid: bool,
    /// The records, or none where they cannot be read.
    pub metadata: WorkspaceMetadataStore,
    /// Whether the records could be read.
    pub metadata_is_valid: bool,
    /// The findings so far.
    pub findings: Vec<DoctorFinding>,
}

/// The first part of `doctor`, from the lookup of the current workspace and
/// the loads of the settings and the records: it stops on the errors of
/// `doctor_start_error`, and turns an orphaned directory and unreadable
/// files into findings.
pub fn start_doctor_report(
    repo_storage_path: &str,
    workspace_root: &str,
    metadata_path: &str,
    current: Result<WorkspaceName>,
    config: Result<RepoConfig>,
    metadata: Result<WorkspaceMetadataStore>,
) -> (r: Result<DoctorStart>)
    ensures
        match doctor_start_error(repo_storage_path@, workspace_root@, current, config, metadata) {
            Some(e) => r == Err::<DoctorStart, Error>(e),
            None => r matches Ok(s) && finding_views(s.findings@) == doctor_start_findings(
                workspace_root@,
                current,
                config,
                metadata,
            ) && match s.current {
                Some(w) => current_name_of(current) == Some(w@),
                None => current_name_of(current) is None,
            } && Some(s.repo_name@) == doctor_repo_name(
                repo_storage_path@,
                workspace_root@,
                current_name_of(current),
            ) && s.config_is_valid == config is Ok && s.config.workspace_template@ == match config {
                Ok(c) => c.workspace_template@,
                Err(_) => "../{repo}.{workspace}"@,
            } && s.metadata_is_valid == metadata is Ok && match metadata {
                Ok(m) => s.metadata == m,
                Err(_) => s.metadata.records@.len() == 0 && s.metadata.path@ == metadata_path@,
            },
        },
{
    let ghost current0 = current;
    let ghost config0 = config;
    let ghost metadata0 = metadata;
    let (current, current_finding) = match current_workspace_for_doctor(workspace_root, current) {
        Ok(x) => x,
        Err(e) => return Err(e),
    };
    let repo_name = match derive_repo_name_for_doctor(repo_storage_path, workspace_root, current.as_ref()) {
        Ok(n) => n,
        Err(e) => return Err(e),
    };
    let (config, config_is_valid, config_finding) = match repo_config_for_doctor(config) {
        Ok(x) => x,
        Err(e) => return Err(e),
    };
    let (metadata, metadata_is_valid, metadata_finding) = match workspace_metadata_for_doctor(
        metadata,
        metadata_path,
    ) {
        Ok(x) => x,
        Err(e) => return Err(e),
    };
    let mut findings: Vec<DoctorFinding> = Vec::new();
    if let Some(f) = current_finding {
        findings.push(f);
    }
    if let Some(f) = config_finding {
        findings.push(f);
    }
    if let Some(f) = metadata_finding {
        findings.push(f);
    }
    proof {
        assert(finding_views(findings@) =~= doctor_start_findings(workspace_root@, current0, config0, metadata0));
    }
    Ok(DoctorStart { current, repo_name, config, config_is_valid, metadata, metadata_is_valid, findings })
}

/// The `doctor` report of a repository: the findings so far, then those
/// about each workspace, then the shell integration's, ordered by severity,
/// scope, code and message, with findings that compare equal kept in that
/// order.
pub fn build_doctor_report(
    start_findings: Vec<DoctorFinding>,
    workspace_findings: Vec<DoctorFinding>,
    shell_findings: Vec<DoctorFinding>,
) -> (r: DoctorReport)
    ensures
        findings_sorted(r.findings@),
        r.findings@.to_multiset() == (start_findings@ + workspace_findings@ + shell_findings@).to_multiset(),
        ties_in_order(start_findings@ + workspace_findings@ + shell_findings@, r.findings@),
{
    let mut findings = start_findings;
    append_findings(&mut findings, workspace_findings);
    append_findings(&mut findings, shell_findings);
    report_of(findings)
}

} // verus!
