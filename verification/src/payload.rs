//! The values that the JSON output of `list` and `doctor` carries, as plain
//! data; writing them as JSON is left to the caller.

use vstd::prelude::*;

use crate::doctor::{count_severity, DoctorFinding, DoctorReport, DoctorSeverity, DoctorSummary};
use crate::repo::metadata::{format_rfc3339_text, rfc3339_text};
use crate::repo::paths::{display_path, display_path_for_list};
use crate::table::{age_from_elapsed, diff_plain_text, format_age_from_elapsed, render_diff_plain};
use crate::types::{elapsed_seconds, elapsed_whole_seconds, Timestamp, WorkspaceListStatus, WorkspaceSnapshot};

verus! {

/// Where a workspace is, in the list output.
#[derive(Debug, PartialEq, Eq)]
pub struct WorkspacePathJson {
    /// The path shown: `.` for the current workspace, else relative to the
    /// workspace root where it can be.
    pub display: String,
    /// The path itself.
    pub absolute: String,
    /// The path state's label.
    pub state: String,
    /// The path source's label.
    pub source: String,
}

/// A workspace's health, in the list output.
#[derive(Debug, PartialEq, Eq)]
pub struct WorkspaceHealthJson {
    /// Status labels.
    pub statuses: Vec<String>,
    /// Metadata status label.
    pub metadata_status: String,
}

/// A workspace's freshness, in the list output.
#[derive(Debug, PartialEq, Eq)]
pub struct WorkspaceFreshnessJson {
    /// Freshness label.
    pub status: String,
    /// Why it is not current, if it is not.
    pub reason: Option<String>,
}

/// A workspace's age, in the list output.
#[derive(Debug, PartialEq, Eq)]
pub struct WorkspaceAgeJson {
    /// Creation time, RFC 3339, when known and writable.
    pub created_at: Option<String>,
    /// Compact age, when known.
    pub display: Option<String>,
}

/// A workspace's diff statistics, in the list output.
#[derive(Debug, PartialEq, Eq)]
pub struct WorkspaceDiffJson {
    /// Diff status label.
    pub status: String,
    /// Changed files.
    pub files_changed: Option<u32>,
    /// Inserted lines.
    pub insertions: Option<u32>,
    /// Deleted lines.
    pub deletions: Option<u32>,
    /// Compact text.
    pub display: String,
}

/// One workspace in the list output.
#[derive(Debug, PartialEq, Eq)]
pub struct WorkspaceJsonEntry {
    /// Name.
    pub name: String,
    /// Whether it is the current workspace.
    pub is_current: bool,
    /// Short commit identifier.
    pub commit_id: String,
    /// First line of the description.
    pub message: String,
    /// Where it is.
    pub path: WorkspacePathJson,
    /// Its health.
    pub health: WorkspaceHealthJson,
    /// Its freshness.
    pub freshness: WorkspaceFreshnessJson,
    /// Its age.
    pub age: WorkspaceAgeJson,
    /// Its diff statistics.
    pub diff: WorkspaceDiffJson,
}

/// The labels of statuses.
pub open spec fn status_labels(s: Seq<WorkspaceListStatus>) -> Seq<Seq<char>> {
    s.map_values(|x: WorkspaceListStatus| x.spec_label())
}

/// Whether `e` is the list output for a snapshot, seen from `root` at `now`.
pub open spec fn entry_for(e: WorkspaceJsonEntry, s: WorkspaceSnapshot, root: Seq<char>, now: Timestamp) -> bool {
    &&& e.name@ == s.name@
    &&& e.is_current == s.is_current
    &&& e.commit_id@ == s.commit_id@
    &&& e.message@ == s.message@
    &&& e.path.display@ == if s.is_current {
        "."@
    } else {
        display_path(s.path.path@, root)
    }
    &&& e.path.absolute@ == s.path.path@
    &&& e.path.state@ == s.path.state.spec_label()
    &&& e.path.source@ == s.path.source.spec_label()
    &&& e.health.statuses@.map_values(|x: String| x@) == status_labels(s.health.statuses@)
    &&& e.health.metadata_status@ == s.health.metadata_status.spec_label()
    &&& e.freshness.status@ == s.freshness.status.spec_label()
    &&& crate::doctor::opt_text(e.freshness.reason) == crate::doctor::opt_text(s.freshness.reason)
    &&& crate::doctor::opt_text(e.age.created_at) == match s.age.created_at {
        Some(c) => rfc3339_text(c),
        None => None,
    }
    &&& crate::doctor::opt_text(e.age.display) == match s.age.created_at {
        Some(c) => Some(age_from_elapsed(elapsed_seconds(c, now))),
        None => None,
    }
    &&& e.diff.status@ == s.diff.status.spec_label()
    &&& e.diff.files_changed == s.diff.files_changed
    &&& e.diff.insertions == s.diff.insertions
    &&& e.diff.deletions == s.diff.deletions
    &&& e.diff.display@ == diff_plain_text(s.diff)
}

/// The list output for one snapshot, seen from `workspace_root` at `now`
/// (Unix seconds).
pub fn workspace_json_entry(workspace_root: &str, snapshot: &WorkspaceSnapshot, now: Timestamp) -> (r: WorkspaceJsonEntry)
    ensures
        entry_for(r, *snapshot, workspace_root@, now),
{
    let display = if snapshot.is_current {
        ".".to_owned()
    } else {
        display_path_for_list(workspace_root, snapshot.path.path.as_str())
    };
    let mut statuses: Vec<String> = Vec::new();
    let mut i: usize = 0;
    while i < snapshot.health.statuses.len()
        invariant
            i <= snapshot.health.statuses@.len(),
            statuses@.map_values(|x: String| x@) == status_labels(snapshot.health.statuses@.take(i as int)),
        decreases snapshot.health.statuses@.len() - i,
    {
        let ghost before = statuses@.map_values(|x: String| x@);
        statuses.push(snapshot.health.statuses[i].label().to_owned());
        assert(status_labels(snapshot.health.statuses@.take(i + 1)) =~= status_labels(
            snapshot.health.statuses@.take(i as int),
        ).push(snapshot.health.statuses@[i as int].spec_label()));
        assert(statuses@.map_values(|x: String| x@) =~= before.push(statuses@.last()@));
        i += 1;
    }
    assert(snapshot.health.statuses@.take(i as int) =~= snapshot.health.statuses@);
    let created_at = match snapshot.age.created_at {
        Some(c) => format_rfc3339_text(c),
        None => None,
    };
    let age_display = match snapshot.age.created_at {
        Some(c) => Some(format_age_from_elapsed(elapsed_whole_seconds(c, now))),
        None => None,
    };
    WorkspaceJsonEntry {
        name: snapshot.name.as_str().to_owned(),
        is_current: snapshot.is_current,
        commit_id: snapshot.commit_id.clone(),
        message: snapshot.message.clone(),
        path: WorkspacePathJson {
            display,
            absolute: snapshot.path.path.clone(),
            state: snapshot.path.state.label().to_owned(),
            source: snapshot.path.source.label().to_owned(),
        },
        health: WorkspaceHealthJson {
            statuses,
            metadata_status: snapshot.health.metadata_status.label().to_owned(),
        },
        freshness: WorkspaceFreshnessJson {
            status: snapshot.freshness.status.label().to_owned(),
            reason: crate::doctor::clone_opt_string(&snapshot.freshness.reason),
        },
        age: WorkspaceAgeJson { created_at, display: age_display },
        diff: WorkspaceDiffJson {
            status: snapshot.diff.status.label().to_owned(),
            files_changed: snapshot.diff.files_changed,
            insertions: snapshot.diff.insertions,
            deletions: snapshot.diff.deletions,
            display: render_diff_plain(&snapshot.diff),
        },
    }
}

/// The list output for all snapshots, in order.
pub fn workspace_list_payload(workspace_root: &str, snapshots: &[WorkspaceSnapshot], now: Timestamp) -> (r: Vec<WorkspaceJsonEntry>)
    ensures
        r@.len() == snapshots@.len(),
        forall|k: int| 0 <= k < r@.len() ==> entry_for(#[trigger] r@[k], snapshots@[k], workspace_root@, now),
{
    let mut out: Vec<WorkspaceJsonEntry> = Vec::new();
    let mut i: usize = 0;
    while i < snapshots.len()
        invariant
            i <= snapshots@.len(),
            out@.len() == i,
            forall|k: int| 0 <= k < i ==> entry_for(#[trigger] out@[k], snapshots@[k], workspace_root@, now),
        decreases snapshots@.len() - i,
    {
        out.push(workspace_json_entry(workspace_root, &snapshots[i], now));
        i += 1;
    }
    out
}

/// The doctor output: the counts by severity and the findings.
#[derive(Debug)]
pub struct DoctorJsonOutput {
    /// Counts by severity.
    pub summary: DoctorSummary,
    /// The findings, in report order.
    pub findings: Vec<DoctorFinding>,
}

/// The doctor output of a report.
pub fn doctor_payload(report: &DoctorReport) -> (r: DoctorJsonOutput)
    ensures
        r.summary.errors == count_severity(report.findings@, DoctorSeverity::Error),
        r.summary.warnings == count_severity(report.findings@, DoctorSeverity::Warning),
        r.summary.info == count_severity(report.findings@, DoctorSeverity::Info),
        r.findings@ == report.findings@,
{
    let summary = report.summary();
    let mut findings: Vec<DoctorFinding> = Vec::new();
    let mut i: usize = 0;
    while i < report.findings.len()
        invariant
            i <= report.findings@.len(),
            findings@ == report.findings@.take(i as int),
        decreases report.findings@.len() - i,
    {
        findings.push(report.findings[i].clone());
        i += 1;
        assert(findings@ =~= report.findings@.take(i as int));
    }
    assert(report.findings@.take(i as int) =~= report.findings@);
    DoctorJsonOutput { summary, findings }
}

} // verus!
