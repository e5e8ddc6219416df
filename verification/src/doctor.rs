//! Typed diagnostics produced by `navi doctor`.

use vstd::prelude::*;
use vstd::seq_lib::*;

verus! {

/// Severity level for a doctor finding, most severe first.
#[derive(Clone, Copy, Debug, PartialEq, Eq, Structural)]
pub enum DoctorSeverity {
    /// Repo state is unhealthy and needs intervention.
    Error,
    /// Repo state is degraded but still usable.
    Warning,
    /// Repo state is notable but not unhealthy.
    Info,
}

impl DoctorSeverity {
    /// Position in the severity order; lower is more severe.
    pub open spec fn rank(self) -> int {
        match self {
            DoctorSeverity::Error => 0,
            DoctorSeverity::Warning => 1,
            DoctorSeverity::Info => 2,
        }
    }

    /// The lowercase label.
    pub open spec fn spec_label(self) -> Seq<char> {
        match self {
            DoctorSeverity::Error => "error"@,
            DoctorSeverity::Warning => "warning"@,
            DoctorSeverity::Info => "info"@,
        }
    }

    /// Return the lowercase label used in human-facing output.
    pub fn label(self) -> (r: &'static str)
        ensures
            r@ == self.spec_label(),
    {
        match self {
            DoctorSeverity::Error => "error",
            DoctorSeverity::Warning => "warning",
            DoctorSeverity::Info => "info",
        }
    }

    /// Position in the severity order; lower is more severe.
    pub fn rank_of(self) -> (r: u8)
        ensures
            r == self.rank(),
    {
        match self {
            DoctorSeverity::Error => 0,
            DoctorSeverity::Warning => 1,
            DoctorSeverity::Info => 2,
        }
    }
}

/// Stable code for a doctor finding.
#[derive(Clone, Copy, Debug, PartialEq, Eq, Structural)]
pub enum DoctorFindingCode {
    /// Current directory still has `.jj` but no live workspace registration.
    OrphanedWorkspace,
    /// Repo-scoped config could not be parsed or validated.
    InvalidRepoConfig,
    /// Repo-scoped metadata could not be parsed or validated.
    InvalidWorkspaceMetadata,
    /// Workspace path fell back to validated non-JJ data.
    WorkspacePathInferred,
    /// Workspace directory is missing.
    WorkspaceDirectoryMissing,
    /// Workspace directory exists but no longer validates.
    WorkspaceDirectoryStale,
    /// Metadata mentions a workspace that JJ no longer knows.
    MetadataOnlyWorkspace,
    /// JJ knows a workspace that metadata does not track.
    JjOnlyWorkspace,
    /// Shell could not be detected from `$SHELL`.
    ShellDetectionFailed,
    /// `$SHELL` points to an unsupported shell.
    UnsupportedShell,
    /// `$HOME` is missing, so shell rc checks cannot run.
    HomeDirectoryMissing,
    /// Shell rc file does not exist yet.
    ShellRcMissing,
    /// Shell rc file managed block markers are invalid.
    InvalidShellRcFile,
    /// Shell integration block is not installed.
    ShellIntegrationMissing,
}

impl DoctorFindingCode {
    /// Position in declaration order.
    pub open spec fn rank(self) -> int {
        match self {
            DoctorFindingCode::OrphanedWorkspace => 0,
            DoctorFindingCode::InvalidRepoConfig => 1,
            DoctorFindingCode::InvalidWorkspaceMetadata => 2,
            DoctorFindingCode::WorkspacePathInferred => 3,
            DoctorFindingCode::WorkspaceDirectoryMissing => 4,
            DoctorFindingCode::WorkspaceDirectoryStale => 5,
            DoctorFindingCode::MetadataOnlyWorkspace => 6,
            DoctorFindingCode::JjOnlyWorkspace => 7,
            DoctorFindingCode::ShellDetectionFailed => 8,
            DoctorFindingCode::UnsupportedShell => 9,
            DoctorFindingCode::HomeDirectoryMissing => 10,
            DoctorFindingCode::ShellRcMissing => 11,
            DoctorFindingCode::InvalidShellRcFile => 12,
            DoctorFindingCode::ShellIntegrationMissing => 13,
        }
    }

    /// The `snake_case` name used in JSON output.
    pub open spec fn spec_label(self) -> Seq<char> {
        match self {
            DoctorFindingCode::OrphanedWorkspace => "orphaned_workspace"@,
            DoctorFindingCode::InvalidRepoConfig => "invalid_repo_config"@,
            DoctorFindingCode::InvalidWorkspaceMetadata => "invalid_workspace_metadata"@,
            DoctorFindingCode::WorkspacePathInferred => "workspace_path_inferred"@,
            DoctorFindingCode::WorkspaceDirectoryMissing => "workspace_directory_missing"@,
            DoctorFindingCode::WorkspaceDirectoryStale => "workspace_directory_stale"@,
            DoctorFindingCode::MetadataOnlyWorkspace => "metadata_only_workspace"@,
            DoctorFindingCode::JjOnlyWorkspace => "jj_only_workspace"@,
            DoctorFindingCode::ShellDetectionFailed => "shell_detection_failed"@,
            DoctorFindingCode::UnsupportedShell => "unsupported_shell"@,
            DoctorFindingCode::HomeDirectoryMissing => "home_directory_missing"@,
            DoctorFindingCode::ShellRcMissing => "shell_rc_missing"@,
            DoctorFindingCode::InvalidShellRcFile => "invalid_shell_rc_file"@,
            DoctorFindingCode::ShellIntegrationMissing => "shell_integration_missing"@,
        }
    }

    /// Position in declaration order.
    pub fn rank_of(self) -> (r: u8)
        ensures
            r == self.rank(),
    {
        match self {
            DoctorFindingCode::OrphanedWorkspace => 0,
            DoctorFindingCode::InvalidRepoConfig => 1,
            DoctorFindingCode::InvalidWorkspaceMetadata => 2,
            DoctorFindingCode::WorkspacePathInferred => 3,
            DoctorFindingCode::WorkspaceDirectoryMissing => 4,
            DoctorFindingCode::WorkspaceDirectoryStale => 5,
            DoctorFindingCode::MetadataOnlyWorkspace => 6,
            DoctorFindingCode::JjOnlyWorkspace => 7,
            DoctorFindingCode::ShellDetectionFailed => 8,
            DoctorFindingCode::UnsupportedShell => 9,
            DoctorFindingCode::HomeDirectoryMissing => 10,
            DoctorFindingCode::ShellRcMissing => 11,
            DoctorFindingCode::InvalidShellRcFile => 12,
            DoctorFindingCode::ShellIntegrationMissing => 13,
        }
    }

    /// Return the `snake_case` name used in JSON output.
    pub fn label(self) -> (r: &'static str)
        ensures
            r@ == self.spec_label(),
    {
        match self {
            DoctorFindingCode::OrphanedWorkspace => "orphaned_workspace",
            DoctorFindingCode::InvalidRepoConfig => "invalid_repo_config",
            DoctorFindingCode::InvalidWorkspaceMetadata => "invalid_workspace_metadata",
            DoctorFindingCode::WorkspacePathInferred => "workspace_path_inferred",
            DoctorFindingCode::WorkspaceDirectoryMissing => "workspace_directory_missing",
            DoctorFindingCode::WorkspaceDirectoryStale => "workspace_directory_stale",
            DoctorFindingCode::MetadataOnlyWorkspace => "metadata_only_workspace",
            DoctorFindingCode::JjOnlyWorkspace => "jj_only_workspace",
            DoctorFindingCode::ShellDetectionFailed => "shell_detection_failed",
            DoctorFindingCode::UnsupportedShell => "unsupported_shell",
            DoctorFindingCode::HomeDirectoryMissing => "home_directory_missing",
            DoctorFindingCode::ShellRcMissing => "shell_rc_missing",
            DoctorFindingCode::InvalidShellRcFile => "invalid_shell_rc_file",
            DoctorFindingCode::ShellIntegrationMissing => "shell_integration_missing",
        }
    }
}

/// Diagnostic scope for a doctor finding.
#[derive(Debug, PartialEq, Eq)]
pub enum DoctorScope {
    /// Repo-wide finding.
    Repo,
    /// Workspace-scoped finding.
    Workspace {
        /// Affected workspace name.
        workspace: String,
    },
    /// Shell integration finding.
    Shell,
}

impl DoctorScope {
    /// Position in declaration order.
    pub open spec fn rank(self) -> int {
        match self {
            DoctorScope::Repo => 0,
            DoctorScope::Workspace { .. } => 1,
            DoctorScope::Shell => 2,
        }
    }
}

impl Clone for DoctorScope {
    fn clone(&self) -> (r: Self)
        ensures
            r == *self,
    {
        match self {
            DoctorScope::Repo => DoctorScope::Repo,
            DoctorScope::Workspace { workspace } => DoctorScope::Workspace {
                workspace: workspace.clone(),
            },
            DoctorScope::Shell => DoctorScope::Shell,
        }
    }
}

/// One doctor finding.
#[derive(Debug, PartialEq, Eq)]
pub struct DoctorFinding {
    /// Severity of the finding.
    pub severity: DoctorSeverity,
    /// Stable finding code.
    pub code: DoctorFindingCode,
    /// Finding scope.
    pub scope: DoctorScope,
    /// Human-readable message.
    pub message: String,
    /// Optional filesystem path rendered for humans and JSON consumers.
    pub path: Option<String>,
    /// Optional remediation hint.
    pub hint: Option<String>,
}

/// Copy an optional string.
pub fn clone_opt_string(s: &Option<String>) -> (r: Option<String>)
    ensures
        r == *s,
{
    match s {
        Some(v) => Some(v.clone()),
        None => None,
    }
}

impl Clone for DoctorFinding {
    fn clone(&self) -> (r: Self)
        ensures
            r == *self,
    {
        DoctorFinding {
            severity: self.severity,
            code: self.code,
            scope: self.scope.clone(),
            message: self.message.clone(),
            path: clone_opt_string(&self.path),
            hint: clone_opt_string(&self.hint),
        }
    }
}

/// Doctor summary counters.
#[derive(Clone, Copy, Debug, Default, PartialEq, Eq, Structural)]
pub struct DoctorSummary {
    /// Error count.
    pub errors: usize,
    /// Warning count.
    pub warnings: usize,
    /// Info count.
    pub info: usize,
}

/// Lexicographic comparison of character sequences by code point:
/// negative, zero or positive.
pub open spec fn chars_order(a: Seq<char>, b: Seq<char>) -> int
    decreases a.len(),
{
    if a.len() == 0 {
        if b.len() == 0 {
            0
        } else {
            -1
        }
    } else if b.len() == 0 {
        1
    } else if (a[0] as int) < (b[0] as int) {
        -1
    } else if (a[0] as int) > (b[0] as int) {
        1
    } else {
        chars_order(a.drop_first(), b.drop_first())
    }
}

/// `chars_order` is a total order.
pub proof fn lemma_chars_order(a: Seq<char>, b: Seq<char>, c: Seq<char>)
    ensures
        -1 <= chars_order(a, b) <= 1,
        chars_order(a, b) == -chars_order(b, a),
        chars_order(a, b) == 0 <==> a == b,
        chars_order(a, b) <= 0 && chars_order(b, c) <= 0 ==> chars_order(a, c) <= 0,
        chars_order(a, b) < 0 && chars_order(b, c) <= 0 ==> chars_order(a, c) < 0,
    decreases a.len(),
{
    if a.len() > 0 && b.len() > 0 && c.len() > 0 {
        lemma_chars_order(a.drop_first(), b.drop_first(), c.drop_first());
        if a[0] == b[0] && a.drop_first() == b.drop_first() {
            assert(a =~= seq![a[0]] + a.drop_first());
            assert(b =~= seq![b[0]] + b.drop_first());
        }
        if (a[0] as int) == (b[0] as int) {
            assert(a[0] == b[0]);
        }
        if (b[0] as int) == (c[0] as int) {
            assert(b[0] == c[0]);
        }
    } else if a.len() > 0 && b.len() > 0 {
        lemma_chars_order(a.drop_first(), b.drop_first(), a.drop_first());
        if a[0] == b[0] && a.drop_first() == b.drop_first() {
            assert(a =~= seq![a[0]] + a.drop_first());
            assert(b =~= seq![b[0]] + b.drop_first());
        }
        if (a[0] as int) == (b[0] as int) {
            assert(a[0] == b[0]);
        }
    } else if a.len() == 0 && b.len() == 0 {
        assert(a =~= b);
    }
}

/// Compare two strings as `String`'s `Ord` does.
pub fn compare_strings(a: &str, b: &str) -> (r: i8)
    ensures
        r == chars_order(a@, b@),
{
    let av = crate::text::chars_of(a);
    let bv = crate::text::chars_of(b);
    let mut i: usize = 0;
    assert(av@.skip(0) =~= av@);
    assert(bv@.skip(0) =~= bv@);
    while i < av.len() && i < bv.len()
        invariant
            i <= av.len(),
            i <= bv.len(),
            av@ == a@,
            bv@ == b@,
            chars_order(a@, b@) == chars_order(av@.skip(i as int), bv@.skip(i as int)),
        decreases av.len() - i,
    {
        if av[i] < bv[i] {
            return -1;
        }
        if av[i] > bv[i] {
            return 1;
        }
        assert(av@.skip(i as int).drop_first() =~= av@.skip(i + 1));
        assert(bv@.skip(i as int).drop_first() =~= bv@.skip(i + 1));
        i += 1;
    }
    if i == av.len() && i == bv.len() {
        0
    } else if i == av.len() {
        -1
    } else {
        1
    }
}

/// Comparison of two scopes in declaration order, then by workspace name.
pub open spec fn scope_order(a: DoctorScope, b: DoctorScope) -> int {
    if a.rank() < b.rank() {
        -1
    } else if a.rank() > b.rank() {
        1
    } else {
        match (a, b) {
            (DoctorScope::Workspace { workspace: x }, DoctorScope::Workspace { workspace: y }) => chars_order(x@, y@),
            _ => 0,
        }
    }
}

/// The order findings are reported in: severity, scope, code, message.
pub open spec fn finding_order(a: DoctorFinding, b: DoctorFinding) -> int {
    if a.severity.rank() != b.severity.rank() {
        if a.severity.rank() < b.severity.rank() {
            -1
        } else {
            1
        }
    } else if scope_order(a.scope, b.scope) != 0 {
        scope_order(a.scope, b.scope)
    } else if a.code.rank() != b.code.rank() {
        if a.code.rank() < b.code.rank() {
            -1
        } else {
            1
        }
    } else {
        chars_order(a.message@, b.message@)
    }
}

/// `finding_order` is antisymmetric and transitive.
pub proof fn lemma_finding_order(a: DoctorFinding, b: DoctorFinding, c: DoctorFinding)
    ensures
        finding_order(a, b) == -finding_order(b, a),
        finding_order(a, b) <= 0 && finding_order(b, c) <= 0 ==> finding_order(a, c) <= 0,
{
    lemma_chars_order(a.message@, b.message@, c.message@);
    lemma_chars_order(b.message@, a.message@, c.message@);
    match (a.scope, b.scope, c.scope) {
        (
            DoctorScope::Workspace { workspace: x },
            DoctorScope::Workspace { workspace: y },
            DoctorScope::Workspace { workspace: z },
        ) => {
            lemma_chars_order(x@, y@, z@);
            lemma_chars_order(y@, x@, z@);
        },
        (DoctorScope::Workspace { workspace: x }, DoctorScope::Workspace { workspace: y }, _) => {
            lemma_chars_order(x@, y@, x@);
        },
        (_, DoctorScope::Workspace { workspace: y }, DoctorScope::Workspace { workspace: z }) => {
            lemma_chars_order(y@, z@, y@);
        },
        (DoctorScope::Workspace { workspace: x }, _, DoctorScope::Workspace { workspace: z }) => {
            lemma_chars_order(x@, z@, x@);
        },
        _ => {},
    }
}

/// Compare two scopes.
fn compare_scopes(a: &DoctorScope, b: &DoctorScope) -> (r: i8)
    ensures
        r == scope_order(*a, *b),
{
    let ra: u8 = match a {
        DoctorScope::Repo => 0,
        DoctorScope::Workspace { .. } => 1,
        DoctorScope::Shell => 2,
    };
    let rb: u8 = match b {
        DoctorScope::Repo => 0,
        DoctorScope::Workspace { .. } => 1,
        DoctorScope::Shell => 2,
    };
    if ra < rb {
        -1
    } else if ra > rb {
        1
    } else {
        match (a, b) {
            (DoctorScope::Workspace { workspace: x }, DoctorScope::Workspace { workspace: y }) => {
                compare_strings(x.as_str(), y.as_str())
            },
            _ => 0,
        }
    }
}

/// Compare two findings in report order.
pub fn compare_findings(a: &DoctorFinding, b: &DoctorFinding) -> (r: i8)
    ensures
        r == finding_order(*a, *b),
{
    let sa = a.severity.rank_of();
    let sb = b.severity.rank_of();
    if sa != sb {
        return if sa < sb {
            -1
        } else {
            1
        };
    }
    let sc = compare_scopes(&a.scope, &b.scope);
    if sc != 0 {
        return sc;
    }
    let ca = a.code.rank_of();
    let cb = b.code.rank_of();
    if ca != cb {
        return if ca < cb {
            -1
        } else {
            1
        };
    }
    compare_strings(a.message.as_str(), b.message.as_str())
}

/// Findings in report order.
pub open spec fn findings_sorted(s: Seq<DoctorFinding>) -> bool {
    forall|i: int, j: int| 0 <= i < j < s.len() ==> finding_order(#[trigger] s[i], #[trigger] s[j]) <= 0
}

/// Number of findings with the given severity.
pub open spec fn count_severity(s: Seq<DoctorFinding>, severity: DoctorSeverity) -> nat
    decreases s.len(),
{
    if s.len() == 0 {
        0
    } else {
        count_severity(s.drop_last(), severity) + if s.last().severity == severity {
            1nat
        } else {
            0nat
        }
    }
}

/// Full doctor report.
#[derive(Debug, Default, PartialEq, Eq)]
pub struct DoctorReport {
    /// Ordered findings.
    pub findings: Vec<DoctorFinding>,
}

/// The findings that compare equal to `x`.
pub open spec fn ties_with(x: DoctorFinding) -> spec_fn(DoctorFinding) -> bool {
    |y: DoctorFinding| finding_order(y, x) == 0
}

/// `b` keeps the order that `a` gives to findings that compare equal: for
/// every finding, those that tie with it come in the same order in both.
pub open spec fn ties_in_order(a: Seq<DoctorFinding>, b: Seq<DoctorFinding>) -> bool {
    forall|x: DoctorFinding| #[trigger] b.filter(ties_with(x)) == a.filter(ties_with(x))
}

/// Insert `x` into sorted `out` after every finding that does not come after it.
fn insert_sorted(out: &mut Vec<DoctorFinding>, x: DoctorFinding)
    requires
        findings_sorted(old(out)@),
    ensures
        findings_sorted(final(out)@),
        final(out)@.to_multiset() == old(out)@.to_multiset().insert(x),
        forall|z: DoctorFinding| #[trigger] final(out)@.filter(ties_with(z)) == old(out)@.push(x).filter(
            ties_with(z),
        ),
{
    let mut j = out.len();
    while j > 0 && compare_findings(&out[j - 1], &x) > 0
        invariant
            j <= out.len(),
            forall|k: int| j <= k < out.len() ==> finding_order(#[trigger] out@[k], x) > 0,
        decreases j,
    {
        j -= 1;
    }
    let ghost before = out@;
    proof {
        assert forall|k: int| 0 <= k < j implies finding_order(#[trigger] before[k], x) <= 0 by {
            lemma_finding_order(before[k], before[j - 1], x);
        }
        assert forall|k: int| j <= k < before.len() implies finding_order(x, #[trigger] before[k]) <= 0 by {
            lemma_finding_order(before[k], x, x);
        }
        to_multiset_insert(before, j as int, x);
    }
    out.insert(j, x);
    assert(out@ == before.insert(j as int, x));
    assert forall|a: int, b: int| 0 <= a < b < out@.len() implies finding_order(
        #[trigger] out@[a],
        #[trigger] out@[b],
    ) <= 0 by {
        if a < j && b > j {
            assert(out@[a] == before[a]);
            assert(out@[b] == before[b - 1]);
        } else if b < j {
        } else if a > j {
            assert(out@[a] == before[a - 1]);
            assert(out@[b] == before[b - 1]);
        }
    }
    proof {
        assert forall|z: DoctorFinding| #[trigger] out@.filter(ties_with(z)) == before.push(x).filter(
            ties_with(z),
        ) by {
            lemma_insert_keeps_ties(before, x, j as int, z);
        }
    }
}

/// Inserting `x` where every later finding comes after it keeps ties in the
/// order of appending it.
proof fn lemma_insert_keeps_ties(before: Seq<DoctorFinding>, x: DoctorFinding, j: int, z: DoctorFinding)
    requires
        0 <= j <= before.len(),
        forall|k: int| j <= k < before.len() ==> finding_order(#[trigger] before[k], x) > 0,
    ensures
        before.insert(j, x).filter(ties_with(z)) == before.push(x).filter(ties_with(z)),
{
    let p = ties_with(z);
    let head = before.take(j);
    let tail = before.skip(j);
    assert(before =~= head + tail);
    assert(before.insert(j, x) =~= head + (seq![x] + tail));
    assert(seq![x] =~= Seq::<DoctorFinding>::empty().push(x));
    Seq::filter_distributes_over_add(head, seq![x] + tail, p);
    Seq::filter_distributes_over_add(seq![x], tail, p);
    Seq::filter_distributes_over_add(head, tail, p);
    Seq::<DoctorFinding>::empty().lemma_filter_push(x, p);
    before.lemma_filter_push(x, p);
    reveal(Seq::filter);
    assert(Seq::<DoctorFinding>::empty().filter(p) =~= Seq::<DoctorFinding>::empty());
    if finding_order(x, z) == 0 {
        assert forall|k: int| 0 <= k < tail.len() implies !p(#[trigger] tail[k]) by {
            assert(tail[k] == before[j + k]);
            if finding_order(tail[k], z) == 0 {
                lemma_finding_order(tail[k], z, x);
                lemma_finding_order(x, z, z);
            }
        }
        tail.lemma_all_neg_filter_empty(p);
        assert(tail.filter(p) =~= Seq::<DoctorFinding>::empty());
        assert((head + tail).filter(p) =~= head.filter(p));
    } else {
        assert(seq![x].filter(p) =~= Seq::<DoctorFinding>::empty());
    }
}

/// A finding of `t` occurs in `s` where both have the same findings tying
/// with it, in the same order; gives its position in `s`.
proof fn lemma_member_of_filter(s: Seq<DoctorFinding>, t: Seq<DoctorFinding>, y: DoctorFinding, j: int) -> (k: int)
    requires
        0 <= j < t.len(),
        t[j] == y,
        s.filter(ties_with(y)) == t.filter(ties_with(y)),
    ensures
        0 <= k < s.len(),
        s[k] == y,
{
    lemma_finding_order(y, y, y);
    t.lemma_filter_contains(ties_with(y), j);
    s.lemma_filter_contains_rev(ties_with(y), y);
    choose|k: int| 0 <= k < s.len() && s[k] == y
}

/// Two sorted orders of findings that keep ties in the same order are the
/// same.
proof fn lemma_sorted_ties_unique(a: Seq<DoctorFinding>, b: Seq<DoctorFinding>)
    requires
        findings_sorted(a),
        findings_sorted(b),
        ties_in_order(a, b),
    ensures
        a == b,
    decreases a.len() + b.len(),
{
    reveal(Seq::filter);
    if a.len() == 0 || b.len() == 0 {
        if a.len() > 0 {
            assert(b.filter(ties_with(a[0])) == a.filter(ties_with(a[0])));
            let k = lemma_member_of_filter(b, a, a[0], 0);
        } else if b.len() > 0 {
            assert(b.filter(ties_with(b[0])) == a.filter(ties_with(b[0])));
            let k = lemma_member_of_filter(a, b, b[0], 0);
        }
        assert(a =~= b);
    } else {
        let x = a.last();
        let y = b.last();
        assert(b.filter(ties_with(y)) == a.filter(ties_with(y)));
        let ka = lemma_member_of_filter(a, b, y, b.len() - 1);
        assert(b.filter(ties_with(x)) == a.filter(ties_with(x)));
        let kb = lemma_member_of_filter(b, a, x, a.len() - 1);
        lemma_finding_order(x, y, x);
        lemma_finding_order(y, y, y);
        lemma_finding_order(x, x, x);
        if ka < a.len() - 1 {
            assert(finding_order(a[ka], a[a.len() - 1]) <= 0);
        }
        if kb < b.len() - 1 {
            assert(finding_order(b[kb], b[b.len() - 1]) <= 0);
        }
        assert(finding_order(x, y) == 0);
        let a1 = a.drop_last();
        let b1 = b.drop_last();
        assert(a.filter(ties_with(x)) == a1.filter(ties_with(x)).push(x));
        assert(b.filter(ties_with(x)) == b1.filter(ties_with(x)).push(y));
        assert(x == a.filter(ties_with(x)).last());
        assert(y == b.filter(ties_with(x)).last());
        assert forall|z: DoctorFinding| #[trigger] b1.filter(ties_with(z)) == a1.filter(ties_with(z)) by {
            assert(b.filter(ties_with(z)) == a.filter(ties_with(z)));
            if finding_order(x, z) == 0 {
                assert(a.filter(ties_with(z)) == a1.filter(ties_with(z)).push(x));
                assert(b.filter(ties_with(z)) == b1.filter(ties_with(z)).push(y));
                assert(a1.filter(ties_with(z)) =~= a.filter(ties_with(z)).drop_last());
                assert(b1.filter(ties_with(z)) =~= b.filter(ties_with(z)).drop_last());
            } else {
                assert(a.filter(ties_with(z)) == a1.filter(ties_with(z)));
                assert(b.filter(ties_with(z)) == b1.filter(ties_with(z)));
            }
        }
        assert forall|i: int, j: int| 0 <= i < j < a1.len() implies finding_order(#[trigger] a1[i], #[trigger] a1[j]) <= 0 by {
            assert(a1[i] == a[i] && a1[j] == a[j]);
        }
        assert forall|i: int, j: int| 0 <= i < j < b1.len() implies finding_order(#[trigger] b1[i], #[trigger] b1[j]) <= 0 by {
            assert(b1[i] == b[i] && b1[j] == b[j]);
        }
        lemma_sorted_ties_unique(a1, b1);
        assert(a =~= a1.push(x));
        assert(b =~= b1.push(y));
    }
}

impl DoctorReport {
    /// Append a finding.
    pub fn push(&mut self, finding: DoctorFinding)
        ensures
            final(self).findings@ == old(self).findings@.push(finding),
    {
        self.findings.push(finding);
    }

    /// Order findings by severity, scope, code and message.
    pub fn sort(&mut self)
        ensures
            findings_sorted(final(self).findings@),
            final(self).findings@.to_multiset() == old(self).findings@.to_multiset(),
            ties_in_order(old(self).findings@, final(self).findings@),
            findings_sorted(old(self).findings@) ==> final(self).findings@ == old(self).findings@,
    {
        let mut input: Vec<DoctorFinding> = Vec::new();
        std::mem::swap(&mut input, &mut self.findings);
        let ghost original = input@;
        let mut out: Vec<DoctorFinding> = Vec::new();
        let mut i: usize = 0;
        proof {
            assert(original.take(0) =~= Seq::<DoctorFinding>::empty());
        }
        while i < input.len()
            invariant
                input@ == original,
                i <= input.len(),
                findings_sorted(out@),
                out@.to_multiset() == original.take(i as int).to_multiset(),
                ties_in_order(original.take(i as int), out@),
            decreases input.len() - i,
        {
            let x = input[i].clone();
            proof {
                assert(original.take(i + 1) =~= original.take(i as int).push(original[i as int]));
                to_multiset_build(original.take(i as int), original[i as int]);
            }
            let ghost prev = out@;
            insert_sorted(&mut out, x);
            proof {
                assert forall|z: DoctorFinding| #[trigger] out@.filter(ties_with(z)) == original.take(
                    i + 1,
                ).filter(ties_with(z)) by {
                    prev.lemma_filter_push(original[i as int], ties_with(z));
                    original.take(i as int).lemma_filter_push(original[i as int], ties_with(z));
                }
            }
            i += 1;
        }
        proof {
            assert(original.take(i as int) =~= original);
            if findings_sorted(original) {
                lemma_sorted_ties_unique(original, out@);
            }
        }
        self.findings = out;
    }

    /// Count findings by severity.
    pub fn summary(&self) -> (r: DoctorSummary)
        ensures
            r.errors == count_severity(self.findings@, DoctorSeverity::Error),
            r.warnings == count_severity(self.findings@, DoctorSeverity::Warning),
            r.info == count_severity(self.findings@, DoctorSeverity::Info),
    {
        let mut summary = DoctorSummary { errors: 0, warnings: 0, info: 0 };
        let mut i: usize = 0;
        while i < self.findings.len()
            invariant
                i <= self.findings.len(),
                summary.errors == count_severity(self.findings@.take(i as int), DoctorSeverity::Error),
                summary.warnings == count_severity(self.findings@.take(i as int), DoctorSeverity::Warning),
                summary.info == count_severity(self.findings@.take(i as int), DoctorSeverity::Info),
                summary.errors + summary.warnings + summary.info == i,
            decreases self.findings.len() - i,
        {
            assert(self.findings@.take(i + 1).drop_last() =~= self.findings@.take(i as int));
            match self.findings[i].severity {
                DoctorSeverity::Error => summary.errors += 1,
                DoctorSeverity::Warning => summary.warnings += 1,
                DoctorSeverity::Info => summary.info += 1,
            }
            i += 1;
        }
        assert(self.findings@.take(i as int) =~= self.findings@);
        summary
    }

    /// Whether the report contains any errors.
    pub fn has_errors(&self) -> (r: bool)
        ensures
            r == exists|i: int|
                0 <= i < self.findings@.len() && (#[trigger] self.findings@[i]).severity
                    == DoctorSeverity::Error,
    {
        let mut i: usize = 0;
        while i < self.findings.len()
            invariant
                i <= self.findings.len(),
                forall|k: int| 0 <= k < i ==> (#[trigger] self.findings@[k]).severity != DoctorSeverity::Error,
            decreases self.findings.len() - i,
        {
            if self.findings[i].severity == DoctorSeverity::Error {
                return true;
            }
            i += 1;
        }
        false
    }

    /// Whether the report is empty.
    pub fn is_empty(&self) -> (r: bool)
        ensures
            r == (self.findings@.len() == 0),
    {
        self.findings.len() == 0
    }
}

/// The parts of a scope: its rank and, for a workspace, the name.
pub open spec fn scope_view(s: DoctorScope) -> (int, Seq<char>) {
    match s {
        DoctorScope::Repo => (0, Seq::empty()),
        DoctorScope::Workspace { workspace } => (1, workspace@),
        DoctorScope::Shell => (2, Seq::empty()),
    }
}

/// The parts of a finding, as plain values.
pub type FindingView = (DoctorSeverity, DoctorFindingCode, (int, Seq<char>), Seq<char>, Option<Seq<char>>, Option<Seq<char>>);

/// The text of an optional string.
pub open spec fn opt_text(s: Option<String>) -> Option<Seq<char>> {
    match s {
        Some(x) => Some(x@),
        None => None,
    }
}

/// The parts of a finding.
pub open spec fn finding_view(f: DoctorFinding) -> FindingView {
    (f.severity, f.code, scope_view(f.scope), f.message@, opt_text(f.path), opt_text(f.hint))
}

/// The parts of each finding.
pub open spec fn finding_views(s: Seq<DoctorFinding>) -> Seq<FindingView> {
    s.map_values(|f: DoctorFinding| finding_view(f))
}

/// Append findings in order.
pub fn append_findings(out: &mut Vec<DoctorFinding>, more: Vec<DoctorFinding>)
    ensures
        finding_views(final(out)@) == finding_views(old(out)@) + finding_views(more@),
        final(out)@ == old(out)@ + more@,
{
    let ghost start = out@;
    let ghost all = more@;
    let total = more.len();
    let mut rest = more;
    let mut i: usize = 0;
    assert(start + all.take(0) =~= start);
    while rest.len() > 0
        invariant
            i + rest@.len() == all.len(),
            all.len() == total,
            rest@ == all.skip(i as int),
            out@ == start + all.take(i as int),
        decreases rest@.len(),
    {
        let f = rest.remove(0);
        out.push(f);
        i = i + 1;
        assert(out@ =~= start + all.take(i as int));
        assert(rest@ =~= all.skip(i as int));
    }
    assert(all.take(i as int) =~= all);
    assert(finding_views(out@) =~= finding_views(start) + finding_views(all));
}

/// A report of `findings`, ordered.
pub fn report_of(findings: Vec<DoctorFinding>) -> (r: DoctorReport)
    ensures
        findings_sorted(r.findings@),
        r.findings@.to_multiset() == findings@.to_multiset(),
        ties_in_order(findings@, r.findings@),
{
    let mut report = DoctorReport { findings };
    report.sort();
    report
}

} // verus!
