//! Human-facing rendering of doctor reports, error messages and tables.
//!
//! Colors are data: a `Paint` is the escape text written before and after
//! a styled span, empty when output is not colored.

use vstd::prelude::*;
use vstd::string::*;

use crate::doctor::{count_severity, DoctorFinding, DoctorReport, DoctorScope, DoctorSeverity};
use crate::text::{
    append_range, chars_of, decimal, join_parts, lines, lines_of, push_decimal, push_spaces, spaces,
};

verus! {

/// The text written around a styled span.
#[derive(Debug)]
pub struct Paint {
    /// Text written before the span.
    pub open: String,
    /// Text written after the span.
    pub close: String,
}

/// `text` wrapped in the paint's opening and closing text.
pub open spec fn painted(paint: Paint, text: Seq<char>) -> Seq<char> {
    paint.open@ + text + paint.close@
}

impl Paint {
    /// A paint that leaves text as it is.
    pub fn plain() -> (r: Paint)
        ensures
            r.open@ == Seq::<char>::empty(),
            r.close@ == Seq::<char>::empty(),
    {
        Paint { open: String::new(), close: String::new() }
    }
}

/// Append `text` wrapped in `paint`.
pub fn push_painted(out: &mut String, paint: &Paint, text: &str)
    ensures
        final(out)@ == old(out)@ + painted(*paint, text@),
{
    out.append(paint.open.as_str());
    out.append(text);
    out.append(paint.close.as_str());
}

/// The paints used by the doctor report.
#[derive(Debug)]
pub struct DoctorPalette {
    /// The `Doctor` heading.
    pub heading: Paint,
    /// Section labels.
    pub section: Paint,
    /// Detail labels such as `scope:`.
    pub detail: Paint,
    /// Badges of error severity.
    pub error_badge: Paint,
    /// Badges of warning severity.
    pub warning_badge: Paint,
    /// Badges of info severity.
    pub ok_badge: Paint,
}

impl DoctorPalette {
    /// A palette without colors.
    pub fn plain() -> (r: DoctorPalette)
        ensures
            r.is_plain(),
    {
        DoctorPalette {
            heading: Paint::plain(),
            section: Paint::plain(),
            detail: Paint::plain(),
            error_badge: Paint::plain(),
            warning_badge: Paint::plain(),
            ok_badge: Paint::plain(),
        }
    }

    /// Every paint is empty.
    pub open spec fn is_plain(self) -> bool {
        &&& self.heading.open@.len() == 0 && self.heading.close@.len() == 0
        &&& self.section.open@.len() == 0 && self.section.close@.len() == 0
        &&& self.detail.open@.len() == 0 && self.detail.close@.len() == 0
        &&& self.error_badge.open@.len() == 0 && self.error_badge.close@.len() == 0
        &&& self.warning_badge.open@.len() == 0 && self.warning_badge.close@.len() == 0
        &&& self.ok_badge.open@.len() == 0 && self.ok_badge.close@.len() == 0
    }

    /// The badge paint for a severity.
    pub open spec fn badge_paint(self, severity: DoctorSeverity) -> Paint {
        match severity {
            DoctorSeverity::Error => self.error_badge,
            DoctorSeverity::Warning => self.warning_badge,
            DoctorSeverity::Info => self.ok_badge,
        }
    }

    fn badge_paint_of(&self, severity: DoctorSeverity) -> (r: &Paint)
        ensures
            *r == self.badge_paint(severity),
    {
        match severity {
            DoctorSeverity::Error => &self.error_badge,
            DoctorSeverity::Warning => &self.warning_badge,
            DoctorSeverity::Info => &self.ok_badge,
        }
    }
}

/// `[ label ]` in the badge paint of `severity`.
pub open spec fn badge_text(palette: DoctorPalette, label: Seq<char>, severity: DoctorSeverity) -> Seq<char> {
    painted(palette.badge_paint(severity), "[ "@ + label + " ]"@)
}

fn push_badge(out: &mut String, palette: &DoctorPalette, label: &str, severity: DoctorSeverity)
    ensures
        final(out)@ == old(out)@ + badge_text(*palette, label@, severity),
{
    let paint = palette.badge_paint_of(severity);
    out.append(paint.open.as_str());
    out.append("[ ");
    out.append(label);
    out.append(" ]");
    out.append(paint.close.as_str());
    assert(final(out)@ =~= old(out)@ + badge_text(*palette, label@, severity)) by {
        assert(out@ =~= old(out)@ + badge_text(*palette, label@, severity));
    }
}

/// `1 noun`, or `n nouns` for any other count.
pub open spec fn pluralize(count: nat, noun: Seq<char>) -> Seq<char> {
    if count == 1 {
        "1 "@ + noun
    } else {
        decimal(count) + " "@ + noun + "s"@
    }
}

fn push_pluralized(out: &mut String, count: usize, noun: &str)
    ensures
        final(out)@ == old(out)@ + pluralize(count as nat, noun@),
{
    if count == 1 {
        out.append("1 ");
        out.append(noun);
    } else {
        push_decimal(out, count as u64);
        out.append(" ");
        out.append(noun);
        out.append("s");
    }
}

/// The summary line's counts: each non-zero count, comma separated, or `ok`.
pub open spec fn summary_counts_text(errors: nat, warnings: nat, info: nat) -> Seq<char> {
    let e = if errors > 0 { seq![pluralize(errors, "error"@)] } else { Seq::empty() };
    let w = if warnings > 0 { seq![pluralize(warnings, "warning"@)] } else { Seq::empty() };
    let i = if info > 0 { seq![pluralize(info, "info"@)] } else { Seq::empty() };
    let parts = e + w + i;
    if parts.len() == 0 {
        "ok"@
    } else {
        crate::text::join_parts(parts, ", "@)
    }
}

fn push_summary_counts(out: &mut String, errors: usize, warnings: usize, info: usize)
    ensures
        final(out)@ == old(out)@ + summary_counts_text(errors as nat, warnings as nat, info as nat),
{
    let ghost e = if errors > 0 { seq![pluralize(errors as nat, "error"@)] } else { Seq::empty() };
    let ghost w = if warnings > 0 { seq![pluralize(warnings as nat, "warning"@)] } else { Seq::empty() };
    let ghost i = if info > 0 { seq![pluralize(info as nat, "info"@)] } else { Seq::empty() };
    let mut first = true;
    let ghost start = out@;
    if errors > 0 {
        push_pluralized(out, errors, "error");
        first = false;
    }
    assert(out@ == start + crate::text::join_parts(e, ", "@));
    if warnings > 0 {
        if !first {
            out.append(", ");
        }
        push_pluralized(out, warnings, "warning");
        first = false;
        assert((e + w).drop_last() =~= e);
    }
    assert(first == ((e + w).len() == 0));
    assert(out@ =~= start + crate::text::join_parts(e + w, ", "@));
    if info > 0 {
        if !first {
            out.append(", ");
        }
        push_pluralized(out, info, "info");
        first = false;
        assert((e + w + i).drop_last() =~= e + w);
    }
    assert(out@ =~= start + crate::text::join_parts(e + w + i, ", "@));
    if first {
        out.append("ok");
    }
}

/// The headline after `Doctor`.
pub open spec fn headline_text(errors: nat, warnings: nat) -> Seq<char> {
    if errors > 0 {
        "attention needed"@
    } else if warnings > 0 {
        "warnings found"@
    } else {
        "healthy"@
    }
}

/// The severity the headline is shown with.
pub open spec fn headline_severity(errors: nat, warnings: nat) -> DoctorSeverity {
    if errors > 0 {
        DoctorSeverity::Error
    } else if warnings > 0 {
        DoctorSeverity::Warning
    } else {
        DoctorSeverity::Info
    }
}

/// The icon shown for a severity.
pub open spec fn icon_text(severity: DoctorSeverity) -> Seq<char> {
    match severity {
        DoctorSeverity::Error => "x"@,
        DoctorSeverity::Warning => "!"@,
        DoctorSeverity::Info => "o"@,
    }
}

fn finding_icon(severity: DoctorSeverity) -> (r: &'static str)
    ensures
        r@ == icon_text(severity),
{
    match severity {
        DoctorSeverity::Error => "x",
        DoctorSeverity::Warning => "!",
        DoctorSeverity::Info => "o",
    }
}

/// Number of findings in the scope kind `rank` (repo, workspaces, shell).
pub open spec fn scope_count(s: Seq<DoctorFinding>, rank: int) -> nat
    decreases s.len(),
{
    if s.len() == 0 {
        0
    } else {
        scope_count(s.drop_last(), rank) + if s.last().scope.rank() == rank {
            1nat
        } else {
            0nat
        }
    }
}

/// The most severe finding severity in the scope kind `rank`.
pub open spec fn scope_worst(s: Seq<DoctorFinding>, rank: int) -> Option<DoctorSeverity>
    decreases s.len(),
{
    if s.len() == 0 {
        None
    } else {
        let w = scope_worst(s.drop_last(), rank);
        let f = s.last();
        if f.scope.rank() == rank {
            match w {
                None => Some(f.severity),
                Some(c) => Some(
                    if c.rank() <= f.severity.rank() {
                        c
                    } else {
                        f.severity
                    },
                ),
            }
        } else {
            w
        }
    }
}

/// The severity a scope line is shown with.
pub open spec fn worst_or_info(worst: Option<DoctorSeverity>) -> DoctorSeverity {
    match worst {
        Some(s) => s,
        None => DoctorSeverity::Info,
    }
}

/// The status shown for one scope.
pub open spec fn scope_status_text(count: nat, worst: Option<DoctorSeverity>) -> Seq<char> {
    match worst {
        None => "ok"@,
        Some(s) => s.spec_label() + " ("@ + pluralize(count, "finding"@) + ")"@,
    }
}

/// One line of the checks section.
pub open spec fn scope_line_text(
    palette: DoctorPalette,
    label: Seq<char>,
    count: nat,
    worst: Option<DoctorSeverity>,
) -> Seq<char> {
    "  "@ + icon_text(worst_or_info(worst)) + " "@ + label + spaces(
        (if label.len() < 10 {
            10 - label.len()
        } else {
            0
        }) as nat,
    ) + " "@ + badge_text(palette, scope_status_text(count, worst), worst_or_info(worst)) + "\n"@
}

fn push_scope_line(
    out: &mut String,
    palette: &DoctorPalette,
    label: &str,
    label_len: usize,
    count: usize,
    worst: Option<DoctorSeverity>,
)
    requires
        label_len == label@.len(),
    ensures
        final(out)@ == old(out)@ + scope_line_text(*palette, label@, count as nat, worst),
{
    let severity = match worst {
        Some(s) => s,
        None => DoctorSeverity::Info,
    };
    out.append("  ");
    out.append(finding_icon(severity));
    out.append(" ");
    out.append(label);
    push_spaces(
        out,
        if label_len < 10 {
            10 - label_len
        } else {
            0
        },
    );
    out.append(" ");
    let mut status = String::new();
    match worst {
        None => status.append("ok"),
        Some(s) => {
            status.append(s.label());
            status.append(" (");
            push_pluralized(&mut status, count, "finding");
            status.append(")");
        },
    }
    push_badge(out, palette, status.as_str(), severity);
    out.append("\n");
    assert(out@ =~= old(out)@ + scope_line_text(*palette, label@, count as nat, worst));
}

/// How a finding's scope is shown.
pub open spec fn scope_text(scope: DoctorScope) -> Seq<char> {
    match scope {
        DoctorScope::Repo => "repo"@,
        DoctorScope::Workspace { workspace } => "workspace:"@ + workspace@,
        DoctorScope::Shell => "shell"@,
    }
}

/// A finding's title line text.
pub open spec fn finding_title_text(scope: DoctorScope, message: Seq<char>) -> Seq<char> {
    match scope {
        DoctorScope::Workspace { workspace } => workspace@ + " - "@ + message,
        _ => message,
    }
}

/// An optional detail line.
pub open spec fn detail_line_text(palette: DoctorPalette, label: Seq<char>, value: Option<String>) -> Seq<char> {
    match value {
        Some(v) => "      "@ + painted(palette.detail, label) + " "@ + v@ + "\n"@,
        None => Seq::empty(),
    }
}

/// The lines for one finding.
pub open spec fn finding_text(palette: DoctorPalette, f: DoctorFinding) -> Seq<char> {
    finding_head_text(palette, f) + finding_scope_line_text(palette, f) + detail_line_text(
        palette,
        "path:"@,
        f.path,
    ) + detail_line_text(palette, "hint:"@, f.hint)
}

/// The lines for a sequence of findings.
pub open spec fn findings_text(palette: DoctorPalette, s: Seq<DoctorFinding>) -> Seq<char>
    decreases s.len(),
{
    if s.len() == 0 {
        Seq::empty()
    } else {
        findings_text(palette, s.drop_last()) + finding_text(palette, s.last())
    }
}

fn push_detail_line(out: &mut String, palette: &DoctorPalette, label: &str, value: &Option<String>)
    ensures
        final(out)@ == old(out)@ + detail_line_text(*palette, label@, *value),
{
    if let Some(v) = value {
        out.append("      ");
        push_painted(out, &palette.detail, label);
        out.append(" ");
        out.append(v.as_str());
        out.append("\n");
    }
    assert(out@ =~= old(out)@ + detail_line_text(*palette, label@, *value));
}

/// A finding's first line.
pub open spec fn finding_head_text(palette: DoctorPalette, f: DoctorFinding) -> Seq<char> {
    "  "@ + icon_text(f.severity) + " "@ + badge_text(palette, f.severity.spec_label(), f.severity)
        + "  "@ + finding_title_text(f.scope, f.message@) + "\n"@
}

/// A finding's scope line.
pub open spec fn finding_scope_line_text(palette: DoctorPalette, f: DoctorFinding) -> Seq<char> {
    "      "@ + painted(palette.detail, "scope:"@) + " "@ + scope_text(f.scope) + "\n"@
}

fn push_finding_head(out: &mut String, palette: &DoctorPalette, f: &DoctorFinding)
    ensures
        final(out)@ == old(out)@ + finding_head_text(*palette, *f),
{
    out.append("  ");
    out.append(finding_icon(f.severity));
    out.append(" ");
    push_badge(out, palette, f.severity.label(), f.severity);
    out.append("  ");
    match &f.scope {
        DoctorScope::Workspace { workspace } => {
            out.append(workspace.as_str());
            out.append(" - ");
            out.append(f.message.as_str());
        },
        _ => {
            out.append(f.message.as_str());
        },
    }
    out.append("\n");
    assert(out@ =~= old(out)@ + finding_head_text(*palette, *f));
}

fn push_finding_scope_line(out: &mut String, palette: &DoctorPalette, f: &DoctorFinding)
    ensures
        final(out)@ == old(out)@ + finding_scope_line_text(*palette, *f),
{
    out.append("      ");
    push_painted(out, &palette.detail, "scope:");
    out.append(" ");
    match &f.scope {
        DoctorScope::Repo => out.append("repo"),
        DoctorScope::Workspace { workspace } => {
            out.append("workspace:");
            out.append(workspace.as_str());
        },
        DoctorScope::Shell => out.append("shell"),
    }
    out.append("\n");
    assert(out@ =~= old(out)@ + finding_scope_line_text(*palette, *f));
}

fn push_finding(out: &mut String, palette: &DoctorPalette, f: &DoctorFinding)
    ensures
        final(out)@ == old(out)@ + finding_text(*palette, *f),
{
    push_finding_head(out, palette, f);
    push_finding_scope_line(out, palette, f);
    push_detail_line(out, palette, "path:", &f.path);
    push_detail_line(out, palette, "hint:", &f.hint);
    assert(out@ =~= old(out)@ + finding_text(*palette, *f));
}

/// The full human-facing doctor report.
pub open spec fn doctor_report_text(palette: DoctorPalette, s: Seq<DoctorFinding>) -> Seq<char> {
    let errors = count_severity(s, DoctorSeverity::Error);
    let warnings = count_severity(s, DoctorSeverity::Warning);
    let info = count_severity(s, DoctorSeverity::Info);
    painted(palette.heading, "Doctor"@) + " "@ + badge_text(
        palette,
        headline_text(errors, warnings),
        headline_severity(errors, warnings),
    ) + "\n"@ + painted(palette.section, "Summary"@) + " "@ + summary_counts_text(
        errors,
        warnings,
        info,
    ) + "\n"@ + "\n"@ + painted(palette.section, "Checks"@) + "\n"@ + scope_line_text(
        palette,
        "repo"@,
        scope_count(s, 0),
        scope_worst(s, 0),
    ) + scope_line_text(palette, "workspaces"@, scope_count(s, 1), scope_worst(s, 1))
        + scope_line_text(palette, "shell"@, scope_count(s, 2), scope_worst(s, 2)) + if s.len()
        == 0 {
        Seq::empty()
    } else {
        "\n"@ + painted(palette.section, "Findings"@) + "\n"@ + findings_text(palette, s)
    }
}

/// Count findings and find the worst severity for each scope kind.
fn scope_summaries(s: &Vec<DoctorFinding>) -> (r: [(usize, Option<DoctorSeverity>); 3])
    ensures
        forall|k: int|
            0 <= k < 3 ==> (#[trigger] r@[k]).0 == scope_count(s@, k) && r@[k].1 == scope_worst(
                s@,
                k,
            ),
{
    let mut r: [(usize, Option<DoctorSeverity>); 3] = [(0, None), (0, None), (0, None)];
    let mut i: usize = 0;
    while i < s.len()
        invariant
            i <= s.len(),
            forall|k: int|
                0 <= k < 3 ==> (#[trigger] r@[k]).0 == scope_count(s@.take(i as int), k) && r@[k].1
                    == scope_worst(s@.take(i as int), k),
            forall|k: int| 0 <= k < 3 ==> (#[trigger] r@[k]).0 <= i,
        decreases s.len() - i,
    {
        let k: usize = match &s[i].scope {
            DoctorScope::Repo => 0,
            DoctorScope::Workspace { .. } => 1,
            DoctorScope::Shell => 2,
        };
        let severity = s[i].severity;
        let (count, worst) = r[k];
        let next = match worst {
            None => severity,
            Some(c) => if c.rank_of() <= severity.rank_of() {
                c
            } else {
                severity
            },
        };
        r[k] = (count + 1, Some(next));
        proof {
            assert(s@.take(i + 1).drop_last() =~= s@.take(i as int));
        }
        i += 1;
    }
    assert(s@.take(i as int) =~= s@);
    r
}

/// Render a doctor report as human-facing text with the given colors.
#[verifier::rlimit(30)]
pub fn render_doctor_report_with(report: &DoctorReport, palette: &DoctorPalette) -> (r: String)
    ensures
        r@ == doctor_report_text(*palette, report.findings@),
{
    let summary = report.summary();
    let mut out = String::new();
    push_painted(&mut out, &palette.heading, "Doctor");
    out.append(" ");
    let headline = if summary.errors > 0 {
        "attention needed"
    } else if summary.warnings > 0 {
        "warnings found"
    } else {
        "healthy"
    };
    let severity = if summary.errors > 0 {
        DoctorSeverity::Error
    } else if summary.warnings > 0 {
        DoctorSeverity::Warning
    } else {
        DoctorSeverity::Info
    };
    push_badge(&mut out, palette, headline, severity);
    out.append("\n");
    push_painted(&mut out, &palette.section, "Summary");
    out.append(" ");
    push_summary_counts(&mut out, summary.errors, summary.warnings, summary.info);
    out.append("\n");
    out.append("\n");
    push_painted(&mut out, &palette.section, "Checks");
    out.append("\n");
    let scopes = scope_summaries(&report.findings);
    proof {
        reveal_strlit("repo");
        reveal_strlit("workspaces");
        reveal_strlit("shell");
        assert(scopes@[0].0 == scope_count(report.findings@, 0));
        assert(scopes@[1].0 == scope_count(report.findings@, 1));
        assert(scopes@[2].0 == scope_count(report.findings@, 2));
    }
    push_scope_line(&mut out, palette, "repo", 4, scopes[0].0, scopes[0].1);
    push_scope_line(&mut out, palette, "workspaces", 10, scopes[1].0, scopes[1].1);
    push_scope_line(&mut out, palette, "shell", 5, scopes[2].0, scopes[2].1);
    let ghost head = out@;
    if !report.is_empty() {
        out.append("\n");
        push_painted(&mut out, &palette.section, "Findings");
        out.append("\n");
        let ghost mid = out@;
        let mut i: usize = 0;
        while i < report.findings.len()
            invariant
                i <= report.findings.len(),
                out@ == mid + findings_text(*palette, report.findings@.take(i as int)),
            decreases report.findings.len() - i,
        {
            push_finding(&mut out, palette, &report.findings[i]);
            proof {
                assert(report.findings@.take(i + 1).drop_last() =~= report.findings@.take(i as int));
            }
            i += 1;
        }
        assert(report.findings@.take(i as int) =~= report.findings@);
    }
    assert(out@ =~= doctor_report_text(*palette, report.findings@));
    out
}

/// Render a doctor report as human-facing text without colors.
pub fn render_doctor_report(report: &DoctorReport) -> (r: String)
    ensures
        exists|p: DoctorPalette| p.is_plain() && r@ == doctor_report_text(p, report.findings@),
{
    let palette = DoctorPalette::plain();
    render_doctor_report_with(report, &palette)
}


/// The paints used for error message prefixes.
#[derive(Debug)]
pub struct ErrorPalette {
    /// The `error:` prefix.
    pub error: Paint,
    /// The `warning:` prefix.
    pub warning: Paint,
    /// The `hint:` prefix.
    pub hint: Paint,
}

impl ErrorPalette {
    /// A palette without colors.
    pub fn plain() -> (r: ErrorPalette)
        ensures
            r.error.open@.len() == 0 && r.error.close@.len() == 0,
            r.warning.open@.len() == 0 && r.warning.close@.len() == 0,
            r.hint.open@.len() == 0 && r.hint.close@.len() == 0,
    {
        ErrorPalette { error: Paint::plain(), warning: Paint::plain(), hint: Paint::plain() }
    }
}

/// Whether `s` starts with `p`.
pub open spec fn has_prefix(s: Seq<char>, p: Seq<char>) -> bool {
    p.len() <= s.len() && s.take(p.len() as int) == p
}

/// One error line with its `error:`, `warning:` or `hint:` prefix painted.
pub open spec fn colorize_line_text(palette: ErrorPalette, line: Seq<char>) -> Seq<char> {
    if has_prefix(line, "error:"@) {
        painted(palette.error, "error:"@) + line.skip(6)
    } else if has_prefix(line, "warning:"@) {
        painted(palette.warning, "warning:"@) + line.skip(8)
    } else if has_prefix(line, "hint:"@) {
        painted(palette.hint, "hint:"@) + line.skip(5)
    } else {
        line
    }
}

/// Whether `v` starts with the characters of `p`.
pub fn starts_with_str(v: &Vec<char>, p: &str) -> (r: bool)
    ensures
        r == has_prefix(v@, p@),
{
    let pv = chars_of(p);
    if pv.len() > v.len() {
        return false;
    }
    let mut i: usize = 0;
    while i < pv.len()
        invariant
            pv.len() <= v.len(),
            i <= pv.len(),
            pv@ == p@,
            forall|j: int| 0 <= j < i ==> v@[j] == pv@[j],
        decreases pv.len() - i,
    {
        if v[i] != pv[i] {
            assert(v@.take(pv.len() as int)[i as int] != pv@[i as int]);
            return false;
        }
        i += 1;
    }
    assert(v@.take(pv.len() as int) =~= pv@);
    true
}

fn push_colorized_line(out: &mut String, palette: &ErrorPalette, line: &Vec<char>)
    ensures
        final(out)@ == old(out)@ + colorize_line_text(*palette, line@),
{
    proof {
        reveal_strlit("error:");
        reveal_strlit("warning:");
        reveal_strlit("hint:");
    }
    if starts_with_str(line, "error:") {
        push_painted(out, &palette.error, "error:");
        append_range(out, line, 6, line.len());
    } else if starts_with_str(line, "warning:") {
        push_painted(out, &palette.warning, "warning:");
        append_range(out, line, 8, line.len());
    } else if starts_with_str(line, "hint:") {
        push_painted(out, &palette.hint, "hint:");
        append_range(out, line, 5, line.len());
    } else {
        append_range(out, line, 0, line.len());
        assert(line@.subrange(0, line@.len() as int) =~= line@);
    }
    assert(line@.skip(6) =~= line@.subrange(6, line@.len() as int));
    assert(line@.skip(8) =~= line@.subrange(8, line@.len() as int));
    assert(line@.skip(5) =~= line@.subrange(5, line@.len() as int));
}

/// A message with each line's prefix painted, lines joined by `\n`.
pub open spec fn error_message_text(palette: ErrorPalette, message: Seq<char>) -> Seq<char> {
    join_parts(lines_of(message).map_values(|l: Seq<char>| colorize_line_text(palette, l)), "\n"@)
}

/// Render a human-facing error message with the given prefix colors.
pub fn render_error_message_with(message: &str, palette: &ErrorPalette) -> (r: String)
    ensures
        r@ == error_message_text(*palette, message@),
{
    let ls = lines(message);
    let ghost parts = lines_of(message@).map_values(|l: Seq<char>| colorize_line_text(*palette, l));
    let mut out = String::new();
    let mut i: usize = 0;
    while i < ls.len()
        invariant
            i <= ls.len(),
            ls@.map_values(|l: Vec<char>| l@) == lines_of(message@),
            parts == lines_of(message@).map_values(|l: Seq<char>| colorize_line_text(*palette, l)),
            out@ == join_parts(parts.take(i as int), "\n"@),
        decreases ls.len() - i,
    {
        assert(parts.take(i + 1).drop_last() =~= parts.take(i as int));
        assert(ls@.map_values(|l: Vec<char>| l@)[i as int] == ls@[i as int]@);
        if i > 0 {
            out.append("\n");
        }
        push_colorized_line(&mut out, palette, &ls[i]);
        i += 1;
    }
    assert(parts.take(i as int) =~= parts);
    out
}

/// Render a human-facing error message without colors.
pub fn render_error_message(message: &str) -> (r: String)
    ensures
        exists|p: ErrorPalette|
            p.error.open@.len() == 0 && p.error.close@.len() == 0 && p.warning.open@.len() == 0
                && p.warning.close@.len() == 0 && p.hint.open@.len() == 0 && p.hint.close@.len()
                == 0 && r@ == error_message_text(p, message@),
{
    let palette = ErrorPalette::plain();
    render_error_message_with(message, &palette)
}

} // verus!
